use std::path::PathBuf;

use noseyparker::blob_id::BlobId;
use noseyparker::blob_metadata::BlobMetadata;
use noseyparker::datastore::{
    Annotations, BlobTarget, Datastore, DatastoreError, Finding, FindingSummaryEntry,
    MatchAnnotation, MatchRecord, Status, Statuses,
};
use noseyparker::location::{Location, OffsetSpan, SourcePoint, SourceSpan};
use noseyparker::match_type::{Group, Groups, Match};
use noseyparker::snippet::Snippet;
use noseyparker::target::{CommitMetadata, Target};

fn blob(n: u8) -> BlobId {
    BlobId::from_bytes([n; 20])
}

fn groups_of(items: &[&[u8]]) -> Groups {
    let mut groups = Groups::new();
    for item in items {
        groups.push(Group::new(item));
    }
    groups
}

fn a_match(rule: &str, groups: &[&[u8]], blob_n: u8, start: usize) -> Match {
    let span = OffsetSpan { start, end: start + 4 };
    Match {
        blob_id: blob(blob_n),
        location: Location {
            offset_span: span,
            source_span: SourceSpan {
                start: SourcePoint { line: 1, column: start + 1 },
                end: SourcePoint { line: 1, column: start + 4 },
            },
        },
        groups: groups_of(groups),
        snippet: Snippet { before: b"<".to_vec(), matching: b"abcd".to_vec(), after: b">".to_vec() },
        structural_id: Match::compute_structural_id(rule, &blob(blob_n), span),
        rule_structural_id: rule.to_string(),
        rule_text_id: format!("np.{}", rule),
        rule_name: format!("Rule {}", rule),
    }
}

fn record(m: Match) -> MatchRecord {
    let blob_metadata = BlobMetadata {
        id: m.blob_id,
        num_bytes: 100,
        mime_essence: Some("text/plain".to_string()),
        charset: None,
    };
    MatchRecord { match_val: m, blob_metadata }
}

fn store_of(matches: Vec<Match>) -> Datastore {
    let mut store = Datastore::new_in_memory();
    for m in matches {
        store.blob_targets.push(BlobTarget {
            blob_id: m.blob_id,
            target: Target::from_file(PathBuf::from(format!("/blobs/{}", m.blob_id.hex()))),
        });
        store.matches.push(record(m));
    }
    store
}

fn status_note(m: &Match, status: Option<Status>, comment: Option<&str>) -> MatchAnnotation {
    MatchAnnotation {
        finding_id: m.finding_id(),
        rule_name: m.rule_name.clone(),
        rule_text_id: m.rule_text_id.clone(),
        rule_structural_id: m.rule_structural_id.clone(),
        match_id: m.structural_id.clone(),
        blob_id: m.blob_id,
        start_byte: m.location.offset_span.start,
        end_byte: m.location.offset_span.end,
        groups: m.groups.clone(),
        status,
        comment: comment.map(|c| c.to_string()),
    }
}

fn bare_finding(rule_name: &str, id: &str, count: usize) -> Finding {
    Finding {
        rule_name: rule_name.to_string(),
        rule_structural_id: "sid".to_string(),
        finding_id: id.to_string(),
        count,
        matches: vec![],
        accept_count: 0,
        reject_count: 0,
        mixed_count: 0,
        unlabeled_count: count,
        rule_text_id: None,
        groups: None,
        comment: None,
        statuses: None,
    }
}

#[test]
fn new_store_is_empty() {
    let store = Datastore::new_in_memory();
    store.begin();
    assert_eq!(store.get_num_matches(), 0);
    assert_eq!(store.get_num_findings(), 0);
    assert_eq!(store.get_annotations(), Annotations::new());
    assert_eq!(store.get_finding_metadata(), vec![]);
    assert_eq!(store.get_summary().expect("summary").0, vec![]);
}

#[test]
fn analyze_groups_by_rule_and_groups() {
    let a = a_match("R1", &[b"g1"], 1, 0);
    let b = a_match("R1", &[b"g1"], 2, 5);
    let c = a_match("R1", &[b"g2"], 1, 10);
    let d = a_match("R2", &[b"g1"], 1, 0);
    let mut store = store_of(vec![a.clone(), b.clone(), c.clone(), d.clone()]);
    store.analyze();
    assert_eq!(store.get_num_matches(), 4);
    assert_eq!(store.get_num_findings(), 3);
    assert_eq!(store.findings[0].matches, vec![a.clone(), b]);
    assert_eq!(store.findings[1].matches, vec![c]);
    assert_eq!(store.findings[2].matches, vec![d]);
    assert_eq!(store.findings[0].finding_id, "06b0c57df93a10e9f155d552e3119b0b61bed49e");
    assert_eq!(store.findings[1].finding_id, "56fd851de628b49501141ed72a76fbe29643a927");
    assert_eq!(store.findings[2].finding_id, "78edde22b7ebaf12ec6056a114d11ed7acb47520");
    assert_eq!(store.findings[0].rule_name, "Rule R1");
    assert_eq!(store.findings[0].rule_structural_id, "R1");
    assert_eq!(store.findings[0].rule_text_id, Some("np.R1".to_string()));
    assert_eq!(store.findings[0].groups, Some(a.groups));
    assert_eq!(store.findings[0].comment, None);
    assert_eq!(store.findings[0].statuses, None);
}

#[test]
fn analyze_counts_every_match_as_unlabeled() {
    let mut store = store_of(vec![
        a_match("R1", &[b"g1"], 1, 0),
        a_match("R1", &[b"g1"], 2, 5),
        a_match("R1", &[b"g2"], 1, 10),
    ]);
    store.analyze();
    for f in &store.findings {
        assert_eq!(f.count, f.matches.len());
        assert_eq!(f.accept_count, 0);
        assert_eq!(f.reject_count, 0);
        assert_eq!(f.mixed_count, 0);
        assert_eq!(f.unlabeled_count, f.count);
    }
    assert_eq!(store.findings[0].count, 2);
    assert_eq!(store.findings[1].count, 1);
}

#[test]
fn analyze_keeps_the_order_of_first_occurrence() {
    let mut store = store_of(vec![
        a_match("R2", &[b"x"], 1, 0),
        a_match("R1", &[b"x"], 1, 0),
        a_match("R2", &[b"x"], 2, 0),
        a_match("R1", &[b"y"], 1, 0),
    ]);
    store.analyze();
    let rules: Vec<&str> = store.findings.iter().map(|f| f.rule_structural_id.as_str()).collect();
    assert_eq!(rules, vec!["R2", "R1", "R1"]);
    assert_eq!(store.findings[0].count, 2);
}

#[test]
fn analyze_twice_gives_the_same_findings() {
    let mut store = store_of(vec![
        a_match("R1", &[b"g1"], 1, 0),
        a_match("R1", &[b"g1"], 2, 5),
        a_match("R1", &[b"g2"], 1, 10),
        a_match("R2", &[b"g1"], 1, 0),
    ]);
    store.analyze();
    let first = store.findings.clone();
    let matches = store.matches.clone();
    store.analyze();
    assert_eq!(store.findings, first);
    assert_eq!(store.matches, matches);
    assert_eq!(store.get_num_findings(), 3);
}

#[test]
fn analyze_drops_the_findings_stored_before() {
    let mut store = store_of(vec![a_match("R1", &[b"g1"], 1, 0)]);
    store.findings.push(bare_finding("stale", "old", 7));
    store.analyze();
    assert_eq!(store.get_num_findings(), 1);
    assert_eq!(store.findings[0].rule_name, "Rule R1");
    let mut empty = Datastore::new_in_memory();
    empty.findings.push(bare_finding("stale", "old", 7));
    empty.analyze();
    assert_eq!(empty.get_num_findings(), 0);
}

#[test]
fn analyze_uses_the_computed_finding_id() {
    let a = a_match("R1", &[b"g1"], 1, 0);
    let mut store = store_of(vec![a.clone()]);
    store.analyze();
    assert_eq!(store.findings[0].finding_id, a.finding_id());
}

#[test]
fn summary_adds_up_by_rule() {
    let mut store = store_of(vec![
        a_match("R1", &[b"g1"], 1, 0),
        a_match("R1", &[b"g1"], 2, 5),
        a_match("R1", &[b"g2"], 1, 10),
        a_match("R2", &[b"g1"], 1, 0),
    ]);
    store.analyze();
    let summary = store.get_summary().expect("summary");
    assert_eq!(
        summary.0,
        vec![
            FindingSummaryEntry {
                rule_name: "Rule R1".to_string(),
                distinct_count: 2,
                total_count: 3,
                accept_count: 0,
                reject_count: 0,
                mixed_count: 0,
                unlabeled_count: 3,
            },
            FindingSummaryEntry {
                rule_name: "Rule R2".to_string(),
                distinct_count: 1,
                total_count: 1,
                accept_count: 0,
                reject_count: 0,
                mixed_count: 0,
                unlabeled_count: 1,
            },
        ]
    );
}

#[test]
fn summary_sums_the_stored_counters() {
    let mut store = Datastore::new_in_memory();
    let mut f1 = bare_finding("a", "1", 10);
    f1.accept_count = 4;
    f1.reject_count = 3;
    f1.mixed_count = 2;
    f1.unlabeled_count = 1;
    let mut f2 = bare_finding("b", "2", 5);
    f2.unlabeled_count = 5;
    let mut f3 = bare_finding("a", "3", 7);
    f3.accept_count = 7;
    f3.unlabeled_count = 0;
    store.findings = vec![f1, f2, f3];
    let summary = store.get_summary().expect("summary");
    assert_eq!(summary.0.len(), 2);
    assert_eq!(
        summary.0[0],
        FindingSummaryEntry {
            rule_name: "a".to_string(),
            distinct_count: 2,
            total_count: 17,
            accept_count: 11,
            reject_count: 3,
            mixed_count: 2,
            unlabeled_count: 1,
        }
    );
    assert_eq!(summary.0[1].rule_name, "b");
    assert_eq!(summary.0[1].total_count, 5);
}

#[test]
fn summary_fails_where_a_sum_does_not_fit() {
    let mut store = Datastore::new_in_memory();
    store.findings = vec![
        bare_finding("a", "1", usize::MAX),
        bare_finding("b", "2", 1),
        bare_finding("a", "3", 1),
    ];
    assert_eq!(
        store.get_summary(),
        Err(DatastoreError::CountOverflow { rule_name: "a".to_string() })
    );
    store.findings.pop();
    assert!(store.get_summary().is_ok());
}

#[test]
fn error_messages() {
    assert_eq!(
        DatastoreError::CountOverflow { rule_name: "a".to_string() }.message(),
        "counts overflow for rule a"
    );
    assert_eq!(
        DatastoreError::MissingProvenance { blob_id: blob(1) }.message(),
        "should have at least 1 target entry: blob 0101010101010101010101010101010101010101"
    );
}

#[test]
fn metadata_describes_each_finding() {
    let a = a_match("R1", &[b"g1"], 1, 0);
    let mut store = store_of(vec![a.clone(), a_match("R1", &[b"g1"], 2, 5), a_match("R2", &[], 1, 0)]);
    store.analyze();
    let metadata = store.get_finding_metadata();
    assert_eq!(metadata.len(), 2);
    assert_eq!(metadata[0].finding_id, a.finding_id());
    assert_eq!(metadata[0].groups, a.groups);
    assert_eq!(metadata[0].rule_structural_id, "R1");
    assert_eq!(metadata[0].rule_text_id, "np.R1");
    assert_eq!(metadata[0].rule_name, "Rule R1");
    assert_eq!(metadata[0].num_matches, 2);
    assert_eq!(metadata[0].comment, None);
    assert_eq!(metadata[0].statuses, Statuses::new());
    assert_eq!(metadata[1].num_matches, 1);
    assert_eq!(metadata[1].groups, Groups::new());
    assert_eq!(metadata[0].clone(), metadata[0]);
}

#[test]
fn metadata_defaults_what_a_stored_finding_lacks() {
    let mut store = Datastore::new_in_memory();
    store.findings.push(bare_finding("a", "f1", 3));
    let metadata = store.get_finding_metadata();
    assert_eq!(metadata.len(), 1);
    assert_eq!(metadata[0].finding_id, "f1");
    assert_eq!(metadata[0].groups, Groups::new());
    assert_eq!(metadata[0].rule_text_id, "");
    assert_eq!(metadata[0].num_matches, 3);
    assert_eq!(metadata[0].comment, None);
    assert_eq!(metadata[0].statuses, Statuses::new());
}

#[test]
fn finding_data_joins_blob_and_provenance() {
    let a = a_match("R1", &[b"g1"], 1, 0);
    let b = a_match("R1", &[b"g1"], 2, 5);
    let c = a_match("R1", &[b"g2"], 3, 10);
    let d = a_match("R2", &[b"g1"], 4, 0);
    let mut store = store_of(vec![a.clone(), b.clone(), c, d]);
    store.analyze();
    let metadata = store.get_finding_metadata();
    let data = store.get_finding_data(&metadata[0], None).expect("data");
    assert_eq!(data.len(), 2);
    assert_eq!(data[0].match_val, a);
    assert_eq!(data[0].match_id, a.structural_id);
    assert_eq!(data[0].blob_metadata, record(a.clone()).blob_metadata);
    assert_eq!(data[0].target.len(), 1);
    assert_eq!(
        data[0].target.first(),
        &Target::from_file(PathBuf::from(format!("/blobs/{}", blob(1).hex())))
    );
    assert_eq!(data[0].match_comment, None);
    assert_eq!(data[0].match_status, None);
    assert_eq!(data[1].match_val, b);
    assert_eq!(
        data[1].target.first(),
        &Target::from_file(PathBuf::from(format!("/blobs/{}", blob(2).hex())))
    );
}

#[test]
fn finding_data_carries_the_rule_name_of_the_description() {
    let a = a_match("R1", &[b"g1"], 1, 0);
    let mut store = store_of(vec![a.clone()]);
    store.matches[0].blob_metadata.id = blob(9);
    store.analyze();
    let mut metadata = store.get_finding_metadata()[0].clone();
    metadata.rule_name = "Renamed".to_string();
    metadata.rule_text_id = "np.renamed".to_string();
    let data = store.get_finding_data(&metadata, None).expect("data");
    assert_eq!(data.len(), 1);
    assert_eq!(data[0].match_val.rule_name, "Renamed");
    assert_eq!(data[0].match_val.rule_text_id, "np.renamed");
    assert_eq!(data[0].match_val.rule_structural_id, "R1");
    assert_eq!(data[0].match_val.structural_id, a.structural_id);
    assert_eq!(data[0].match_val.groups, a.groups);
    assert_eq!(data[0].match_val.snippet, a.snippet);
    assert_eq!(data[0].match_val.location, a.location);
    assert_eq!(data[0].blob_metadata.id, blob(1));
    assert_eq!(data[0].blob_metadata.num_bytes, 100);
    assert_eq!(data[0].blob_metadata.mime_essence, Some("text/plain".to_string()));
    assert_eq!(
        data[0].target.first(),
        &Target::from_file(PathBuf::from(format!("/blobs/{}", blob(1).hex())))
    );
}

#[test]
fn finding_data_respects_the_limit() {
    let mut store = store_of(vec![
        a_match("R1", &[b"g1"], 1, 0),
        a_match("R1", &[b"g1"], 2, 5),
        a_match("R1", &[b"g1"], 3, 9),
    ]);
    store.analyze();
    let metadata = store.get_finding_metadata();
    assert_eq!(store.get_finding_data(&metadata[0], None).expect("data").len(), 3);
    assert_eq!(store.get_finding_data(&metadata[0], Some(5)).expect("data").len(), 3);
    assert_eq!(store.get_finding_data(&metadata[0], Some(3)).expect("data").len(), 3);
    let two = store.get_finding_data(&metadata[0], Some(2)).expect("data");
    assert_eq!(two.len(), 2);
    assert_eq!(two[0].match_val.blob_id, blob(1));
    assert_eq!(two[1].match_val.blob_id, blob(2));
    assert_eq!(store.get_finding_data(&metadata[0], Some(0)).expect("data").len(), 0);
}

#[test]
fn finding_data_selects_by_rule_alone_without_groups() {
    let mut store = store_of(vec![
        a_match("R1", &[b"g1"], 1, 0),
        a_match("R1", &[b"g2"], 2, 5),
        a_match("R2", &[b"g1"], 3, 9),
    ]);
    store.analyze();
    let mut metadata = store.get_finding_metadata()[0].clone();
    metadata.groups = Groups::new();
    let data = store.get_finding_data(&metadata, None).expect("data");
    assert_eq!(data.len(), 2);
    assert_eq!(data[0].match_val.blob_id, blob(1));
    assert_eq!(data[1].match_val.blob_id, blob(2));
}

#[test]
fn finding_data_selects_matches_that_share_a_group() {
    let mut store = store_of(vec![
        a_match("R1", &[b"g1", b"x"], 1, 0),
        a_match("R1", &[b"y", b"g2"], 2, 5),
        a_match("R1", &[b"z"], 3, 9),
    ]);
    store.analyze();
    let mut metadata = store.get_finding_metadata()[0].clone();
    metadata.groups = groups_of(&[b"g2", b"g1"]);
    let data = store.get_finding_data(&metadata, None).expect("data");
    assert_eq!(data.len(), 2);
    assert_eq!(data[0].match_val.blob_id, blob(1));
    assert_eq!(data[1].match_val.blob_id, blob(2));
}

#[test]
fn finding_data_fails_without_provenance() {
    let mut store = store_of(vec![a_match("R1", &[b"g1"], 1, 0), a_match("R1", &[b"g1"], 2, 5)]);
    store.blob_targets.pop();
    store.analyze();
    let metadata = store.get_finding_metadata();
    assert_eq!(
        store.get_finding_data(&metadata[0], None).err(),
        Some(DatastoreError::MissingProvenance { blob_id: blob(2) })
    );
    assert_eq!(
        store.get_finding_data(&metadata[0], Some(2)).err(),
        Some(DatastoreError::MissingProvenance { blob_id: blob(2) })
    );
    assert_eq!(store.get_finding_data(&metadata[0], Some(1)).expect("data").len(), 1);
}

#[test]
fn target_set_of_a_blob_collapses_redundant_entries() {
    let mut store = Datastore::new_in_memory();
    let commit = CommitMetadata {
        commit_id: "abc123".to_string(),
        committer_name: b"n".to_vec(),
        committer_email: b"e".to_vec(),
        committer_timestamp: 0,
    };
    let bare = Target::from_git_repo(PathBuf::from("/repo"));
    let full = Target::from_git_repo_with_first_commit(PathBuf::from("/repo"), commit, b"x".to_vec());
    let file = Target::from_file(PathBuf::from("/f"));
    store.blob_targets.push(BlobTarget { blob_id: blob(1), target: bare });
    store.blob_targets.push(BlobTarget { blob_id: blob(2), target: file.clone() });
    store.blob_targets.push(BlobTarget { blob_id: blob(1), target: full.clone() });
    let of = |n: u8| BlobMetadata { id: blob(n), num_bytes: 1, mime_essence: None, charset: None };
    assert_eq!(store.get_target_set(&of(1)).expect("targets").into_vec(), vec![full]);
    assert_eq!(store.get_target_set(&of(2)).expect("targets").into_vec(), vec![file]);
    assert_eq!(
        store.get_target_set(&of(3)).err(),
        Some(DatastoreError::MissingProvenance { blob_id: blob(3) })
    );
}

#[test]
fn statuses_are_joined_to_the_findings() {
    let a = a_match("R1", &[b"g1"], 1, 0);
    let b = a_match("R1", &[b"g1"], 2, 5);
    let c = a_match("R1", &[b"g1"], 3, 9);
    let d = a_match("R2", &[b"g1"], 4, 0);
    let e = a_match("R3", &[b"g1"], 5, 0);
    let mut store = store_of(vec![a.clone(), b.clone(), c, d.clone(), e]);
    store.analyze();
    store.import_annotations(&Annotations {
        match_annotations: vec![
            status_note(&a, Some(Status::Accept), None),
            status_note(&b, Some(Status::Reject), Some("no")),
            status_note(&d, Some(Status::Accept), None),
        ],
        finding_annotations: vec![],
    });
    store.aggregate_statuses();
    let f = &store.findings[0];
    assert_eq!(
        (f.count, f.accept_count, f.reject_count, f.mixed_count, f.unlabeled_count),
        (3, 1, 1, 1, 0)
    );
    assert_eq!(f.statuses, Some(Statuses::from_vec(vec![Status::Accept, Status::Reject])));
    let g = &store.findings[1];
    assert_eq!(
        (g.count, g.accept_count, g.reject_count, g.mixed_count, g.unlabeled_count),
        (1, 1, 0, 0, 0)
    );
    let h = &store.findings[2];
    assert_eq!(
        (h.count, h.accept_count, h.reject_count, h.mixed_count, h.unlabeled_count),
        (1, 0, 0, 0, 1)
    );
    assert_eq!(h.statuses, Some(Statuses::new()));
    for f in &store.findings {
        assert_eq!(f.count, f.accept_count + f.reject_count + f.mixed_count + f.unlabeled_count);
    }
    let data = store.get_finding_data(&store.get_finding_metadata()[0], None).expect("data");
    assert_eq!(data[0].match_status, Some(Status::Accept));
    assert_eq!(data[1].match_status, Some(Status::Reject));
    assert_eq!(data[1].match_comment, Some("no".to_string()));
    assert_eq!(data[2].match_status, None);
}

#[test]
fn two_blobs_one_accepted_end_to_end() {
    let first = a_match("r1", &[b"secret123"], 1, 0);
    let second = a_match("r1", &[b"secret123"], 2, 7);
    let mut store = store_of(vec![first.clone(), second]);
    store.analyze();
    let metadata = store.get_finding_metadata();
    assert_eq!(metadata.len(), 1);
    assert_eq!(metadata[0].num_matches, 2);
    assert_eq!(metadata[0].finding_id, "82eaef9280ed5409c723560c15dba0f6f3b53704");
    let before = store.get_summary().expect("summary");
    assert_eq!(before.0[0].unlabeled_count, 2);
    assert_eq!(before.0[0].mixed_count, 0);

    store.import_annotations(&Annotations {
        match_annotations: vec![status_note(&first, Some(Status::Accept), None)],
        finding_annotations: vec![],
    });
    store.aggregate_statuses();
    let summary = store.get_summary().expect("summary");
    assert_eq!(summary.0.len(), 1);
    assert_eq!(summary.0[0].rule_name, "Rule r1");
    assert_eq!(summary.0[0].distinct_count, 1);
    assert_eq!(summary.0[0].total_count, 2);
    assert_eq!(summary.0[0].mixed_count, 1);
    assert_eq!(summary.0[0].accept_count, 1);
    assert_eq!(summary.0[0].reject_count, 0);
    assert_eq!(summary.0[0].unlabeled_count, 0);
    let metadata = store.get_finding_metadata();
    assert_eq!(metadata[0].num_matches, 2);
    assert_eq!(metadata[0].statuses, Statuses::from_vec(vec![Status::Accept]));
}
