use noseyparker::blob_id::BlobId;
use noseyparker::datastore::merge::{
    find_finding_annotation, find_match_annotation, import_finding_annotation,
    import_match_annotation,
};
use noseyparker::datastore::{
    Annotations, Datastore, Finding, FindingAnnotation, MatchAnnotation, MergeOutcome, MergeStats,
    Status,
};
use noseyparker::match_type::Groups;

fn finding_note(finding_id: &str, comment: &str) -> FindingAnnotation {
    FindingAnnotation {
        finding_id: finding_id.to_string(),
        rule_name: "Rule".to_string(),
        rule_text_id: "np.rule".to_string(),
        rule_structural_id: "sid".to_string(),
        groups: Groups::new(),
        comment: comment.to_string(),
    }
}

fn match_note(match_id: &str, comment: Option<&str>, status: Option<Status>) -> MatchAnnotation {
    MatchAnnotation {
        finding_id: "f".to_string(),
        rule_name: "Rule".to_string(),
        rule_text_id: "np.rule".to_string(),
        rule_structural_id: "sid".to_string(),
        match_id: match_id.to_string(),
        blob_id: BlobId::from_bytes([9u8; 20]),
        start_byte: 1,
        end_byte: 2,
        groups: Groups::new(),
        status,
        comment: comment.map(|c| c.to_string()),
    }
}

fn findings_only(notes: Vec<FindingAnnotation>) -> Annotations {
    Annotations { match_annotations: vec![], finding_annotations: notes }
}

fn matches_only(notes: Vec<MatchAnnotation>) -> Annotations {
    Annotations { match_annotations: notes, finding_annotations: vec![] }
}

fn stats(imported: usize, conflicting: usize, existing: usize) -> MergeStats {
    MergeStats { n_imported: imported, n_conflicting: conflicting, n_existing: existing, n_missing: 0 }
}

#[test]
fn import_stores_what_is_new() {
    let mut store = Datastore::new_in_memory();
    let report = store.import_annotations(&findings_only(vec![finding_note("X", "a")]));
    assert_eq!(report.finding_comments, stats(1, 0, 0));
    assert_eq!(report.match_comments, stats(0, 0, 0));
    assert_eq!(store.get_annotations(), findings_only(vec![finding_note("X", "a")]));
}

#[test]
fn import_keeps_the_stored_comment_on_a_conflict() {
    let mut store = Datastore::new_in_memory();
    store.import_annotations(&findings_only(vec![finding_note("X", "b")]));
    let report = store.import_annotations(&findings_only(vec![finding_note("X", "a")]));
    assert_eq!(report.finding_comments, stats(0, 1, 0));
    assert_eq!(store.get_annotations(), findings_only(vec![finding_note("X", "b")]));
}

#[test]
fn import_of_an_exact_duplicate_changes_nothing() {
    let mut store = Datastore::new_in_memory();
    store.import_annotations(&findings_only(vec![finding_note("X", "a")]));
    let before = store.get_annotations();
    let report = store.import_annotations(&findings_only(vec![finding_note("X", "a")]));
    assert_eq!(report.finding_comments, stats(0, 0, 1));
    assert_eq!(store.get_annotations(), before);
}

#[test]
fn import_counts_even_when_nothing_is_given() {
    let mut store = Datastore::new_in_memory();
    store.findings.push(Finding {
        rule_name: "r".to_string(),
        rule_structural_id: "s".to_string(),
        finding_id: "f".to_string(),
        count: 0,
        matches: vec![],
        accept_count: 0,
        reject_count: 0,
        mixed_count: 0,
        unlabeled_count: 0,
        rule_text_id: None,
        groups: None,
        comment: None,
        statuses: None,
    });
    let report = store.import_annotations(&Annotations::new());
    assert_eq!(report.finding_comments, stats(0, 0, 0));
    assert_eq!(report.match_comments, stats(0, 0, 0));
    assert_eq!(report.num_findings, 1);
    assert_eq!(report.num_matches, 0);
    assert_eq!(report.finding_comments.to_string(), "0 existing; 0 missing; 0 conflicting; 0 imported");
}

#[test]
fn import_sees_what_the_same_batch_stored() {
    let mut store = Datastore::new_in_memory();
    let report = store.import_annotations(&findings_only(vec![
        finding_note("X", "a"),
        finding_note("Y", "b"),
        finding_note("X", "a"),
        finding_note("X", "c"),
        finding_note("Z", "d"),
    ]));
    assert_eq!(report.finding_comments, stats(3, 1, 1));
    assert_eq!(
        store.get_annotations(),
        findings_only(vec![finding_note("X", "a"), finding_note("Y", "b"), finding_note("Z", "d")])
    );
}

#[test]
fn import_treats_the_two_kinds_apart() {
    let mut store = Datastore::new_in_memory();
    let report = store.import_annotations(&Annotations {
        match_annotations: vec![match_note("f", Some("m"), Some(Status::Reject))],
        finding_annotations: vec![finding_note("f", "x")],
    });
    assert_eq!(report.finding_comments, stats(1, 0, 0));
    assert_eq!(report.match_comments, stats(1, 0, 0));
    let stored = store.get_annotations();
    assert_eq!(stored.finding_annotations, vec![finding_note("f", "x")]);
    assert_eq!(stored.match_annotations, vec![match_note("f", Some("m"), Some(Status::Reject))]);
}

#[test]
fn match_annotations_merge_by_match() {
    let mut store = Datastore::new_in_memory();
    store.import_annotations(&matches_only(vec![
        match_note("m1", Some("first"), Some(Status::Accept)),
        match_note("m2", None, Some(Status::Reject)),
    ]));
    let report = store.import_annotations(&matches_only(vec![
        match_note("m1", Some("first"), Some(Status::Reject)),
        match_note("m1", Some("other"), None),
        match_note("m2", Some(""), None),
        match_note("m2", Some("x"), None),
        match_note("m3", None, None),
    ]));
    assert_eq!(report.match_comments, stats(1, 2, 2));
    assert_eq!(
        store.get_annotations(),
        matches_only(vec![
            match_note("m1", Some("first"), Some(Status::Accept)),
            match_note("m2", None, Some(Status::Reject)),
            match_note("m3", None, None),
        ])
    );
}

#[test]
fn import_leaves_matches_and_findings_alone() {
    let mut store = Datastore::new_in_memory();
    let report = store.import_annotations(&findings_only(vec![finding_note("X", "a")]));
    assert_eq!(report.num_findings, 0);
    assert_eq!(report.num_matches, 0);
    assert_eq!(store.get_num_findings(), 0);
    assert_eq!(store.get_num_matches(), 0);
    assert!(store.blob_targets.is_empty());
}

#[test]
fn single_annotations_report_their_outcome() {
    let mut stored = vec![finding_note("X", "b")];
    assert_eq!(
        import_finding_annotation(&mut stored, &finding_note("X", "a")),
        MergeOutcome::Conflicting
    );
    assert_eq!(
        import_finding_annotation(&mut stored, &finding_note("X", "b")),
        MergeOutcome::Existing
    );
    assert_eq!(
        import_finding_annotation(&mut stored, &finding_note("Y", "b")),
        MergeOutcome::Imported
    );
    assert_eq!(stored, vec![finding_note("X", "b"), finding_note("Y", "b")]);
    let mut notes = vec![];
    assert_eq!(
        import_match_annotation(&mut notes, &match_note("m", None, None)),
        MergeOutcome::Imported
    );
    assert_eq!(
        import_match_annotation(&mut notes, &match_note("m", Some(""), Some(Status::Accept))),
        MergeOutcome::Existing
    );
    assert_eq!(
        import_match_annotation(&mut notes, &match_note("m", Some("c"), None)),
        MergeOutcome::Conflicting
    );
    assert_eq!(notes, vec![match_note("m", None, None)]);
}

#[test]
fn lookups_find_the_first_annotation_under_a_key() {
    let stored = vec![finding_note("X", "a"), finding_note("Y", "b"), finding_note("X", "c")];
    assert_eq!(find_finding_annotation(&stored, &"X".to_string()), Some(0));
    assert_eq!(find_finding_annotation(&stored, &"Y".to_string()), Some(1));
    assert_eq!(find_finding_annotation(&stored, &"Z".to_string()), None);
    let notes = vec![match_note("m1", None, None), match_note("m2", None, None)];
    assert_eq!(find_match_annotation(&notes, &"m2".to_string()), Some(1));
    assert_eq!(find_match_annotation(&notes, &"m3".to_string()), None);
}

#[test]
fn merge_stats_count_and_print() {
    let mut s = MergeStats::new();
    assert_eq!(s, stats(0, 0, 0));
    s.record(MergeOutcome::Imported);
    s.record(MergeOutcome::Imported);
    s.record(MergeOutcome::Existing);
    s.record(MergeOutcome::Conflicting);
    s.record(MergeOutcome::Imported);
    assert_eq!(s, stats(3, 1, 1));
    assert_eq!(s.to_string(), "1 existing; 0 missing; 1 conflicting; 3 imported");
}

#[test]
fn finding_comment_reaches_the_metadata() {
    let mut store = Datastore::new_in_memory();
    store.findings.push(Finding {
        rule_name: "r".to_string(),
        rule_structural_id: "s".to_string(),
        finding_id: "X".to_string(),
        count: 0,
        matches: vec![],
        accept_count: 0,
        reject_count: 0,
        mixed_count: 0,
        unlabeled_count: 0,
        rule_text_id: None,
        groups: None,
        comment: None,
        statuses: None,
    });
    store.import_annotations(&findings_only(vec![finding_note("X", "looks real")]));
    assert_eq!(store.get_finding_metadata()[0].comment, None);
    store.aggregate_statuses();
    assert_eq!(store.get_finding_metadata()[0].comment, Some("looks real".to_string()));
}
