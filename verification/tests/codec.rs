use std::path::PathBuf;

use noseyparker::blob_id::{BlobId, BlobIdParseError};
use noseyparker::blob_metadata::BlobMetadata;
use noseyparker::datastore::codec::{
    count_value, read_blob_id, read_bytes, read_count, read_optional_text, read_text,
};
use noseyparker::datastore::{
    Annotations, BlobTarget, Datastore, DecodeError, Finding, FindingAnnotation, MatchAnnotation,
    MatchRecord, Status, Statuses,
};
use noseyparker::document::{AccessError, Document, Field, StoredValue};
use noseyparker::location::{Location, OffsetSpan, SourcePoint, SourceSpan};
use noseyparker::match_type::{Group, Groups, Match};
use noseyparker::snippet::Snippet;
use noseyparker::target::{CommitMetadata, CommitTarget, Target};

fn text(s: &str) -> StoredValue {
    StoredValue::Text(s.to_string())
}

fn doc_of(fields: Vec<(&str, StoredValue)>) -> Document {
    Document {
        fields: fields
            .into_iter()
            .map(|(key, value)| Field { key: key.to_string(), value })
            .collect(),
    }
}

fn without(mut document: Document, key: &str) -> Document {
    document.fields.retain(|f| f.key != key);
    document
}

fn with(mut document: Document, key: &str, value: StoredValue) -> Document {
    for f in document.fields.iter_mut() {
        if f.key == key {
            f.value = value;
            return document;
        }
    }
    document.fields.push(Field { key: key.to_string(), value });
    document
}

fn groups_of(items: &[&[u8]]) -> Groups {
    let mut groups = Groups::new();
    for item in items {
        groups.push(Group::new(item));
    }
    groups
}

fn a_match() -> Match {
    Match {
        blob_id: BlobId::from_bytes([3u8; 20]),
        location: Location {
            offset_span: OffsetSpan { start: 5, end: 9 },
            source_span: SourceSpan {
                start: SourcePoint { line: 1, column: 6 },
                end: SourcePoint { line: 2, column: 3 },
            },
        },
        groups: groups_of(&[b"secret", b"\xff\x00"]),
        snippet: Snippet { before: b"<".to_vec(), matching: b"abcd".to_vec(), after: vec![] },
        structural_id: "sid".to_string(),
        rule_structural_id: "r1".to_string(),
        rule_text_id: "np.r1".to_string(),
        rule_name: "Rule r1".to_string(),
    }
}

fn a_finding() -> Finding {
    Finding {
        rule_name: "Rule r1".to_string(),
        rule_structural_id: "r1".to_string(),
        finding_id: "f1".to_string(),
        count: 2,
        matches: vec![a_match(), a_match()],
        accept_count: 1,
        reject_count: 0,
        mixed_count: 1,
        unlabeled_count: 0,
        rule_text_id: Some("np.r1".to_string()),
        groups: Some(groups_of(&[b"secret"])),
        comment: Some("real".to_string()),
        statuses: Some(Statuses::from_vec(vec![Status::Accept])),
    }
}

fn a_match_annotation() -> MatchAnnotation {
    MatchAnnotation {
        finding_id: "f1".to_string(),
        rule_name: "Rule r1".to_string(),
        rule_text_id: "np.r1".to_string(),
        rule_structural_id: "r1".to_string(),
        match_id: "sid".to_string(),
        blob_id: BlobId::from_bytes([3u8; 20]),
        start_byte: 5,
        end_byte: 9,
        groups: groups_of(&[b"secret"]),
        status: Some(Status::Reject),
        comment: Some("no".to_string()),
    }
}

fn a_finding_annotation() -> FindingAnnotation {
    FindingAnnotation {
        finding_id: "f1".to_string(),
        rule_name: "Rule r1".to_string(),
        rule_text_id: "np.r1".to_string(),
        rule_structural_id: "r1".to_string(),
        groups: groups_of(&[b"secret"]),
        comment: "real".to_string(),
    }
}

fn a_commit() -> CommitMetadata {
    CommitMetadata {
        commit_id: "abc123".to_string(),
        committer_name: b"A Committer".to_vec(),
        committer_email: b"c@example.com".to_vec(),
        committer_timestamp: -5,
    }
}

fn missing(key: &'static str) -> DecodeError {
    DecodeError::Field { key, problem: AccessError::NotPresent }
}

fn wrong(key: &'static str) -> DecodeError {
    DecodeError::Field { key, problem: AccessError::UnexpectedType }
}

#[test]
fn document_fields_are_found_by_name() {
    let mut d = Document::new();
    assert_eq!(d.get("a"), None);
    d.insert("a", StoredValue::Int64(1));
    d.insert("b", text("x"));
    assert_eq!(d.get("a"), Some(&StoredValue::Int64(1)));
    assert_eq!(d.get("b"), Some(&text("x")));
    assert!(d.contains_key("b"));
    assert!(!d.contains_key("c"));
    assert_eq!(d.fields.len(), 2);
}

#[test]
fn document_insert_replaces_the_value_under_a_name() {
    let mut d = Document::new();
    d.insert("a", StoredValue::Int64(1));
    d.insert("b", text("x"));
    d.insert("c", StoredValue::Null);
    d.insert("b", StoredValue::Int64(2));
    assert_eq!(
        d,
        doc_of(vec![
            ("a", StoredValue::Int64(1)),
            ("b", StoredValue::Int64(2)),
            ("c", StoredValue::Null),
        ])
    );
    d.insert("a", text("y"));
    d.insert("d", StoredValue::Boolean(true));
    assert_eq!(
        d,
        doc_of(vec![
            ("a", text("y")),
            ("b", StoredValue::Int64(2)),
            ("c", StoredValue::Null),
            ("d", StoredValue::Boolean(true)),
        ])
    );
}

#[test]
fn document_insert_replaces_the_first_of_two_fields_of_one_name() {
    let mut d = doc_of(vec![("a", StoredValue::Int64(1)), ("a", StoredValue::Int64(2))]);
    d.insert("a", StoredValue::Int64(3));
    assert_eq!(d, doc_of(vec![("a", StoredValue::Int64(3)), ("a", StoredValue::Int64(2))]));
    assert_eq!(d.get("a"), Some(&StoredValue::Int64(3)));
}

#[test]
fn document_fields_are_read_by_kind() {
    let inner = doc_of(vec![("x", StoredValue::Null)]);
    let d = doc_of(vec![
        ("t", text("x")),
        ("i", StoredValue::Int64(-3)),
        ("b", StoredValue::Binary(vec![1, 2])),
        ("a", StoredValue::Array(vec![StoredValue::Boolean(true)])),
        ("d", StoredValue::Document(doc_of(vec![("x", StoredValue::Null)]))),
    ]);
    assert_eq!(d.get_str("t"), Ok("x"));
    assert_eq!(d.get_str("i"), Err(AccessError::UnexpectedType));
    assert_eq!(d.get_str("z"), Err(AccessError::NotPresent));
    assert_eq!(d.get_i64("i"), Ok(-3));
    assert_eq!(d.get_i64("t"), Err(AccessError::UnexpectedType));
    assert_eq!(d.get_i64("z"), Err(AccessError::NotPresent));
    assert_eq!(d.get_binary("b"), Ok(&vec![1u8, 2]));
    assert_eq!(d.get_binary("t"), Err(AccessError::UnexpectedType));
    assert_eq!(d.get_array("a"), Ok(&vec![StoredValue::Boolean(true)]));
    assert_eq!(d.get_array("d"), Err(AccessError::UnexpectedType));
    assert_eq!(d.get_document("d"), Ok(&inner));
    assert_eq!(d.get_document("a"), Err(AccessError::UnexpectedType));
    assert_eq!(d.get_document("z"), Err(AccessError::NotPresent));
}

#[test]
fn field_readers_report_the_field() {
    let d = doc_of(vec![
        ("t", text("x")),
        ("n", StoredValue::Int64(7)),
        ("neg", StoredValue::Int64(-1)),
        ("b", StoredValue::Binary(vec![9])),
        ("id", text("0303030303030303030303030303030303030303")),
        ("short", text("03")),
        ("bad", text("zz03030303030303030303030303030303030303")),
    ]);
    assert_eq!(read_text(&d, "t"), Ok("x".to_string()));
    assert_eq!(read_text(&d, "n"), Err(wrong("n")));
    assert_eq!(read_text(&d, "zz"), Err(missing("zz")));
    assert_eq!(read_optional_text(&d, "t"), Some("x".to_string()));
    assert_eq!(read_optional_text(&d, "n"), None);
    assert_eq!(read_optional_text(&d, "zz"), None);
    assert_eq!(read_count(&d, "n"), Ok(7));
    assert_eq!(read_count(&d, "neg"), Err(DecodeError::BadCount { key: "neg" }));
    assert_eq!(read_count(&d, "t"), Err(wrong("t")));
    assert_eq!(read_bytes(&d, "b"), Ok(vec![9]));
    assert_eq!(read_bytes(&d, "t"), Err(wrong("t")));
    assert_eq!(read_blob_id(&d, "id"), Ok(BlobId::from_bytes([3u8; 20])));
    assert_eq!(
        read_blob_id(&d, "short"),
        Err(DecodeError::BadBlobId { reason: BlobIdParseError::BadLength })
    );
    assert_eq!(
        read_blob_id(&d, "bad"),
        Err(DecodeError::BadBlobId { reason: BlobIdParseError::BadDigit })
    );
    assert_eq!(read_blob_id(&d, "n"), Err(wrong("n")));
}

#[test]
fn counts_are_stored_as_integers() {
    assert_eq!(count_value(0), StoredValue::Int64(0));
    assert_eq!(count_value(12345), StoredValue::Int64(12345));
    assert_eq!(count_value(usize::MAX), StoredValue::Int64(i64::MAX));
}

#[test]
fn status_is_stored_as_its_spelling() {
    assert_eq!(Status::Accept.to_value(), text("accept"));
    assert_eq!(Status::Reject.to_value(), text("reject"));
    assert_eq!(Status::from_value(&text("accept")), Ok(Status::Accept));
    assert_eq!(Status::from_value(&text("reject")), Ok(Status::Reject));
    assert_eq!(Status::from_value(&text("maybe")), Err(DecodeError::BadStatus));
    assert_eq!(Status::from_value(&StoredValue::Null), Err(DecodeError::BadStatus));
}

#[test]
fn statuses_are_stored_as_a_list() {
    let statuses = Statuses::from_vec(vec![Status::Reject, Status::Accept]);
    let value = statuses.to_value();
    assert_eq!(value, StoredValue::Array(vec![text("reject"), text("accept")]));
    assert_eq!(Statuses::from_values(&vec![text("reject"), text("accept")]), Ok(statuses));
    assert_eq!(Statuses::from_values(&vec![]), Ok(Statuses::new()));
    assert_eq!(
        Statuses::from_values(&vec![text("accept"), StoredValue::Int64(1)]),
        Err(DecodeError::BadStatus)
    );
}

#[test]
fn groups_are_stored_as_bytes() {
    let groups = groups_of(&[b"a", b"\xff"]);
    assert_eq!(
        groups.to_value(),
        StoredValue::Array(vec![StoredValue::Binary(b"a".to_vec()), StoredValue::Binary(vec![0xff])])
    );
    assert_eq!(
        Groups::from_values(&vec![StoredValue::Binary(b"a".to_vec()), StoredValue::Binary(vec![0xff])]),
        Ok(groups)
    );
    assert_eq!(
        Groups::from_values(&vec![text("caf\u{e9}")]),
        Ok(groups_of(&["caf\u{e9}".as_bytes()]))
    );
    assert_eq!(Groups::from_values(&vec![StoredValue::Int64(1)]), Err(DecodeError::BadGroup));
}

#[test]
fn targets_are_stored_by_kind() {
    let file = Target::from_file(PathBuf::from("/tmp/a"));
    assert_eq!(file.to_document(), doc_of(vec![("kind", text("file")), ("path", text("/tmp/a"))]));
    let bare = Target::from_git_repo(PathBuf::from("/repo"));
    assert_eq!(
        bare.to_document(),
        doc_of(vec![("kind", text("git_repo")), ("repo_path", text("/repo"))])
    );
    let full = Target::from_git_repo_with_first_commit(PathBuf::from("/repo"), a_commit(), b"x/y".to_vec());
    assert_eq!(
        full.to_document(),
        doc_of(vec![
            ("kind", text("git_repo")),
            ("repo_path", text("/repo")),
            (
                "first_commit",
                StoredValue::Document(doc_of(vec![
                    (
                        "commit_metadata",
                        StoredValue::Document(doc_of(vec![
                            ("commit_id", text("abc123")),
                            ("committer_name", StoredValue::Binary(b"A Committer".to_vec())),
                            ("committer_email", StoredValue::Binary(b"c@example.com".to_vec())),
                            ("committer_timestamp", StoredValue::Int64(-5)),
                        ]))
                    ),
                    ("blob_path", StoredValue::Binary(b"x/y".to_vec())),
                ]))
            ),
        ])
    );
    let mut map = serde_json::Map::new();
    map.insert("path".to_string(), serde_json::Value::String("p".to_string()));
    let extended = Target::from_extended(serde_json::Value::Object(map));
    assert_eq!(
        extended.to_document(),
        doc_of(vec![("kind", text("extended")), ("value", text("{\"path\":\"p\"}"))])
    );
    for t in [file, bare, full, extended] {
        assert_eq!(Target::from_document(&t.to_document()), Ok(t));
    }
}

#[test]
fn targets_that_cannot_be_read() {
    assert_eq!(Target::from_document(&Document::new()), Err(missing("kind")));
    assert_eq!(
        Target::from_document(&doc_of(vec![("kind", StoredValue::Int64(1))])),
        Err(wrong("kind"))
    );
    assert_eq!(
        Target::from_document(&doc_of(vec![("kind", text("tape"))])),
        Err(DecodeError::BadKind)
    );
    assert_eq!(Target::from_document(&doc_of(vec![("kind", text("file"))])), Err(missing("path")));
    assert_eq!(
        Target::from_document(&doc_of(vec![("kind", text("git_repo"))])),
        Err(missing("repo_path"))
    );
    assert_eq!(
        Target::from_document(&doc_of(vec![("kind", text("extended"))])),
        Err(missing("value"))
    );
    assert_eq!(
        Target::from_document(&doc_of(vec![("kind", text("extended")), ("value", text("{"))])),
        Err(DecodeError::BadJson)
    );
    assert_eq!(
        Target::from_document(&doc_of(vec![
            ("kind", text("git_repo")),
            ("repo_path", text("/repo")),
            ("first_commit", text("soon")),
        ])),
        Ok(Target::from_git_repo(PathBuf::from("/repo")))
    );
    assert_eq!(
        Target::from_document(&doc_of(vec![
            ("kind", text("git_repo")),
            ("repo_path", text("/repo")),
            ("first_commit", StoredValue::Document(Document::new())),
        ])),
        Err(missing("commit_metadata"))
    );
}

#[test]
fn commits_round_trip() {
    let commit = a_commit();
    assert_eq!(CommitMetadata::from_document(&commit.to_document()), Ok(commit.clone()));
    assert_eq!(
        CommitMetadata::from_document(&without(commit.to_document(), "committer_email")),
        Err(missing("committer_email"))
    );
    let target = CommitTarget { commit_metadata: commit, blob_path: b"\xffx".to_vec() };
    assert_eq!(CommitTarget::from_document(&target.to_document()), Ok(target.clone()));
    assert_eq!(
        CommitTarget::from_document(&without(target.to_document(), "blob_path")),
        Err(missing("blob_path"))
    );
}

#[test]
fn matches_round_trip() {
    let m = a_match();
    let d = m.to_document();
    assert_eq!(d.fields.len(), 15);
    assert_eq!(d.get_str("blob_id"), Ok("0303030303030303030303030303030303030303"));
    assert_eq!(d.get_i64("end_line"), Ok(2));
    assert_eq!(Match::from_document(&d), Ok(m));
}

#[test]
fn matches_report_the_first_field_that_cannot_be_read() {
    let d = a_match().to_document();
    for key in [
        "blob_id",
        "start_byte",
        "end_byte",
        "start_line",
        "start_column",
        "end_line",
        "end_column",
        "snippet_before",
        "snippet_matching",
        "snippet_after",
        "groups",
        "structural_id",
        "rule_structural_id",
        "rule_text_id",
        "rule_name",
    ] {
        let broken = without(a_match().to_document(), key);
        assert_eq!(Match::from_document(&broken), Err(missing(key)));
    }
    let two = without(without(d, "rule_name"), "end_byte");
    assert_eq!(Match::from_document(&two), Err(missing("end_byte")));
    assert_eq!(
        Match::from_document(&with(a_match().to_document(), "start_byte", StoredValue::Int64(-1))),
        Err(DecodeError::BadCount { key: "start_byte" })
    );
    assert_eq!(
        Match::from_document(&with(
            a_match().to_document(),
            "groups",
            StoredValue::Array(vec![StoredValue::Null])
        )),
        Err(DecodeError::BadGroup)
    );
}

#[test]
fn match_records_round_trip() {
    let full = MatchRecord {
        match_val: a_match(),
        blob_metadata: BlobMetadata {
            id: a_match().blob_id,
            num_bytes: 77,
            mime_essence: Some("text/plain".to_string()),
            charset: Some("utf-8".to_string()),
        },
    };
    assert_eq!(MatchRecord::from_document(&full.to_document()), Ok(full.clone()));
    let bare = MatchRecord {
        match_val: a_match(),
        blob_metadata: BlobMetadata {
            id: a_match().blob_id,
            num_bytes: 0,
            mime_essence: None,
            charset: None,
        },
    };
    assert_eq!(bare.to_document().fields.len(), 2);
    assert_eq!(MatchRecord::from_document(&bare.to_document()), Ok(bare));
    assert_eq!(
        MatchRecord::from_document(&without(full.to_document(), "match")),
        Err(missing("match"))
    );
    assert_eq!(
        MatchRecord::from_document(&without(full.to_document(), "num_bytes")),
        Err(missing("num_bytes"))
    );
}

#[test]
fn findings_round_trip() {
    let f = a_finding();
    let d = f.to_document();
    assert_eq!(d.fields.len(), 13);
    assert_eq!(Finding::from_document(&d), Ok(f));
    let mut bare = a_finding();
    bare.rule_text_id = None;
    bare.groups = None;
    bare.comment = None;
    bare.statuses = None;
    bare.matches = vec![];
    assert_eq!(bare.to_document().fields.len(), 9);
    assert_eq!(Finding::from_document(&bare.to_document()), Ok(bare));
}

#[test]
fn findings_read_without_what_may_be_missing() {
    let mut expected = a_finding();
    expected.matches = vec![];
    expected.groups = None;
    expected.statuses = None;
    expected.comment = None;
    expected.rule_text_id = None;
    let mut d = a_finding().to_document();
    for key in ["matches", "groups", "statuses", "comment", "rule_text_id"] {
        d = without(d, key);
    }
    assert_eq!(Finding::from_document(&d), Ok(expected));
    for key in ["rule_name", "rule_structural_id", "finding_id", "count", "unlabeled_count"] {
        assert_eq!(
            Finding::from_document(&without(a_finding().to_document(), key)),
            Err(missing(key))
        );
    }
    assert_eq!(
        Finding::from_document(&with(
            a_finding().to_document(),
            "matches",
            StoredValue::Array(vec![StoredValue::Null])
        )),
        Err(DecodeError::BadMatch)
    );
    assert_eq!(
        Finding::from_document(&with(
            a_finding().to_document(),
            "statuses",
            StoredValue::Array(vec![text("perhaps")])
        )),
        Err(DecodeError::BadStatus)
    );
}

#[test]
fn annotations_round_trip() {
    let fa = a_finding_annotation();
    assert_eq!(FindingAnnotation::from_document(&fa.to_document()), Ok(fa.clone()));
    assert_eq!(
        FindingAnnotation::from_document(&without(fa.to_document(), "comment")),
        Err(missing("comment"))
    );
    let ma = a_match_annotation();
    assert_eq!(ma.to_document().fields.len(), 11);
    assert_eq!(MatchAnnotation::from_document(&ma.to_document()), Ok(ma.clone()));
    let mut bare = a_match_annotation();
    bare.status = None;
    bare.comment = None;
    assert_eq!(bare.to_document().fields.len(), 9);
    assert_eq!(MatchAnnotation::from_document(&bare.to_document()), Ok(bare));
    assert_eq!(
        MatchAnnotation::from_document(&with(ma.to_document(), "status", text("perhaps"))),
        Err(DecodeError::BadStatus)
    );
    assert_eq!(
        MatchAnnotation::from_document(&without(ma.to_document(), "match_id")),
        Err(missing("match_id"))
    );
}

#[test]
fn blob_targets_round_trip() {
    let entry = BlobTarget {
        blob_id: BlobId::from_bytes([3u8; 20]),
        target: Target::from_file(PathBuf::from("/tmp/a")),
    };
    assert_eq!(BlobTarget::from_document(&entry.to_document()), Ok(entry));
    assert_eq!(BlobTarget::from_document(&Document::new()), Err(missing("blob_id")));
    assert_eq!(
        BlobTarget::from_document(&doc_of(vec![(
            "blob_id",
            text("0303030303030303030303030303030303030303")
        )])),
        Err(missing("target"))
    );
}

#[test]
fn a_store_round_trips_through_its_documents() {
    let mut store = Datastore::new_in_memory();
    store.matches.push(MatchRecord {
        match_val: a_match(),
        blob_metadata: BlobMetadata {
            id: a_match().blob_id,
            num_bytes: 77,
            mime_essence: None,
            charset: None,
        },
    });
    store.blob_targets.push(BlobTarget {
        blob_id: a_match().blob_id,
        target: Target::from_git_repo(PathBuf::from("/repo")),
    });
    store.analyze();
    store.import_annotations(&Annotations {
        match_annotations: vec![a_match_annotation()],
        finding_annotations: vec![a_finding_annotation()],
    });
    store.aggregate_statuses();
    let annotations = store.annotation_documents();
    assert_eq!(annotations.len(), 2);
    assert!(!annotations[0].contains_key("match_id"));
    assert!(annotations[1].contains_key("match_id"));
    let read = Datastore::from_documents(
        &store.match_documents(),
        &store.finding_documents(),
        &annotations,
        &store.blob_target_documents(),
    )
    .expect("store");
    assert_eq!(read.matches, store.matches);
    assert_eq!(read.findings, store.findings);
    assert_eq!(read.annotations, store.annotations);
    assert_eq!(read.blob_targets, store.blob_targets);
}

#[test]
fn a_store_with_a_malformed_record_is_not_read() {
    let good = a_finding().to_document();
    let bad = without(a_finding().to_document(), "count");
    assert_eq!(
        Datastore::from_documents(&vec![], &vec![good, bad], &vec![], &vec![]).err(),
        Some(missing("count"))
    );
    let first = without(a_match_annotation().to_document(), "blob_id");
    let second = without(a_finding_annotation().to_document(), "finding_id");
    assert_eq!(
        Datastore::from_documents(&vec![], &vec![], &vec![first, second], &vec![]).err(),
        Some(missing("blob_id"))
    );
    assert_eq!(
        Datastore::from_documents(&vec![Document::new()], &vec![Document::new()], &vec![], &vec![])
            .err(),
        Some(missing("match"))
    );
}
