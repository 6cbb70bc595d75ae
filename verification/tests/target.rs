use std::path::PathBuf;

use noseyparker::target::{CommitMetadata, ExtendedTarget, Target, TargetParseError};
use noseyparker::target_set::TargetSet;

fn commit(id: &str) -> CommitMetadata {
    CommitMetadata {
        commit_id: id.to_string(),
        committer_name: b"A Committer".to_vec(),
        committer_email: b"committer@example.com".to_vec(),
        committer_timestamp: 1_700_000_000,
    }
}

fn detailed(repo: &str, commit_id: &str, blob_path: &[u8]) -> Target {
    Target::from_git_repo_with_first_commit(PathBuf::from(repo), commit(commit_id), blob_path.to_vec())
}

fn object_with(key: &str, value: serde_json::Value) -> serde_json::Value {
    let mut map = serde_json::Map::new();
    map.insert(key.to_string(), value);
    serde_json::Value::Object(map)
}

#[test]
fn target_constructors_build_the_variants() {
    match Target::from_file(PathBuf::from("/tmp/a")) {
        Target::File(e) => assert_eq!(e.path, PathBuf::from("/tmp/a")),
        other => panic!("unexpected target {:?}", other),
    }
    match Target::from_git_repo(PathBuf::from("/repo")) {
        Target::GitRepo(e) => {
            assert_eq!(e.repo_path, PathBuf::from("/repo"));
            assert_eq!(e.first_commit, None);
        }
        other => panic!("unexpected target {:?}", other),
    }
    match detailed("/repo", "abc123", b"src/main.rs") {
        Target::GitRepo(e) => {
            assert_eq!(e.repo_path, PathBuf::from("/repo"));
            let c = e.first_commit.expect("first commit");
            assert_eq!(c.commit_metadata, commit("abc123"));
            assert_eq!(c.blob_path, b"src/main.rs".to_vec());
        }
        other => panic!("unexpected target {:?}", other),
    }
    match Target::from_extended(serde_json::Value::Bool(true)) {
        Target::Extended(e) => assert_eq!(e.0, serde_json::Value::Bool(true)),
        other => panic!("unexpected target {:?}", other),
    }
}

#[test]
fn target_clone_is_equal() {
    let targets = vec![
        Target::from_file(PathBuf::from("/tmp/a")),
        Target::from_git_repo(PathBuf::from("/repo")),
        detailed("/repo", "abc123", b"src/main.rs"),
        Target::from_extended(object_with("path", serde_json::Value::String("x/y".to_string()))),
    ];
    for t in &targets {
        assert_eq!(&t.clone(), t);
    }
}

#[test]
fn blob_path_of_each_variant() {
    assert_eq!(
        Target::from_file(PathBuf::from("/tmp/a")).blob_path(),
        Some(PathBuf::from("/tmp/a"))
    );
    assert_eq!(Target::from_git_repo(PathBuf::from("/repo")).blob_path(), None);
    assert_eq!(
        detailed("/repo", "abc123", b"src/main.rs").blob_path(),
        Some(PathBuf::from("src/main.rs"))
    );
    assert_eq!(
        Target::from_extended(object_with("path", serde_json::Value::String("x/y".to_string())))
            .blob_path(),
        Some(PathBuf::from("x/y"))
    );
}

#[test]
fn extended_path_needs_an_object_with_a_string_member() {
    let with_path = ExtendedTarget(object_with("path", serde_json::Value::String("x/y".to_string())));
    assert_eq!(with_path.path(), Some(PathBuf::from("x/y")));
    let other_key = ExtendedTarget(object_with("url", serde_json::Value::String("x/y".to_string())));
    assert_eq!(other_key.path(), None);
    let not_a_string = ExtendedTarget(object_with("path", serde_json::Value::Bool(false)));
    assert_eq!(not_a_string.path(), None);
    let not_an_object = ExtendedTarget(serde_json::Value::String("path".to_string()));
    assert_eq!(not_an_object.path(), None);
    assert_eq!(ExtendedTarget(serde_json::Value::Null).path(), None);
}

#[test]
fn target_descriptions() {
    assert_eq!(Target::from_file(PathBuf::from("/tmp/a")).to_string(), "file /tmp/a");
    assert_eq!(Target::from_git_repo(PathBuf::from("/repo")).to_string(), "git repo /repo");
    assert_eq!(
        detailed("/repo", "abc123", b"src/main.rs").to_string(),
        "git repo /repo: first seen in commit abc123 as src/main.rs"
    );
    assert_eq!(
        Target::from_extended(object_with("path", serde_json::Value::String("x/y".to_string())))
            .to_string(),
        "extended {\"path\":\"x/y\"}"
    );
    assert_eq!(
        ExtendedTarget(serde_json::Value::Array(vec![
            serde_json::Value::Null,
            serde_json::Value::Bool(true)
        ]))
        .to_string(),
        "[null,true]"
    );
}

#[test]
fn target_description_of_bytes_that_are_not_text() {
    assert_eq!(
        detailed("/repo", "abc123", b"a\xffb").to_string(),
        "git repo /repo: first seen in commit abc123 as a\u{fffd}b"
    );
}

#[test]
fn target_from_str_reads_files_and_repos() {
    assert_eq!(Target::from_str("file:/tmp/a"), Ok(Target::from_file(PathBuf::from("/tmp/a"))));
    assert_eq!(
        Target::from_str("git_repo:/repo"),
        Ok(Target::from_git_repo(PathBuf::from("/repo")))
    );
    assert_eq!(Target::from_str("file:"), Ok(Target::from_file(PathBuf::from(""))));
}

#[test]
fn target_from_str_stops_at_a_second_colon() {
    assert_eq!(Target::from_str("file:a:b"), Ok(Target::from_file(PathBuf::from("a"))));
    assert_eq!(
        Target::from_str("git_repo:/r:x:y"),
        Ok(Target::from_git_repo(PathBuf::from("/r")))
    );
}

#[test]
fn target_from_str_reports_what_is_missing() {
    assert_eq!(Target::from_str("file"), Err(TargetParseError::MissingPath));
    assert_eq!(Target::from_str("git_repo"), Err(TargetParseError::MissingRepoPath));
    assert_eq!(
        Target::from_str("extended:{}"),
        Err(TargetParseError::InvalidTarget("extended:{}".to_string()))
    );
    assert_eq!(Target::from_str(""), Err(TargetParseError::InvalidTarget(String::new())));
    assert_eq!(
        Target::from_str("File:/tmp/a"),
        Err(TargetParseError::InvalidTarget("File:/tmp/a".to_string()))
    );
}

#[test]
fn target_parse_error_texts() {
    assert_eq!(TargetParseError::MissingPath.to_string(), "Missing path");
    assert_eq!(TargetParseError::MissingRepoPath.to_string(), "Missing repo path");
    assert_eq!(
        TargetParseError::InvalidTarget("nope".to_string()).to_string(),
        "Invalid target: nope"
    );
}

#[test]
fn target_set_from_nothing_fails() {
    assert!(TargetSet::try_from_iter(vec![]).is_none());
}

#[test]
fn target_set_of_one_entry() {
    for t in [
        Target::from_file(PathBuf::from("/tmp/a")),
        Target::from_git_repo(PathBuf::from("/repo")),
        detailed("/repo", "abc123", b"src/main.rs"),
        Target::from_extended(serde_json::Value::Null),
    ] {
        let set = TargetSet::try_from_iter(vec![t.clone()]).expect("one entry");
        assert_eq!(set.len(), 1);
        assert_eq!(set.first(), &t);
        assert_eq!(set.iter(), vec![&t]);
        let again = TargetSet::new(t.clone(), vec![]);
        assert_eq!(again.len(), 1);
        assert_eq!(again.into_vec(), vec![t]);
    }
}

#[test]
fn target_set_drops_the_bare_entry_beside_a_detailed_one() {
    let bare = Target::from_git_repo(PathBuf::from("/repo"));
    let full = detailed("/repo", "abc123", b"src/main.rs");
    let set = TargetSet::try_from_iter(vec![bare.clone(), full.clone()]).expect("entries");
    assert_eq!(set.len(), 1);
    assert_eq!(set.first(), &full);
    let set = TargetSet::new(full.clone(), vec![bare.clone()]);
    assert_eq!(set.len(), 1);
    assert_eq!(set.first(), &full);
    let set = TargetSet::new(bare.clone(), vec![bare, full.clone()]);
    assert_eq!(set.into_vec(), vec![full]);
}

#[test]
fn target_set_keeps_bare_entries_of_other_repos() {
    let bare_a = Target::from_git_repo(PathBuf::from("/a"));
    let bare_b = Target::from_git_repo(PathBuf::from("/b"));
    let full_a = detailed("/a", "abc123", b"x");
    let set = TargetSet::new(bare_a, vec![bare_b.clone(), full_a.clone()]);
    assert_eq!(set.len(), 2);
    assert_eq!(set.first(), &bare_b);
    assert_eq!(set.into_vec(), vec![bare_b, full_a]);
}

#[test]
fn target_set_never_drops_files_or_extended_entries() {
    let file = Target::from_file(PathBuf::from("/repo"));
    let extended = Target::from_extended(object_with(
        "path",
        serde_json::Value::String("/repo".to_string()),
    ));
    let bare = Target::from_git_repo(PathBuf::from("/repo"));
    let full = detailed("/repo", "abc123", b"x");
    let set = TargetSet::new(
        file.clone(),
        vec![extended.clone(), bare, full.clone(), file.clone()],
    );
    assert_eq!(set.len(), 4);
    assert_eq!(set.iter(), vec![&file, &extended, &full, &file]);
}

#[test]
fn target_set_keeps_every_detailed_entry() {
    let first = detailed("/repo", "abc123", b"x");
    let second = detailed("/repo", "def456", b"y");
    let bare = Target::from_git_repo(PathBuf::from("/repo"));
    let set = TargetSet::new(first.clone(), vec![bare, second.clone()]);
    assert_eq!(set.len(), 2);
    assert_eq!(set.first(), &first);
    assert_eq!(set.clone().into_vec(), vec![first, second]);
}

#[test]
fn target_set_compares_repo_paths_as_paths() {
    let bare = Target::from_git_repo(PathBuf::from("/repo/"));
    let full = detailed("/repo", "abc123", b"x");
    let set = TargetSet::new(bare, vec![full.clone()]);
    assert_eq!(set.into_vec(), vec![full]);
}
