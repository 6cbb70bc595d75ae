//! How targets are written as stored documents and read back.

use vstd::prelude::*;

use crate::datastore::codec::{
    bytes_value,
    need_bytes,
    need_document,
    need_int,
    need_text,
    read_bytes,
    read_document,
    read_int,
    read_text,
    text_value,
    DecodeError,
    DecodeErrorModel,
};
use crate::document::{
    document_of,
    lemma_field_found,
    lemma_field_not_found,
    unnamed_before,
    Document,
    StoredValue,
    ValueModel,
};
use crate::target::{
    json_display,
    json_of_text,
    json_parse,
    json_text,
    path_display,
    path_from_str,
    path_of_text,
    path_text,
    CommitMetadata,
    CommitMetadataModel,
    CommitTarget,
    CommitTargetModel,
    Target,
    TargetModel,
};
use crate::text::str_equal;

verus! {

/// A commit's metadata as it is stored.
pub open spec fn encoded_commit_metadata(commit: CommitMetadataModel) -> Seq<
    (Seq<char>, ValueModel),
> {
    seq![
        ("commit_id"@, ValueModel::Text(commit.commit_id)),
        ("committer_name"@, ValueModel::Binary(commit.committer_name)),
        ("committer_email"@, ValueModel::Binary(commit.committer_email)),
        ("committer_timestamp"@, ValueModel::Int64(commit.committer_timestamp)),
    ]
}

/// The commit metadata that a stored document holds.
pub open spec fn decoded_commit_metadata(document: Seq<(Seq<char>, ValueModel)>) -> Result<
    CommitMetadataModel,
    DecodeErrorModel,
> {
    let commit_id = need_text(document, "commit_id"@);
    let committer_name = need_bytes(document, "committer_name"@);
    let committer_email = need_bytes(document, "committer_email"@);
    let committer_timestamp = need_int(document, "committer_timestamp"@);
    if commit_id is Err {
        Err(commit_id->Err_0)
    } else if committer_name is Err {
        Err(committer_name->Err_0)
    } else if committer_email is Err {
        Err(committer_email->Err_0)
    } else if committer_timestamp is Err {
        Err(committer_timestamp->Err_0)
    } else {
        Ok(
            CommitMetadataModel {
                commit_id: commit_id->Ok_0,
                committer_name: committer_name->Ok_0,
                committer_email: committer_email->Ok_0,
                committer_timestamp: committer_timestamp->Ok_0,
            },
        )
    }
}

/// A first commit as it is stored.
pub open spec fn encoded_commit_target(commit: CommitTargetModel) -> Seq<(Seq<char>, ValueModel)> {
    seq![
        ("commit_metadata"@, ValueModel::Document(encoded_commit_metadata(commit.commit_metadata))),
        ("blob_path"@, ValueModel::Binary(commit.blob_path)),
    ]
}

/// The first commit that a stored document holds.
pub open spec fn decoded_commit_target(document: Seq<(Seq<char>, ValueModel)>) -> Result<
    CommitTargetModel,
    DecodeErrorModel,
> {
    match need_document(document, "commit_metadata"@) {
        Err(e) => Err(e),
        Ok(inner) => match decoded_commit_metadata(inner) {
            Err(e) => Err(e),
            Ok(commit_metadata) => match need_bytes(document, "blob_path"@) {
                Err(e) => Err(e),
                Ok(blob_path) => Ok(CommitTargetModel { commit_metadata, blob_path }),
            },
        },
    }
}

/// A target as it is stored: its kind, and what the kind carries. A path is
/// stored as the text that it displays as, and a JSON value as its text.
pub open spec fn encoded_target(target: TargetModel) -> Seq<(Seq<char>, ValueModel)> {
    match target {
        TargetModel::File { path } => seq![
            ("kind"@, ValueModel::Text("file"@)),
            ("path"@, ValueModel::Text(path_text(path))),
        ],
        TargetModel::GitRepo { repo_path, first_commit } => match first_commit {
            None => seq![
                ("kind"@, ValueModel::Text("git_repo"@)),
                ("repo_path"@, ValueModel::Text(path_text(repo_path))),
            ],
            Some(commit) => seq![
                ("kind"@, ValueModel::Text("git_repo"@)),
                ("repo_path"@, ValueModel::Text(path_text(repo_path))),
                ("first_commit"@, ValueModel::Document(encoded_commit_target(commit))),
            ],
        },
        TargetModel::Extended { value } => seq![
            ("kind"@, ValueModel::Text("extended"@)),
            ("value"@, ValueModel::Text(json_text(value))),
        ],
    }
}

/// The target that a stored document holds. A Git repo entry has a first
/// commit where the document has a document under `first_commit`.
pub open spec fn decoded_target(document: Seq<(Seq<char>, ValueModel)>) -> Result<
    TargetModel,
    DecodeErrorModel,
> {
    match need_text(document, "kind"@) {
        Err(e) => Err(e),
        Ok(kind) => if kind == "file"@ {
            match need_text(document, "path"@) {
                Err(e) => Err(e),
                Ok(path) => Ok(TargetModel::File { path: path_of_text(path) }),
            }
        } else if kind == "git_repo"@ {
            match need_text(document, "repo_path"@) {
                Err(e) => Err(e),
                Ok(path) => match document_of(document, "first_commit"@) {
                    Err(_) => Ok(
                        TargetModel::GitRepo { repo_path: path_of_text(path), first_commit: None },
                    ),
                    Ok(inner) => match decoded_commit_target(inner) {
                        Err(e) => Err(e),
                        Ok(commit) => Ok(
                            TargetModel::GitRepo {
                                repo_path: path_of_text(path),
                                first_commit: Some(commit),
                            },
                        ),
                    },
                },
            }
        } else if kind == "extended"@ {
            match need_text(document, "value"@) {
                Err(e) => Err(e),
                Ok(text) => match json_of_text(text) {
                    None => Err(DecodeErrorModel::BadJson),
                    Some(value) => Ok(TargetModel::Extended { value }),
                },
            }
        } else {
            Err(DecodeErrorModel::BadKind)
        },
    }
}

/// The names of the fields of stored commit metadata are of different lengths.
proof fn lemma_commit_metadata_names()
    ensures
        "commit_id"@.len() == 9,
        "committer_name"@.len() == 14,
        "committer_email"@.len() == 15,
        "committer_timestamp"@.len() == 19,
{
    reveal_strlit("commit_id");
    reveal_strlit("committer_name");
    reveal_strlit("committer_email");
    reveal_strlit("committer_timestamp");
}

/// The names of the fields of a stored first commit are of different lengths.
proof fn lemma_commit_target_names()
    ensures
        "commit_metadata"@.len() == 15,
        "blob_path"@.len() == 9,
{
    reveal_strlit("commit_metadata");
    reveal_strlit("blob_path");
}

/// The names of the fields of a stored target differ from each other, and
/// so do the names of the kinds of target.
proof fn lemma_target_names()
    ensures
        "kind"@.len() == 4 && "kind"@[0] == 'k',
        "path"@.len() == 4 && "path"@[0] == 'p',
        "repo_path"@.len() == 9,
        "first_commit"@.len() == 12,
        "value"@.len() == 5,
        "file"@.len() == 4,
        "git_repo"@.len() == 8 && "git_repo"@[0] == 'g',
        "extended"@.len() == 8 && "extended"@[0] == 'e',
{
    reveal_strlit("kind");
    reveal_strlit("path");
    reveal_strlit("repo_path");
    reveal_strlit("first_commit");
    reveal_strlit("value");
    reveal_strlit("file");
    reveal_strlit("git_repo");
    reveal_strlit("extended");
}

impl CommitMetadata {
    /// The metadata as a stored document.
    pub fn to_document(&self) -> (document: Document)
        ensures
            document@ == encoded_commit_metadata(self@),
    {
        proof {
            lemma_commit_metadata_names();
            reveal_with_fuel(unnamed_before, 5);
        }
        let mut document = Document::new();
        document.insert("commit_id", text_value(self.commit_id.as_str()));
        document.insert("committer_name", bytes_value(&self.committer_name));
        document.insert("committer_email", bytes_value(&self.committer_email));
        document.insert("committer_timestamp", StoredValue::Int64(self.committer_timestamp));
        assert(document@ =~= encoded_commit_metadata(self@));
        document
    }

    /// The metadata that a stored document holds.
    pub fn from_document(document: &Document) -> (commit: Result<CommitMetadata, DecodeError>)
        ensures
            match decoded_commit_metadata(document@) {
                Ok(m) => commit matches Ok(c) && c@ == m,
                Err(e) => commit matches Err(err) && err@ == e,
            },
    {
        let commit_id = read_text(document, "commit_id")?;
        let committer_name = read_bytes(document, "committer_name")?;
        let committer_email = read_bytes(document, "committer_email")?;
        let committer_timestamp = read_int(document, "committer_timestamp")?;
        Ok(CommitMetadata { commit_id, committer_name, committer_email, committer_timestamp })
    }
}

impl CommitTarget {
    /// The first commit as a stored document.
    pub fn to_document(&self) -> (document: Document)
        ensures
            document@ == encoded_commit_target(self@),
    {
        proof {
            lemma_commit_target_names();
            reveal_with_fuel(unnamed_before, 3);
        }
        let mut document = Document::new();
        document.insert(
            "commit_metadata",
            StoredValue::Document(self.commit_metadata.to_document()),
        );
        document.insert("blob_path", bytes_value(&self.blob_path));
        assert(document@ =~= encoded_commit_target(self@));
        document
    }

    /// The first commit that a stored document holds.
    pub fn from_document(document: &Document) -> (commit: Result<CommitTarget, DecodeError>)
        ensures
            match decoded_commit_target(document@) {
                Ok(m) => commit matches Ok(c) && c@ == m,
                Err(e) => commit matches Err(err) && err@ == e,
            },
    {
        let inner = read_document(document, "commit_metadata")?;
        let commit_metadata = CommitMetadata::from_document(inner)?;
        let blob_path = read_bytes(document, "blob_path")?;
        Ok(CommitTarget { commit_metadata, blob_path })
    }
}

impl Target {
    /// The target as a stored document.
    pub fn to_document(&self) -> (document: Document)
        ensures
            document@ == encoded_target(self@),
    {
        proof {
            lemma_target_names();
            reveal_with_fuel(unnamed_before, 4);
        }
        let mut document = Document::new();
        match self {
            Target::File(e) => {
                document.insert("kind", text_value("file"));
                document.insert("path", StoredValue::Text(path_display(&e.path)));
            },
            Target::GitRepo(e) => {
                document.insert("kind", text_value("git_repo"));
                document.insert("repo_path", StoredValue::Text(path_display(&e.repo_path)));
                match &e.first_commit {
                    Some(commit) => {
                        document.insert("first_commit", StoredValue::Document(commit.to_document()));
                    },
                    None => {},
                }
            },
            Target::Extended(e) => {
                document.insert("kind", text_value("extended"));
                document.insert("value", StoredValue::Text(json_display(&e.0)));
            },
        }
        assert(document@ =~= encoded_target(self@));
        document
    }

    /// The target that a stored document holds.
    pub fn from_document(document: &Document) -> (target: Result<Target, DecodeError>)
        ensures
            match decoded_target(document@) {
                Ok(m) => target matches Ok(t) && t@ == m,
                Err(e) => target matches Err(err) && err@ == e,
            },
    {
        let kind = read_text(document, "kind")?;
        if str_equal(kind.as_str(), "file") {
            let path = read_text(document, "path")?;
            Ok(Target::from_file(path_from_str(path.as_str())))
        } else if str_equal(kind.as_str(), "git_repo") {
            let path = read_text(document, "repo_path")?;
            let repo_path = path_from_str(path.as_str());
            match document.get_document("first_commit") {
                Err(_) => Ok(Target::from_git_repo(repo_path)),
                Ok(inner) => {
                    let commit = CommitTarget::from_document(inner)?;
                    Ok(
                        Target::from_git_repo_with_first_commit(
                            repo_path,
                            commit.commit_metadata,
                            commit.blob_path,
                        ),
                    )
                },
            }
        } else if str_equal(kind.as_str(), "extended") {
            let text = read_text(document, "value")?;
            match json_parse(text.as_str()) {
                None => Err(DecodeError::BadJson),
                Some(value) => Ok(Target::from_extended(value)),
            }
        } else {
            Err(DecodeError::BadKind)
        }
    }
}

/// Reading back stored commit metadata gives the metadata.
pub proof fn lemma_commit_metadata_round_trip(commit: CommitMetadataModel)
    ensures
        decoded_commit_metadata(encoded_commit_metadata(commit)) == Ok::<
            CommitMetadataModel,
            DecodeErrorModel,
        >(commit),
{
    let d = encoded_commit_metadata(commit);
    lemma_commit_metadata_names();
    reveal_with_fuel(unnamed_before, 5);
    lemma_field_found(d, 0);
    lemma_field_found(d, 1);
    lemma_field_found(d, 2);
    lemma_field_found(d, 3);
}

/// Reading back a stored first commit gives the first commit.
pub proof fn lemma_commit_target_round_trip(commit: CommitTargetModel)
    ensures
        decoded_commit_target(encoded_commit_target(commit)) == Ok::<
            CommitTargetModel,
            DecodeErrorModel,
        >(commit),
{
    let d = encoded_commit_target(commit);
    lemma_commit_target_names();
    reveal_with_fuel(unnamed_before, 3);
    lemma_field_found(d, 0);
    lemma_field_found(d, 1);
    lemma_commit_metadata_round_trip(commit.commit_metadata);
}

/// What a target reads back as after it was stored: a target of the same
/// kind, with the path that the displayed text of its path names, with the
/// same first commit, and with the JSON value that the text of its value
/// spells.
pub open spec fn reread_target(target: TargetModel) -> Result<TargetModel, DecodeErrorModel> {
    match target {
        TargetModel::File { path } => Ok(TargetModel::File { path: path_of_text(path_text(path)) }),
        TargetModel::GitRepo { repo_path, first_commit } => Ok(
            TargetModel::GitRepo { repo_path: path_of_text(path_text(repo_path)), first_commit },
        ),
        TargetModel::Extended { value } => match json_of_text(json_text(value)) {
            Some(read) => Ok(TargetModel::Extended { value: read }),
            None => Err(DecodeErrorModel::BadJson),
        },
    }
}

/// Reading back a stored target gives what `reread_target` says.
pub proof fn lemma_target_round_trip(target: TargetModel)
    ensures
        decoded_target(encoded_target(target)) == reread_target(target),
{
    let d = encoded_target(target);
    lemma_target_names();
    reveal_with_fuel(unnamed_before, 4);
    lemma_field_found(d, 0);
    lemma_field_found(d, 1);
    match target {
        TargetModel::File { path } => {},
        TargetModel::GitRepo { repo_path, first_commit } => match first_commit {
            None => {
                lemma_field_not_found(d, "first_commit"@);
            },
            Some(commit) => {
                lemma_field_found(d, 2);
                lemma_commit_target_round_trip(commit);
            },
        },
        TargetModel::Extended { value } => {},
    }
}

} // verus!
