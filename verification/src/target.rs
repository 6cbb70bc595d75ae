//! Where a blob was seen: in a file, in a Git repository, or somewhere that
//! an arbitrary JSON value describes.

use std::path::PathBuf;
use vstd::prelude::*;
use vstd::string::*;
use vstd::utf8::*;

use crate::text::str_equal;

verus! {

#[verifier::external_type_specification]
#[verifier::external_body]
pub struct ExPathBuf(std::path::PathBuf);

#[verifier::external_type_specification]
#[verifier::external_body]
pub struct ExJsonValue(serde_json::Value);

/// The class of a path under `==`: two paths have the same class exactly
/// when they compare equal.
pub uninterp spec fn path_class(path: PathBuf) -> int;

/// The text that a path displays as.
pub uninterp spec fn path_text(path: PathBuf) -> Seq<char>;

/// The path that a string names.
pub uninterp spec fn path_of_text(text: Seq<char>) -> PathBuf;

/// The text that a byte string displays as.
pub uninterp spec fn bytes_text(bytes: Seq<u8>) -> Seq<char>;

/// The member of a JSON object under a key; `None` where the value is no
/// object or has no such member.
pub uninterp spec fn json_member(value: serde_json::Value, key: Seq<char>) -> Option<
    serde_json::Value,
>;

/// The characters of a JSON string; `None` for any other JSON value.
pub uninterp spec fn json_string(value: serde_json::Value) -> Option<Seq<char>>;

/// The compact JSON text of a value.
pub uninterp spec fn json_text(value: serde_json::Value) -> Seq<char>;

/// The JSON value that a text spells; `None` where the text is not JSON.
pub uninterp spec fn json_of_text(text: Seq<char>) -> Option<serde_json::Value>;

/// Calls `serde_json::from_str` for a `serde_json::Value`; an error gives
/// `None`. The outcome has the name `json_of_text`.
#[verifier::external_body]
pub(crate) fn json_parse(text: &str) -> (value: Option<serde_json::Value>)
    ensures
        value == json_of_text(text@),
{
    match serde_json::from_str::<serde_json::Value>(text) {
        Ok(value) => Some(value),
        Err(_) => None,
    }
}

/// Compares with `PathBuf::eq`, an equivalence by the laws of `Eq`: the
/// outcome says whether the two paths are of one class.
#[verifier::external_body]
pub(crate) fn same_path(a: &PathBuf, b: &PathBuf) -> (same: bool)
    ensures
        same == (path_class(*a) == path_class(*b)),
{
    a == b
}

/// Calls `PathBuf::clone`: the copy is the same path.
#[verifier::external_body]
pub(crate) fn path_clone(path: &PathBuf) -> (copy: PathBuf)
    ensures
        copy == *path,
{
    path.clone()
}

/// Formats `Path::display`; the outcome has the name `path_text`.
#[verifier::external_body]
pub(crate) fn path_display(path: &PathBuf) -> (text: String)
    ensures
        text@ == path_text(*path),
{
    format!("{}", path.display())
}

/// Calls `PathBuf::from` on a string; the outcome has the name `path_of_text`.
#[verifier::external_body]
pub(crate) fn path_from_str(text: &str) -> (path: PathBuf)
    ensures
        path == path_of_text(text@),
{
    PathBuf::from(text)
}

/// Calls `bstr::ByteSlice::to_path`, which succeeds on every platform when
/// the bytes are valid UTF-8 and then gives the path that the decoded string
/// names; for other bytes the outcome depends on the platform.
#[verifier::external_body]
pub(crate) fn path_from_bytes(bytes: &[u8]) -> (path: Option<PathBuf>)
    ensures
        valid_utf8(bytes@) ==> path == Some(path_of_text(decode_utf8(bytes@))),
{
    match bstr::ByteSlice::to_path(bytes) {
        Ok(path) => Some(path.to_path_buf()),
        Err(_) => None,
    }
}

/// Formats a byte string as `bstr::BStr` displays it; the outcome has the
/// name `bytes_text`.
#[verifier::external_body]
pub(crate) fn bytes_display(bytes: &[u8]) -> (text: String)
    ensures
        text@ == bytes_text(bytes@),
{
    format!("{}", bstr::BStr::new(bytes))
}

/// Calls `serde_json::Value::get` with a string key; the outcome has the
/// name `json_member`.
#[verifier::external_body]
pub(crate) fn json_get<'a>(value: &'a serde_json::Value, key: &str) -> (member: Option<
    &'a serde_json::Value,
>)
    ensures
        match member {
            Some(m) => json_member(*value, key@) == Some(*m),
            None => json_member(*value, key@) is None,
        },
{
    value.get(key)
}

/// Calls `serde_json::Value::as_str`; the outcome has the name `json_string`.
#[verifier::external_body]
pub(crate) fn json_as_str<'a>(value: &'a serde_json::Value) -> (text: Option<&'a str>)
    ensures
        match text {
            Some(t) => json_string(*value) == Some(t@),
            None => json_string(*value) is None,
        },
{
    value.as_str()
}

/// Formats a JSON value with its `Display`; the outcome has the name `json_text`.
#[verifier::external_body]
pub(crate) fn json_display(value: &serde_json::Value) -> (text: String)
    ensures
        text@ == json_text(*value),
{
    format!("{}", value)
}

/// Calls `serde_json::Value::clone`: the copy is the same value.
#[verifier::external_body]
pub(crate) fn json_clone(value: &serde_json::Value) -> (copy: serde_json::Value)
    ensures
        copy == *value,
{
    value.clone()
}

/// What is recorded of the commit in which a blob was first seen.
#[derive(Debug, PartialEq, Eq)]
pub struct CommitMetadata {
    /// The commit's identifier, in hexadecimal.
    pub commit_id: String,
    /// The committer's name.
    pub committer_name: Vec<u8>,
    /// The committer's e-mail address.
    pub committer_email: Vec<u8>,
    /// The time of the commit, in seconds since the epoch.
    pub committer_timestamp: i64,
}

/// What a commit's metadata holds.
pub struct CommitMetadataModel {
    pub commit_id: Seq<char>,
    pub committer_name: Seq<u8>,
    pub committer_email: Seq<u8>,
    pub committer_timestamp: i64,
}

impl View for CommitMetadata {
    type V = CommitMetadataModel;

    open spec fn view(&self) -> CommitMetadataModel {
        CommitMetadataModel {
            commit_id: self.commit_id@,
            committer_name: self.committer_name@,
            committer_email: self.committer_email@,
            committer_timestamp: self.committer_timestamp,
        }
    }
}

impl Clone for CommitMetadata {
    fn clone(&self) -> (copy: CommitMetadata)
        ensures
            copy@ == self@,
    {
        CommitMetadata {
            commit_id: self.commit_id.clone(),
            committer_name: self.committer_name.clone(),
            committer_email: self.committer_email.clone(),
            committer_timestamp: self.committer_timestamp,
        }
    }
}

/// Indicates that a blob was seen at a particular file path.
#[derive(Debug, PartialEq, Eq)]
pub struct FileTarget {
    pub path: PathBuf,
}

/// How a particular Git commit was encountered.
#[derive(Debug, PartialEq, Eq)]
pub struct CommitTarget {
    pub commit_metadata: CommitMetadata,
    /// The path of the blob in that commit.
    pub blob_path: Vec<u8>,
}

/// What a commit target holds.
pub struct CommitTargetModel {
    pub commit_metadata: CommitMetadataModel,
    pub blob_path: Seq<u8>,
}

impl View for CommitTarget {
    type V = CommitTargetModel;

    open spec fn view(&self) -> CommitTargetModel {
        CommitTargetModel { commit_metadata: self.commit_metadata@, blob_path: self.blob_path@ }
    }
}

impl Clone for CommitTarget {
    fn clone(&self) -> (copy: CommitTarget)
        ensures
            copy@ == self@,
    {
        CommitTarget {
            commit_metadata: self.commit_metadata.clone(),
            blob_path: self.blob_path.clone(),
        }
    }
}

/// Indicates that a blob was seen in a Git repo, optionally with the commit
/// in which it first appeared.
#[derive(Debug, PartialEq, Eq)]
pub struct GitRepoTarget {
    pub repo_path: PathBuf,
    pub first_commit: Option<CommitTarget>,
}

/// An extended target entry: an arbitrary JSON value. Where the value is an
/// object with a string member `path`, that member is the blob's path.
#[derive(Debug, PartialEq, Eq)]
pub struct ExtendedTarget(pub serde_json::Value);

/// The path that an extended target names, if it names one.
pub open spec fn extended_path(value: serde_json::Value) -> Option<PathBuf> {
    match json_member(value, "path"@) {
        None => None,
        Some(member) => match json_string(member) {
            None => None,
            Some(text) => Some(path_of_text(text)),
        },
    }
}

impl ExtendedTarget {
    /// The path under the member `path`, where the value is an object that
    /// has such a member and the member is a string.
    pub fn path(&self) -> (path: Option<PathBuf>)
        ensures
            path == extended_path(self.0),
    {
        match json_get(&self.0, "path") {
            None => None,
            Some(member) => match json_as_str(member) {
                None => None,
                Some(text) => Some(path_from_str(text)),
            },
        }
    }

    /// The value as compact JSON text.
    pub fn to_string(&self) -> (text: String)
        ensures
            text@ == json_text(self.0),
    {
        json_display(&self.0)
    }
}

/// Where a particular blob or match was found when scanning.
#[derive(Debug, PartialEq, Eq)]
pub enum Target {
    File(FileTarget),
    GitRepo(GitRepoTarget),
    Extended(ExtendedTarget),
}

/// What a target says.
pub enum TargetModel {
    File { path: PathBuf },
    GitRepo { repo_path: PathBuf, first_commit: Option<CommitTargetModel> },
    Extended { value: serde_json::Value },
}

impl View for Target {
    type V = TargetModel;

    open spec fn view(&self) -> TargetModel {
        match self {
            Target::File(e) => TargetModel::File { path: e.path },
            Target::GitRepo(e) => TargetModel::GitRepo {
                repo_path: e.repo_path,
                first_commit: match e.first_commit {
                    Some(c) => Some(c@),
                    None => None,
                },
            },
            Target::Extended(e) => TargetModel::Extended { value: e.0 },
        }
    }
}

impl DeepView for Target {
    type V = TargetModel;

    open spec fn deep_view(&self) -> TargetModel {
        self@
    }
}

impl Clone for Target {
    fn clone(&self) -> (copy: Target)
        ensures
            copy@ == self@,
    {
        match self {
            Target::File(e) => Target::File(FileTarget { path: path_clone(&e.path) }),
            Target::GitRepo(e) => Target::GitRepo(
                GitRepoTarget {
                    repo_path: path_clone(&e.repo_path),
                    first_commit: match &e.first_commit {
                        Some(c) => Some(c.clone()),
                        None => None,
                    },
                },
            ),
            Target::Extended(e) => Target::Extended(ExtendedTarget(json_clone(&e.0))),
        }
    }
}

/// The path of the blob that a target names, as far as it is the same on
/// every platform: `Some(None)` where the target names no path, and `None`
/// where whether there is one depends on the platform, which is so for a
/// commit path that is not valid UTF-8.
pub open spec fn target_blob_path(target: TargetModel) -> Option<Option<PathBuf>> {
    match target {
        TargetModel::File { path } => Some(Some(path)),
        TargetModel::GitRepo { repo_path, first_commit } => match first_commit {
            None => Some(None),
            Some(c) => if valid_utf8(c.blob_path) {
                Some(Some(path_of_text(decode_utf8(c.blob_path))))
            } else {
                None
            },
        },
        TargetModel::Extended { value } => Some(extended_path(value)),
    }
}

/// The text that describes a target.
pub open spec fn target_text(target: TargetModel) -> Seq<char> {
    match target {
        TargetModel::File { path } => "file "@ + path_text(path),
        TargetModel::GitRepo { repo_path, first_commit } => match first_commit {
            Some(c) => "git repo "@ + path_text(repo_path) + ": first seen in commit "@
                + c.commit_metadata.commit_id + " as "@ + bytes_text(c.blob_path),
            None => "git repo "@ + path_text(repo_path),
        },
        TargetModel::Extended { value } => "extended "@ + json_text(value),
    }
}

impl Target {
    /// A target for a plain file.
    pub fn from_file(path: PathBuf) -> (target: Target)
        ensures
            target@ == (TargetModel::File { path }),
    {
        Target::File(FileTarget { path })
    }

    /// A target for a blob found within a Git repo's history, without the
    /// commit in which it first appeared.
    pub fn from_git_repo(repo_path: PathBuf) -> (target: Target)
        ensures
            target@ == (TargetModel::GitRepo { repo_path, first_commit: None }),
    {
        Target::GitRepo(GitRepoTarget { repo_path, first_commit: None })
    }

    /// A target for a blob found within a Git repo's history, with the commit
    /// in which it first appeared and its path there.
    pub fn from_git_repo_with_first_commit(
        repo_path: PathBuf,
        commit_metadata: CommitMetadata,
        blob_path: Vec<u8>,
    ) -> (target: Target)
        ensures
            target@ == (TargetModel::GitRepo {
                repo_path,
                first_commit: Some(
                    CommitTargetModel { commit_metadata: commit_metadata@, blob_path: blob_path@ },
                ),
            }),
    {
        let first_commit = Some(CommitTarget { commit_metadata, blob_path });
        Target::GitRepo(GitRepoTarget { repo_path, first_commit })
    }

    /// A target from an arbitrary JSON value.
    pub fn from_extended(value: serde_json::Value) -> (target: Target)
        ensures
            target@ == (TargetModel::Extended { value }),
    {
        Target::Extended(ExtendedTarget(value))
    }

    /// The path of the blob, if the target names one.
    pub fn blob_path(&self) -> (path: Option<PathBuf>)
        ensures
            target_blob_path(self@) matches Some(expected) ==> path == expected,
    {
        match self {
            Target::File(e) => Some(path_clone(&e.path)),
            Target::GitRepo(e) => match &e.first_commit {
                None => None,
                Some(c) => path_from_bytes(c.blob_path.as_slice()),
            },
            Target::Extended(e) => e.path(),
        }
    }

    /// A description of the target for a reader.
    pub fn to_string(&self) -> (text: String)
        ensures
            text@ == target_text(self@),
    {
        match self {
            Target::File(e) => {
                let mut text: String = "file ".to_owned();
                text.append(path_display(&e.path).as_str());
                text
            },
            Target::GitRepo(e) => {
                let mut text: String = "git repo ".to_owned();
                text.append(path_display(&e.repo_path).as_str());
                match &e.first_commit {
                    Some(c) => {
                        text.append(": first seen in commit ");
                        text.append(c.commit_metadata.commit_id.as_str());
                        text.append(" as ");
                        text.append(bytes_display(c.blob_path.as_slice()).as_str());
                    },
                    None => {},
                }
                text
            },
            Target::Extended(e) => {
                let mut text: String = "extended ".to_owned();
                text.append(e.to_string().as_str());
                text
            },
        }
    }
}

/// Why text was not accepted as a target.
#[derive(Debug, PartialEq, Eq)]
pub enum TargetParseError {
    /// The text says `file` and names no path.
    MissingPath,
    /// The text says `git_repo` and names no path.
    MissingRepoPath,
    /// The text says neither `file` nor `git_repo`; the text is enclosed.
    InvalidTarget(String),
}

/// What a parse error says.
pub enum TargetParseErrorModel {
    MissingPath,
    MissingRepoPath,
    InvalidTarget(Seq<char>),
}

impl View for TargetParseError {
    type V = TargetParseErrorModel;

    open spec fn view(&self) -> TargetParseErrorModel {
        match self {
            TargetParseError::MissingPath => TargetParseErrorModel::MissingPath,
            TargetParseError::MissingRepoPath => TargetParseErrorModel::MissingRepoPath,
            TargetParseError::InvalidTarget(text) => TargetParseErrorModel::InvalidTarget(text@),
        }
    }
}

/// The text that explains a parse error.
pub open spec fn parse_error_text(error: TargetParseErrorModel) -> Seq<char> {
    match error {
        TargetParseErrorModel::MissingPath => "Missing path"@,
        TargetParseErrorModel::MissingRepoPath => "Missing repo path"@,
        TargetParseErrorModel::InvalidTarget(text) => "Invalid target: "@ + text,
    }
}

impl TargetParseError {
    /// An explanation of the error for a reader.
    pub fn to_string(&self) -> (text: String)
        ensures
            text@ == parse_error_text(self@),
    {
        match self {
            TargetParseError::MissingPath => "Missing path".to_owned(),
            TargetParseError::MissingRepoPath => "Missing repo path".to_owned(),
            TargetParseError::InvalidTarget(given) => {
                let mut text: String = "Invalid target: ".to_owned();
                text.append(given.as_str());
                text
            },
        }
    }
}

/// The place of the first colon of `text` at or after `from`; the length of
/// `text` where there is none.
pub open spec fn colon_from(text: Seq<char>, from: int) -> int
    decreases text.len() - from,
{
    if from >= text.len() {
        text.len() as int
    } else if text[from] == ':' {
        from
    } else {
        colon_from(text, from + 1)
    }
}

/// The part of `text` before its first colon.
pub open spec fn target_kind(text: Seq<char>) -> Seq<char> {
    text.subrange(0, colon_from(text, 0))
}

/// The part of `text` between its first colon and its second, or from its
/// first colon to its end; `None` where `text` has no colon.
pub open spec fn target_argument(text: Seq<char>) -> Option<Seq<char>> {
    let first = colon_from(text, 0);
    if first >= text.len() {
        None
    } else {
        Some(text.subrange(first + 1, colon_from(text, first + 1)))
    }
}

/// The target that `text` names: `file:` and a path, or `git_repo:` and the
/// path of a repository.
pub open spec fn parse_target(text: Seq<char>) -> Result<TargetModel, TargetParseErrorModel> {
    if target_kind(text) == "file"@ {
        match target_argument(text) {
            Some(path) => Ok(TargetModel::File { path: path_of_text(path) }),
            None => Err(TargetParseErrorModel::MissingPath),
        }
    } else if target_kind(text) == "git_repo"@ {
        match target_argument(text) {
            Some(path) => Ok(
                TargetModel::GitRepo { repo_path: path_of_text(path), first_commit: None },
            ),
            None => Err(TargetParseErrorModel::MissingRepoPath),
        }
    } else {
        Err(TargetParseErrorModel::InvalidTarget(text))
    }
}

/// The place of the first colon at or after `from`.
fn find_colon(s: &str, from: usize) -> (at: usize)
    requires
        from <= s@.len(),
    ensures
        at == colon_from(s@, from as int),
        from <= at <= s@.len(),
{
    let n = s.unicode_len();
    let mut i: usize = from;
    while i < n
        invariant
            from <= i <= n,
            n == s@.len(),
            colon_from(s@, from as int) == colon_from(s@, i as int),
        decreases n - i,
    {
        if s.get_char(i) == ':' {
            return i;
        }
        i += 1;
    }
    i
}

impl Target {
    /// Reads a target from text of the form `file:PATH` or `git_repo:PATH`.
    /// What follows a second colon is ignored.
    pub fn from_str(s: &str) -> (parsed: Result<Target, TargetParseError>)
        ensures
            match parse_target(s@) {
                Ok(model) => parsed matches Ok(target) && target@ == model,
                Err(error) => parsed matches Err(e) && e@ == error,
            },
    {
        let n = s.unicode_len();
        let first = find_colon(s, 0);
        let kind = s.substring_char(0, first);
        let is_file = str_equal(kind, "file");
        let is_repo = str_equal(kind, "git_repo");
        if !is_file && !is_repo {
            return Err(TargetParseError::InvalidTarget(s.to_owned()));
        }
        if first >= n {
            if is_file {
                return Err(TargetParseError::MissingPath);
            } else {
                return Err(TargetParseError::MissingRepoPath);
            }
        }
        let second = find_colon(s, first + 1);
        let path = path_from_str(s.substring_char(first + 1, second));
        if is_file {
            Ok(Target::from_file(path))
        } else {
            Ok(Target::from_git_repo(path))
        }
    }
}

} // verus!
