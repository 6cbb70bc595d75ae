//! How matches, findings, annotations and provenance entries are written as
//! stored documents and read back.

use vstd::prelude::*;

use crate::blob_metadata::{BlobMetadata, BlobMetadataModel};
use crate::datastore::annotation::{
    FindingAnnotation,
    FindingAnnotationModel,
    MatchAnnotation,
    MatchAnnotationModel,
};
use crate::datastore::codec::{
    bytes_value,
    count_value,
    decoded_groups,
    decoded_status,
    decoded_statuses,
    encoded_groups,
    encoded_status,
    encoded_statuses,
    maybe_text,
    need_array,
    need_blob_id,
    need_bytes,
    need_count,
    need_document,
    need_text,
    read_array,
    read_blob_id,
    read_bytes,
    read_count,
    read_document,
    read_optional_text,
    read_text,
    stored_count,
    text_value,
    DecodeError,
    DecodeErrorModel,
};
use crate::datastore::finding::{
    BlobTarget,
    BlobTargetModel,
    Finding,
    FindingModel,
    MatchRecord,
    MatchRecordModel,
};
use crate::datastore::status::{Status, Statuses};
use crate::datastore::target_codec::{decoded_target, encoded_target};
use crate::datastore::codec::{lemma_groups_round_trip, lemma_statuses_round_trip};
use crate::datastore::status::lemma_status_text_round_trip;
use crate::datastore::target_codec::{lemma_target_round_trip, reread_target};
use crate::text::lemma_hex_round_trip;
use crate::document::{
    array_of,
    field_of,
    lemma_field_found,
    lemma_field_not_found,
    lemma_field_of_concat,
    unnamed_before,
    value_model,
    values_model,
    Document,
    StoredValue,
    ValueModel,
};
use crate::location::{Location, OffsetSpan, SourcePoint, SourceSpan};
use crate::match_type::{Groups, Match, MatchModel};
use crate::snippet::{Snippet, SnippetModel};
use crate::target::Target;
use crate::text::hex_text;

verus! {

/// A match as it is stored.
pub open spec fn encoded_match(m: MatchModel) -> Seq<(Seq<char>, ValueModel)> {
    seq![
        ("blob_id"@, ValueModel::Text(hex_text(m.blob_id))),
        ("start_byte"@, ValueModel::Int64(stored_count(m.location.offset_span.start))),
        ("end_byte"@, ValueModel::Int64(stored_count(m.location.offset_span.end))),
        ("start_line"@, ValueModel::Int64(stored_count(m.location.source_span.start.line))),
        ("start_column"@, ValueModel::Int64(stored_count(m.location.source_span.start.column))),
        ("end_line"@, ValueModel::Int64(stored_count(m.location.source_span.end.line))),
        ("end_column"@, ValueModel::Int64(stored_count(m.location.source_span.end.column))),
        ("snippet_before"@, ValueModel::Binary(m.snippet.before)),
        ("snippet_matching"@, ValueModel::Binary(m.snippet.matching)),
        ("snippet_after"@, ValueModel::Binary(m.snippet.after)),
        ("groups"@, encoded_groups(m.groups)),
        ("structural_id"@, ValueModel::Text(m.structural_id)),
        ("rule_structural_id"@, ValueModel::Text(m.rule_structural_id)),
        ("rule_text_id"@, ValueModel::Text(m.rule_text_id)),
        ("rule_name"@, ValueModel::Text(m.rule_name)),
    ]
}

/// The groups of a field that must be there.
pub open spec fn need_groups(document: Seq<(Seq<char>, ValueModel)>, key: Seq<char>) -> Result<
    Seq<Seq<u8>>,
    DecodeErrorModel,
> {
    match need_array(document, key) {
        Err(e) => Err(e),
        Ok(items) => decoded_groups(items),
    }
}

/// The match that a stored document holds; the first field that cannot be
/// read gives the error.
pub open spec fn decoded_match(document: Seq<(Seq<char>, ValueModel)>) -> Result<
    MatchModel,
    DecodeErrorModel,
> {
    let blob_id = need_blob_id(document, "blob_id"@);
    let start_byte = need_count(document, "start_byte"@);
    let end_byte = need_count(document, "end_byte"@);
    let start_line = need_count(document, "start_line"@);
    let start_column = need_count(document, "start_column"@);
    let end_line = need_count(document, "end_line"@);
    let end_column = need_count(document, "end_column"@);
    let before = need_bytes(document, "snippet_before"@);
    let matching = need_bytes(document, "snippet_matching"@);
    let after = need_bytes(document, "snippet_after"@);
    let groups = need_groups(document, "groups"@);
    let structural_id = need_text(document, "structural_id"@);
    let rule_structural_id = need_text(document, "rule_structural_id"@);
    let rule_text_id = need_text(document, "rule_text_id"@);
    let rule_name = need_text(document, "rule_name"@);
    if blob_id is Err {
        Err(blob_id->Err_0)
    } else if start_byte is Err {
        Err(start_byte->Err_0)
    } else if end_byte is Err {
        Err(end_byte->Err_0)
    } else if start_line is Err {
        Err(start_line->Err_0)
    } else if start_column is Err {
        Err(start_column->Err_0)
    } else if end_line is Err {
        Err(end_line->Err_0)
    } else if end_column is Err {
        Err(end_column->Err_0)
    } else if before is Err {
        Err(before->Err_0)
    } else if matching is Err {
        Err(matching->Err_0)
    } else if after is Err {
        Err(after->Err_0)
    } else if groups is Err {
        Err(groups->Err_0)
    } else if structural_id is Err {
        Err(structural_id->Err_0)
    } else if rule_structural_id is Err {
        Err(rule_structural_id->Err_0)
    } else if rule_text_id is Err {
        Err(rule_text_id->Err_0)
    } else if rule_name is Err {
        Err(rule_name->Err_0)
    } else {
        Ok(
            MatchModel {
                blob_id: blob_id->Ok_0,
                location: Location {
                    offset_span: OffsetSpan { start: start_byte->Ok_0, end: end_byte->Ok_0 },
                    source_span: SourceSpan {
                        start: SourcePoint { line: start_line->Ok_0, column: start_column->Ok_0 },
                        end: SourcePoint { line: end_line->Ok_0, column: end_column->Ok_0 },
                    },
                },
                groups: groups->Ok_0,
                snippet: SnippetModel {
                    before: before->Ok_0,
                    matching: matching->Ok_0,
                    after: after->Ok_0,
                },
                structural_id: structural_id->Ok_0,
                rule_structural_id: rule_structural_id->Ok_0,
                rule_text_id: rule_text_id->Ok_0,
                rule_name: rule_name->Ok_0,
            },
        )
    }
}

/// The names of the fields of a stored finding annotation are of different lengths.
proof fn lemma_finding_annotation_names()
    ensures
        "finding_id"@.len() == 10,
        "rule_name"@.len() == 9,
        "rule_text_id"@.len() == 12,
        "rule_structural_id"@.len() == 18,
        "groups"@.len() == 6,
        "comment"@.len() == 7,
{
    reveal_strlit("finding_id");
    reveal_strlit("rule_name");
    reveal_strlit("rule_text_id");
    reveal_strlit("rule_structural_id");
    reveal_strlit("groups");
    reveal_strlit("comment");
}

/// The names of the fields of a stored match differ from each other.
proof fn lemma_match_names()
    ensures
        "blob_id"@.len() == 7,
        "start_byte"@.len() == 10 && "start_byte"@[0] == 's' && "start_byte"@[6] == 'b',
        "end_byte"@.len() == 8 && "end_byte"@[4] == 'b',
        "start_line"@.len() == 10 && "start_line"@[0] == 's' && "start_line"@[6] == 'l',
        "start_column"@.len() == 12 && "start_column"@[0] == 's',
        "end_line"@.len() == 8 && "end_line"@[4] == 'l',
        "end_column"@.len() == 10 && "end_column"@[0] == 'e',
        "snippet_before"@.len() == 14,
        "snippet_matching"@.len() == 16,
        "snippet_after"@.len() == 13 && "snippet_after"@[1] == 'n',
        "groups"@.len() == 6,
        "structural_id"@.len() == 13 && "structural_id"@[1] == 't',
        "rule_structural_id"@.len() == 18,
        "rule_text_id"@.len() == 12 && "rule_text_id"@[0] == 'r',
        "rule_name"@.len() == 9,
{
    reveal_strlit("blob_id");
    reveal_strlit("start_byte");
    reveal_strlit("end_byte");
    reveal_strlit("start_line");
    reveal_strlit("start_column");
    reveal_strlit("end_line");
    reveal_strlit("end_column");
    reveal_strlit("snippet_before");
    reveal_strlit("snippet_matching");
    reveal_strlit("snippet_after");
    reveal_strlit("groups");
    reveal_strlit("structural_id");
    reveal_strlit("rule_structural_id");
    reveal_strlit("rule_text_id");
    reveal_strlit("rule_name");
}

/// The names of the fields of a stored match record are of different lengths.
proof fn lemma_match_record_names()
    ensures
        "match"@.len() == 5,
        "num_bytes"@.len() == 9,
        "mime_essence"@.len() == 12,
        "charset"@.len() == 7,
{
    reveal_strlit("match");
    reveal_strlit("num_bytes");
    reveal_strlit("mime_essence");
    reveal_strlit("charset");
}

/// The names of the fields of a stored match annotation differ from each other.
proof fn lemma_match_annotation_names()
    ensures
        "finding_id"@.len() == 10 && "finding_id"@[0] == 'f',
        "rule_name"@.len() == 9,
        "rule_text_id"@.len() == 12,
        "rule_structural_id"@.len() == 18,
        "match_id"@.len() == 8 && "match_id"@[0] == 'm',
        "blob_id"@.len() == 7 && "blob_id"@[0] == 'b',
        "start_byte"@.len() == 10 && "start_byte"@[0] == 's',
        "end_byte"@.len() == 8 && "end_byte"@[0] == 'e',
        "groups"@.len() == 6 && "groups"@[0] == 'g',
        "status"@.len() == 6 && "status"@[0] == 's',
        "comment"@.len() == 7 && "comment"@[0] == 'c',
{
    reveal_strlit("finding_id");
    reveal_strlit("rule_name");
    reveal_strlit("rule_text_id");
    reveal_strlit("rule_structural_id");
    reveal_strlit("match_id");
    reveal_strlit("blob_id");
    reveal_strlit("start_byte");
    reveal_strlit("end_byte");
    reveal_strlit("groups");
    reveal_strlit("status");
    reveal_strlit("comment");
}

/// The names of the fields of a stored provenance entry are of different lengths.
proof fn lemma_blob_target_names()
    ensures
        "blob_id"@.len() == 7,
        "target"@.len() == 6,
{
    reveal_strlit("blob_id");
    reveal_strlit("target");
}

/// The names of the fields of a stored finding differ from each other.
proof fn lemma_finding_names()
    ensures
        "rule_name"@.len() == 9,
        "rule_structural_id"@.len() == 18,
        "finding_id"@.len() == 10,
        "count"@.len() == 5,
        "matches"@.len() == 7 && "matches"@[0] == 'm',
        "accept_count"@.len() == 12 && "accept_count"@[0] == 'a',
        "reject_count"@.len() == 12 && "reject_count"@[0] == 'r' && "reject_count"@[1] == 'e',
        "mixed_count"@.len() == 11,
        "unlabeled_count"@.len() == 15,
        "rule_text_id"@.len() == 12 && "rule_text_id"@[0] == 'r' && "rule_text_id"@[1] == 'u',
        "groups"@.len() == 6,
        "comment"@.len() == 7 && "comment"@[0] == 'c',
        "statuses"@.len() == 8,
{
    reveal_strlit("rule_name");
    reveal_strlit("rule_structural_id");
    reveal_strlit("finding_id");
    reveal_strlit("count");
    reveal_strlit("matches");
    reveal_strlit("accept_count");
    reveal_strlit("reject_count");
    reveal_strlit("mixed_count");
    reveal_strlit("unlabeled_count");
    reveal_strlit("rule_text_id");
    reveal_strlit("groups");
    reveal_strlit("comment");
    reveal_strlit("statuses");
}

/// A name that a document lacks is still lacking after an optional field
/// of another name.
proof fn lemma_absent_after_optional(
    document: Seq<(Seq<char>, ValueModel)>,
    key: Seq<char>,
    value: Option<ValueModel>,
    wanted: Seq<char>,
)
    requires
        field_of(document, wanted) is None,
        wanted != key,
    ensures
        field_of(document + optional_field(key, value), wanted) is None,
{
    lemma_field_of_concat(document, optional_field(key, value), wanted);
    lemma_optional_field(key, value, wanted);
}

/// Reads the groups of a field that must be there.
pub fn read_groups(document: &Document, key: &'static str) -> (groups: Result<Groups, DecodeError>)
    ensures
        match need_groups(document@, key@) {
            Ok(g) => groups matches Ok(v) && v@ == g,
            Err(e) => groups matches Err(err) && err@ == e,
        },
{
    let items = read_array(document, key)?;
    Groups::from_values(items)
}

impl Match {
    /// The match as a stored document.
    pub fn to_document(&self) -> (document: Document)
        ensures
            document@ == encoded_match(self@),
    {
        proof {
            lemma_match_names();
            reveal_with_fuel(unnamed_before, 16);
        }
        let mut document = Document::new();
        document.insert("blob_id", StoredValue::Text(self.blob_id.hex()));
        document.insert("start_byte", count_value(self.location.offset_span.start));
        document.insert("end_byte", count_value(self.location.offset_span.end));
        document.insert("start_line", count_value(self.location.source_span.start.line));
        document.insert("start_column", count_value(self.location.source_span.start.column));
        document.insert("end_line", count_value(self.location.source_span.end.line));
        document.insert("end_column", count_value(self.location.source_span.end.column));
        document.insert("snippet_before", bytes_value(&self.snippet.before));
        document.insert("snippet_matching", bytes_value(&self.snippet.matching));
        document.insert("snippet_after", bytes_value(&self.snippet.after));
        document.insert("groups", self.groups.to_value());
        document.insert("structural_id", text_value(self.structural_id.as_str()));
        document.insert("rule_structural_id", text_value(self.rule_structural_id.as_str()));
        document.insert("rule_text_id", text_value(self.rule_text_id.as_str()));
        document.insert("rule_name", text_value(self.rule_name.as_str()));
        assert(document@ =~= encoded_match(self@));
        document
    }

    /// The match that a stored document holds.
    pub fn from_document(document: &Document) -> (m: Result<Match, DecodeError>)
        ensures
            match decoded_match(document@) {
                Ok(model) => m matches Ok(v) && v@ == model,
                Err(e) => m matches Err(err) && err@ == e,
            },
    {
        let blob_id = read_blob_id(document, "blob_id")?;
        let start_byte = read_count(document, "start_byte")?;
        let end_byte = read_count(document, "end_byte")?;
        let start_line = read_count(document, "start_line")?;
        let start_column = read_count(document, "start_column")?;
        let end_line = read_count(document, "end_line")?;
        let end_column = read_count(document, "end_column")?;
        let before = read_bytes(document, "snippet_before")?;
        let matching = read_bytes(document, "snippet_matching")?;
        let after = read_bytes(document, "snippet_after")?;
        let groups = read_groups(document, "groups")?;
        let structural_id = read_text(document, "structural_id")?;
        let rule_structural_id = read_text(document, "rule_structural_id")?;
        let rule_text_id = read_text(document, "rule_text_id")?;
        let rule_name = read_text(document, "rule_name")?;
        Ok(
            Match {
                blob_id,
                location: Location {
                    offset_span: OffsetSpan { start: start_byte, end: end_byte },
                    source_span: SourceSpan {
                        start: SourcePoint { line: start_line, column: start_column },
                        end: SourcePoint { line: end_line, column: end_column },
                    },
                },
                groups,
                snippet: Snippet { before, matching, after },
                structural_id,
                rule_structural_id,
                rule_text_id,
                rule_name,
            },
        )
    }
}

/// The field named `key` with the value, where there is a value.
pub open spec fn optional_field(key: Seq<char>, value: Option<ValueModel>) -> Seq<
    (Seq<char>, ValueModel),
> {
    match value {
        Some(v) => seq![(key, v)],
        None => Seq::empty(),
    }
}

/// The text as a stored value, where there is a text.
pub open spec fn optional_text(text: Option<Seq<char>>) -> Option<ValueModel> {
    match text {
        Some(t) => Some(ValueModel::Text(t)),
        None => None,
    }
}

/// The field named `key` with the text, where there is a text.
pub open spec fn optional_text_field(key: Seq<char>, text: Option<Seq<char>>) -> Seq<
    (Seq<char>, ValueModel),
> {
    optional_field(key, optional_text(text))
}

/// An optional field is found under its name where it is there, and
/// nothing is found under any other name.
pub proof fn lemma_optional_field(key: Seq<char>, value: Option<ValueModel>, wanted: Seq<char>)
    ensures
        field_of(optional_field(key, value), wanted) == (if wanted == key {
            value
        } else {
            None
        }),
{
    let d = optional_field(key, value);
    reveal_with_fuel(unnamed_before, 2);
    if value is Some && wanted == key {
        lemma_field_found(d, 0);
    } else {
        lemma_field_not_found(d, wanted);
    }
}

/// A stored match as it is written: the match, the size of its blob, and
/// what is known of the blob's media type and character set.
pub open spec fn encoded_match_record(record: MatchRecordModel) -> Seq<(Seq<char>, ValueModel)> {
    seq![
        ("match"@, ValueModel::Document(encoded_match(record.match_val))),
        ("num_bytes"@, ValueModel::Int64(stored_count(record.blob_metadata.num_bytes))),
    ] + optional_text_field("mime_essence"@, record.blob_metadata.mime_essence)
        + optional_text_field("charset"@, record.blob_metadata.charset)
}

/// The stored match that a document holds; the blob's identifier is that
/// of the match.
pub open spec fn decoded_match_record(document: Seq<(Seq<char>, ValueModel)>) -> Result<
    MatchRecordModel,
    DecodeErrorModel,
> {
    match need_document(document, "match"@) {
        Err(e) => Err(e),
        Ok(inner) => match decoded_match(inner) {
            Err(e) => Err(e),
            Ok(match_val) => match need_count(document, "num_bytes"@) {
                Err(e) => Err(e),
                Ok(num_bytes) => Ok(
                    MatchRecordModel {
                        match_val,
                        blob_metadata: BlobMetadataModel {
                            id: match_val.blob_id,
                            num_bytes,
                            mime_essence: maybe_text(document, "mime_essence"@),
                            charset: maybe_text(document, "charset"@),
                        },
                    },
                ),
            },
        },
    }
}

fn insert_optional_text(document: &mut Document, key: &str, text: &Option<String>)
    requires
        field_of(old(document)@, key@) is None,
    ensures
        final(document)@ == old(document)@ + optional_text_field(key@, text.deep_view()),
{
    let ghost before = document@;
    match text {
        Some(t) => {
            document.insert(key, text_value(t.as_str()));
            assert(document@ =~= before + optional_text_field(key@, text.deep_view()));
        },
        None => {
            assert(document@ =~= before + optional_text_field(key@, text.deep_view()));
        },
    }
}

impl MatchRecord {
    /// The stored match as a document.
    pub fn to_document(&self) -> (document: Document)
        ensures
            document@ == encoded_match_record(self@),
    {
        proof {
            lemma_match_record_names();
            reveal_with_fuel(unnamed_before, 3);
        }
        let mut document = Document::new();
        document.insert("match", StoredValue::Document(self.match_val.to_document()));
        document.insert("num_bytes", count_value(self.blob_metadata.num_bytes));
        let ghost base = document@;
        proof {
            assert(base =~= seq![
                ("match"@, ValueModel::Document(encoded_match(self@.match_val))),
                ("num_bytes"@, ValueModel::Int64(stored_count(self@.blob_metadata.num_bytes))),
            ]);
            lemma_field_not_found(base, "mime_essence"@);
            lemma_field_not_found(base, "charset"@);
            lemma_absent_after_optional(
                base,
                "mime_essence"@,
                optional_text(self@.blob_metadata.mime_essence),
                "charset"@,
            );
        }
        insert_optional_text(&mut document, "mime_essence", &self.blob_metadata.mime_essence);
        insert_optional_text(&mut document, "charset", &self.blob_metadata.charset);
        document
    }

    /// The stored match that a document holds.
    pub fn from_document(document: &Document) -> (record: Result<MatchRecord, DecodeError>)
        ensures
            match decoded_match_record(document@) {
                Ok(model) => record matches Ok(v) && v@ == model,
                Err(e) => record matches Err(err) && err@ == e,
            },
    {
        let inner = read_document(document, "match")?;
        let match_val = Match::from_document(inner)?;
        let num_bytes = read_count(document, "num_bytes")?;
        let blob_metadata = BlobMetadata {
            id: match_val.blob_id,
            num_bytes,
            mime_essence: read_optional_text(document, "mime_essence"),
            charset: read_optional_text(document, "charset"),
        };
        Ok(MatchRecord { match_val, blob_metadata })
    }
}

/// A finding annotation as it is stored.
pub open spec fn encoded_finding_annotation(a: FindingAnnotationModel) -> Seq<
    (Seq<char>, ValueModel),
> {
    seq![
        ("finding_id"@, ValueModel::Text(a.finding_id)),
        ("rule_name"@, ValueModel::Text(a.rule_name)),
        ("rule_text_id"@, ValueModel::Text(a.rule_text_id)),
        ("rule_structural_id"@, ValueModel::Text(a.rule_structural_id)),
        ("groups"@, encoded_groups(a.groups)),
        ("comment"@, ValueModel::Text(a.comment)),
    ]
}

/// The finding annotation that a stored document holds.
pub open spec fn decoded_finding_annotation(document: Seq<(Seq<char>, ValueModel)>) -> Result<
    FindingAnnotationModel,
    DecodeErrorModel,
> {
    let finding_id = need_text(document, "finding_id"@);
    let rule_name = need_text(document, "rule_name"@);
    let rule_text_id = need_text(document, "rule_text_id"@);
    let rule_structural_id = need_text(document, "rule_structural_id"@);
    let groups = need_groups(document, "groups"@);
    let comment = need_text(document, "comment"@);
    if finding_id is Err {
        Err(finding_id->Err_0)
    } else if rule_name is Err {
        Err(rule_name->Err_0)
    } else if rule_text_id is Err {
        Err(rule_text_id->Err_0)
    } else if rule_structural_id is Err {
        Err(rule_structural_id->Err_0)
    } else if groups is Err {
        Err(groups->Err_0)
    } else if comment is Err {
        Err(comment->Err_0)
    } else {
        Ok(
            FindingAnnotationModel {
                finding_id: finding_id->Ok_0,
                rule_name: rule_name->Ok_0,
                rule_text_id: rule_text_id->Ok_0,
                rule_structural_id: rule_structural_id->Ok_0,
                groups: groups->Ok_0,
                comment: comment->Ok_0,
            },
        )
    }
}

impl FindingAnnotation {
    /// The annotation as a stored document.
    pub fn to_document(&self) -> (document: Document)
        ensures
            document@ == encoded_finding_annotation(self@),
    {
        proof {
            lemma_finding_annotation_names();
            reveal_with_fuel(unnamed_before, 7);
        }
        let mut document = Document::new();
        document.insert("finding_id", text_value(self.finding_id.as_str()));
        document.insert("rule_name", text_value(self.rule_name.as_str()));
        document.insert("rule_text_id", text_value(self.rule_text_id.as_str()));
        document.insert("rule_structural_id", text_value(self.rule_structural_id.as_str()));
        document.insert("groups", self.groups.to_value());
        document.insert("comment", text_value(self.comment.as_str()));
        assert(document@ =~= encoded_finding_annotation(self@));
        document
    }

    /// The annotation that a stored document holds.
    pub fn from_document(document: &Document) -> (a: Result<FindingAnnotation, DecodeError>)
        ensures
            match decoded_finding_annotation(document@) {
                Ok(model) => a matches Ok(v) && v@ == model,
                Err(e) => a matches Err(err) && err@ == e,
            },
    {
        let finding_id = read_text(document, "finding_id")?;
        let rule_name = read_text(document, "rule_name")?;
        let rule_text_id = read_text(document, "rule_text_id")?;
        let rule_structural_id = read_text(document, "rule_structural_id")?;
        let groups = read_groups(document, "groups")?;
        let comment = read_text(document, "comment")?;
        Ok(
            FindingAnnotation {
                finding_id,
                rule_name,
                rule_text_id,
                rule_structural_id,
                groups,
                comment,
            },
        )
    }
}

/// The status as a stored value, where there is a status.
pub open spec fn optional_status(status: Option<Status>) -> Option<ValueModel> {
    match status {
        Some(s) => Some(encoded_status(s)),
        None => None,
    }
}

/// The field `status` with the status, where there is a status.
pub open spec fn optional_status_field(status: Option<Status>) -> Seq<(Seq<char>, ValueModel)> {
    optional_field("status"@, optional_status(status))
}

/// A match annotation as it is stored.
pub open spec fn encoded_match_annotation(a: MatchAnnotationModel) -> Seq<(Seq<char>, ValueModel)> {
    seq![
        ("finding_id"@, ValueModel::Text(a.finding_id)),
        ("rule_name"@, ValueModel::Text(a.rule_name)),
        ("rule_text_id"@, ValueModel::Text(a.rule_text_id)),
        ("rule_structural_id"@, ValueModel::Text(a.rule_structural_id)),
        ("match_id"@, ValueModel::Text(a.match_id)),
        ("blob_id"@, ValueModel::Text(hex_text(a.blob_id))),
        ("start_byte"@, ValueModel::Int64(stored_count(a.start_byte))),
        ("end_byte"@, ValueModel::Int64(stored_count(a.end_byte))),
        ("groups"@, encoded_groups(a.groups)),
    ] + optional_status_field(a.status) + optional_text_field("comment"@, a.comment)
}

/// The status of the field `status`, where the document has that field.
pub open spec fn maybe_status(document: Seq<(Seq<char>, ValueModel)>) -> Result<
    Option<Status>,
    DecodeErrorModel,
> {
    match field_of(document, "status"@) {
        None => Ok(None),
        Some(value) => match decoded_status(value) {
            Ok(status) => Ok(Some(status)),
            Err(e) => Err(e),
        },
    }
}

/// The match annotation that a stored document holds.
pub open spec fn decoded_match_annotation(document: Seq<(Seq<char>, ValueModel)>) -> Result<
    MatchAnnotationModel,
    DecodeErrorModel,
> {
    let finding_id = need_text(document, "finding_id"@);
    let rule_name = need_text(document, "rule_name"@);
    let rule_text_id = need_text(document, "rule_text_id"@);
    let rule_structural_id = need_text(document, "rule_structural_id"@);
    let match_id = need_text(document, "match_id"@);
    let blob_id = need_blob_id(document, "blob_id"@);
    let start_byte = need_count(document, "start_byte"@);
    let end_byte = need_count(document, "end_byte"@);
    let groups = need_groups(document, "groups"@);
    let status = maybe_status(document);
    if finding_id is Err {
        Err(finding_id->Err_0)
    } else if rule_name is Err {
        Err(rule_name->Err_0)
    } else if rule_text_id is Err {
        Err(rule_text_id->Err_0)
    } else if rule_structural_id is Err {
        Err(rule_structural_id->Err_0)
    } else if match_id is Err {
        Err(match_id->Err_0)
    } else if blob_id is Err {
        Err(blob_id->Err_0)
    } else if start_byte is Err {
        Err(start_byte->Err_0)
    } else if end_byte is Err {
        Err(end_byte->Err_0)
    } else if groups is Err {
        Err(groups->Err_0)
    } else if status is Err {
        Err(status->Err_0)
    } else {
        Ok(
            MatchAnnotationModel {
                finding_id: finding_id->Ok_0,
                rule_name: rule_name->Ok_0,
                rule_text_id: rule_text_id->Ok_0,
                rule_structural_id: rule_structural_id->Ok_0,
                match_id: match_id->Ok_0,
                blob_id: blob_id->Ok_0,
                start_byte: start_byte->Ok_0,
                end_byte: end_byte->Ok_0,
                groups: groups->Ok_0,
                status: status->Ok_0,
                comment: maybe_text(document, "comment"@),
            },
        )
    }
}

fn read_optional_status(document: &Document) -> (status: Result<Option<Status>, DecodeError>)
    ensures
        match maybe_status(document@) {
            Ok(s) => status == Ok::<Option<Status>, DecodeError>(s),
            Err(e) => status matches Err(err) && err@ == e,
        },
{
    match document.get("status") {
        None => Ok(None),
        Some(value) => {
            let status = Status::from_value(value)?;
            Ok(Some(status))
        },
    }
}

impl MatchAnnotation {
    /// The annotation as a stored document.
    pub fn to_document(&self) -> (document: Document)
        ensures
            document@ == encoded_match_annotation(self@),
    {
        proof {
            lemma_match_annotation_names();
            reveal_with_fuel(unnamed_before, 10);
        }
        let mut document = Document::new();
        document.insert("finding_id", text_value(self.finding_id.as_str()));
        document.insert("rule_name", text_value(self.rule_name.as_str()));
        document.insert("rule_text_id", text_value(self.rule_text_id.as_str()));
        document.insert("rule_structural_id", text_value(self.rule_structural_id.as_str()));
        document.insert("match_id", text_value(self.match_id.as_str()));
        document.insert("blob_id", StoredValue::Text(self.blob_id.hex()));
        document.insert("start_byte", count_value(self.start_byte));
        document.insert("end_byte", count_value(self.end_byte));
        document.insert("groups", self.groups.to_value());
        let ghost base = document@;
        proof {
            lemma_field_not_found(base, "status"@);
            lemma_field_not_found(base, "comment"@);
            lemma_absent_after_optional(
                base,
                "status"@,
                optional_status(self@.status),
                "comment"@,
            );
        }
        match self.status {
            Some(status) => {
                document.insert("status", status.to_value());
            },
            None => {},
        }
        assert(document@ =~= base + optional_status_field(self@.status));
        insert_optional_text(&mut document, "comment", &self.comment);
        assert(document@ =~= encoded_match_annotation(self@));
        document
    }

    /// The annotation that a stored document holds.
    pub fn from_document(document: &Document) -> (a: Result<MatchAnnotation, DecodeError>)
        ensures
            match decoded_match_annotation(document@) {
                Ok(model) => a matches Ok(v) && v@ == model,
                Err(e) => a matches Err(err) && err@ == e,
            },
    {
        let finding_id = read_text(document, "finding_id")?;
        let rule_name = read_text(document, "rule_name")?;
        let rule_text_id = read_text(document, "rule_text_id")?;
        let rule_structural_id = read_text(document, "rule_structural_id")?;
        let match_id = read_text(document, "match_id")?;
        let blob_id = read_blob_id(document, "blob_id")?;
        let start_byte = read_count(document, "start_byte")?;
        let end_byte = read_count(document, "end_byte")?;
        let groups = read_groups(document, "groups")?;
        let status = read_optional_status(document)?;
        let comment = read_optional_text(document, "comment");
        Ok(
            MatchAnnotation {
                finding_id,
                rule_name,
                rule_text_id,
                rule_structural_id,
                match_id,
                blob_id,
                start_byte,
                end_byte,
                groups,
                status,
                comment,
            },
        )
    }
}

/// A provenance entry as it is stored.
pub open spec fn encoded_blob_target(entry: BlobTargetModel) -> Seq<(Seq<char>, ValueModel)> {
    seq![
        ("blob_id"@, ValueModel::Text(hex_text(entry.blob_id))),
        ("target"@, ValueModel::Document(encoded_target(entry.target))),
    ]
}

/// The provenance entry that a stored document holds.
pub open spec fn decoded_blob_target(document: Seq<(Seq<char>, ValueModel)>) -> Result<
    BlobTargetModel,
    DecodeErrorModel,
> {
    match need_blob_id(document, "blob_id"@) {
        Err(e) => Err(e),
        Ok(blob_id) => match need_document(document, "target"@) {
            Err(e) => Err(e),
            Ok(inner) => match decoded_target(inner) {
                Err(e) => Err(e),
                Ok(target) => Ok(BlobTargetModel { blob_id, target }),
            },
        },
    }
}

impl BlobTarget {
    /// The entry as a stored document.
    pub fn to_document(&self) -> (document: Document)
        ensures
            document@ == encoded_blob_target(self@),
    {
        proof {
            lemma_blob_target_names();
            reveal_with_fuel(unnamed_before, 3);
        }
        let mut document = Document::new();
        document.insert("blob_id", StoredValue::Text(self.blob_id.hex()));
        document.insert("target", StoredValue::Document(self.target.to_document()));
        assert(document@ =~= encoded_blob_target(self@));
        document
    }

    /// The entry that a stored document holds.
    pub fn from_document(document: &Document) -> (entry: Result<BlobTarget, DecodeError>)
        ensures
            match decoded_blob_target(document@) {
                Ok(model) => entry matches Ok(v) && v@ == model,
                Err(e) => entry matches Err(err) && err@ == e,
            },
    {
        let blob_id = read_blob_id(document, "blob_id")?;
        let inner = read_document(document, "target")?;
        let target = Target::from_document(inner)?;
        Ok(BlobTarget { blob_id, target })
    }
}

/// Matches as they are stored in a finding: the list of their documents.
pub open spec fn encoded_matches(matches: Seq<MatchModel>) -> Seq<ValueModel> {
    Seq::new(matches.len(), |i: int| ValueModel::Document(encoded_match(matches[i])))
}

/// The matches that a stored list holds; the first item that is no document
/// or cannot be read gives the error.
pub open spec fn decoded_matches(items: Seq<ValueModel>) -> Result<Seq<MatchModel>, DecodeErrorModel>
    decreases items.len(),
{
    if items.len() == 0 {
        Ok(Seq::empty())
    } else {
        match decoded_matches(items.drop_last()) {
            Err(e) => Err(e),
            Ok(front) => match items.last() {
                ValueModel::Document(inner) => match decoded_match(inner) {
                    Err(e) => Err(e),
                    Ok(m) => Ok(front.push(m)),
                },
                _ => Err(DecodeErrorModel::BadMatch),
            },
        }
    }
}

/// The matches of a stored finding; none where the finding has no list of them.
pub open spec fn maybe_matches(document: Seq<(Seq<char>, ValueModel)>) -> Result<
    Seq<MatchModel>,
    DecodeErrorModel,
> {
    match array_of(document, "matches"@) {
        Err(_) => Ok(Seq::empty()),
        Ok(items) => decoded_matches(items),
    }
}

/// The groups of a stored finding, where it has a list of them.
pub open spec fn maybe_groups(document: Seq<(Seq<char>, ValueModel)>) -> Result<
    Option<Seq<Seq<u8>>>,
    DecodeErrorModel,
> {
    match array_of(document, "groups"@) {
        Err(_) => Ok(None),
        Ok(items) => match decoded_groups(items) {
            Err(e) => Err(e),
            Ok(groups) => Ok(Some(groups)),
        },
    }
}

/// The statuses of a stored finding, where it has a list of them.
pub open spec fn maybe_statuses(document: Seq<(Seq<char>, ValueModel)>) -> Result<
    Option<Seq<Status>>,
    DecodeErrorModel,
> {
    match array_of(document, "statuses"@) {
        Err(_) => Ok(None),
        Ok(items) => match decoded_statuses(items) {
            Err(e) => Err(e),
            Ok(statuses) => Ok(Some(statuses)),
        },
    }
}

/// The groups as a stored value, where there are groups.
pub open spec fn optional_groups(groups: Option<Seq<Seq<u8>>>) -> Option<ValueModel> {
    match groups {
        Some(g) => Some(encoded_groups(g)),
        None => None,
    }
}

/// The statuses as a stored value, where there are statuses.
pub open spec fn optional_statuses(statuses: Option<Seq<Status>>) -> Option<ValueModel> {
    match statuses {
        Some(s) => Some(encoded_statuses(s)),
        None => None,
    }
}

/// A finding as it is stored: the fields that every finding has, and after
/// them the descriptors that this finding has.
pub open spec fn encoded_finding(f: FindingModel) -> Seq<(Seq<char>, ValueModel)> {
    seq![
        ("rule_name"@, ValueModel::Text(f.rule_name)),
        ("rule_structural_id"@, ValueModel::Text(f.rule_structural_id)),
        ("finding_id"@, ValueModel::Text(f.finding_id)),
        ("count"@, ValueModel::Int64(stored_count(f.count as usize))),
        ("matches"@, ValueModel::Array(encoded_matches(f.matches))),
        ("accept_count"@, ValueModel::Int64(stored_count(f.accept_count as usize))),
        ("reject_count"@, ValueModel::Int64(stored_count(f.reject_count as usize))),
        ("mixed_count"@, ValueModel::Int64(stored_count(f.mixed_count as usize))),
        ("unlabeled_count"@, ValueModel::Int64(stored_count(f.unlabeled_count as usize))),
    ] + optional_text_field("rule_text_id"@, f.rule_text_id) + optional_field(
        "groups"@,
        optional_groups(f.groups),
    ) + optional_text_field("comment"@, f.comment) + optional_field(
        "statuses"@,
        optional_statuses(f.statuses),
    )
}

/// The finding that a stored document holds. The rule's name and structural
/// identifier, the finding's identifier and the five counts must be there;
/// what else a finding may hold is read where it is there.
pub open spec fn decoded_finding(document: Seq<(Seq<char>, ValueModel)>) -> Result<
    FindingModel,
    DecodeErrorModel,
> {
    let rule_name = need_text(document, "rule_name"@);
    let rule_structural_id = need_text(document, "rule_structural_id"@);
    let finding_id = need_text(document, "finding_id"@);
    let count = need_count(document, "count"@);
    let matches = maybe_matches(document);
    let accept_count = need_count(document, "accept_count"@);
    let reject_count = need_count(document, "reject_count"@);
    let mixed_count = need_count(document, "mixed_count"@);
    let unlabeled_count = need_count(document, "unlabeled_count"@);
    let groups = maybe_groups(document);
    let statuses = maybe_statuses(document);
    if rule_name is Err {
        Err(rule_name->Err_0)
    } else if rule_structural_id is Err {
        Err(rule_structural_id->Err_0)
    } else if finding_id is Err {
        Err(finding_id->Err_0)
    } else if count is Err {
        Err(count->Err_0)
    } else if matches is Err {
        Err(matches->Err_0)
    } else if accept_count is Err {
        Err(accept_count->Err_0)
    } else if reject_count is Err {
        Err(reject_count->Err_0)
    } else if mixed_count is Err {
        Err(mixed_count->Err_0)
    } else if unlabeled_count is Err {
        Err(unlabeled_count->Err_0)
    } else if groups is Err {
        Err(groups->Err_0)
    } else if statuses is Err {
        Err(statuses->Err_0)
    } else {
        Ok(
            FindingModel {
                rule_name: rule_name->Ok_0,
                rule_structural_id: rule_structural_id->Ok_0,
                finding_id: finding_id->Ok_0,
                count: count->Ok_0 as nat,
                matches: matches->Ok_0,
                accept_count: accept_count->Ok_0 as nat,
                reject_count: reject_count->Ok_0 as nat,
                mixed_count: mixed_count->Ok_0 as nat,
                unlabeled_count: unlabeled_count->Ok_0 as nat,
                rule_text_id: maybe_text(document, "rule_text_id"@),
                groups: groups->Ok_0,
                comment: maybe_text(document, "comment"@),
                statuses: statuses->Ok_0,
            },
        )
    }
}

/// Matches as a list of stored documents.
pub fn matches_value(matches: &Vec<Match>) -> (value: StoredValue)
    ensures
        value_model(value) == ValueModel::Array(encoded_matches(matches.deep_view())),
{
    let mut items: Vec<StoredValue> = Vec::new();
    let mut i: usize = 0;
    while i < matches.len()
        invariant
            i <= matches.len(),
            items.len() == i,
            forall|k: int|
                0 <= k < i ==> value_model(#[trigger] items@[k]) == ValueModel::Document(
                    encoded_match(matches@[k]@),
                ),
        decreases matches.len() - i,
    {
        items.push(StoredValue::Document(matches[i].to_document()));
        i += 1;
    }
    assert(values_model(items@) =~= encoded_matches(matches.deep_view()));
    StoredValue::Array(items)
}

/// The matches that a stored list holds.
pub fn read_matches(items: &Vec<StoredValue>) -> (matches: Result<Vec<Match>, DecodeError>)
    ensures
        match decoded_matches(values_model(items@)) {
            Ok(m) => matches matches Ok(v) && v.deep_view() == m,
            Err(e) => matches matches Err(err) && err@ == e,
        },
{
    let ghost models = values_model(items@);
    let mut matches: Vec<Match> = Vec::new();
    let mut i: usize = 0;
    assert(models.take(0) =~= Seq::<ValueModel>::empty());
    assert(matches.deep_view() =~= Seq::<MatchModel>::empty());
    while i < items.len()
        invariant
            i <= items.len(),
            models == values_model(items@),
            decoded_matches(models.take(i as int)) == Ok::<Seq<MatchModel>, DecodeErrorModel>(
                matches.deep_view(),
            ),
        decreases items.len() - i,
    {
        let ghost before = matches.deep_view();
        proof {
            let now = models.take(i + 1);
            assert(now.drop_last() =~= models.take(i as int));
            assert(now.last() == models[i as int]);
            lemma_decoded_matches_stops(models, i + 1);
        }
        match &items[i] {
            StoredValue::Document(inner) => {
                let m = Match::from_document(inner)?;
                matches.push(m);
                assert(matches.deep_view() =~= before.push(m@));
            },
            _ => {
                return Err(DecodeError::BadMatch);
            },
        }
        i += 1;
    }
    assert(models.take(i as int) =~= models);
    Ok(matches)
}

/// An error in reading the first items of a list is the error in reading
/// the whole list.
pub proof fn lemma_decoded_matches_stops(items: Seq<ValueModel>, k: int)
    requires
        0 <= k <= items.len(),
    ensures
        decoded_matches(items.take(k)) is Err ==> decoded_matches(items) == decoded_matches(
            items.take(k),
        ),
    decreases items.len() - k,
{
    if k == items.len() {
        assert(items.take(k) =~= items);
    } else {
        lemma_decoded_matches_stops(items, k + 1);
        assert(items.take(k + 1).drop_last() =~= items.take(k));
    }
}

/// What an optional stored value holds.
pub open spec fn optional_model(value: Option<StoredValue>) -> Option<ValueModel> {
    match value {
        Some(v) => Some(value_model(v)),
        None => None,
    }
}

fn insert_optional(document: &mut Document, key: &str, value: Option<StoredValue>)
    requires
        field_of(old(document)@, key@) is None,
    ensures
        final(document)@ == old(document)@ + optional_field(key@, optional_model(value)),
{
    let ghost before = document@;
    let ghost model = optional_model(value);
    match value {
        Some(v) => {
            document.insert(key, v);
        },
        None => {},
    }
    assert(document@ =~= before + optional_field(key@, model));
}

impl Finding {
    /// The finding as a stored document.
    pub fn to_document(&self) -> (document: Document)
        ensures
            document@ == encoded_finding(self@),
    {
        proof {
            lemma_finding_names();
            reveal_with_fuel(unnamed_before, 10);
        }
        let mut document = Document::new();
        document.insert("rule_name", text_value(self.rule_name.as_str()));
        document.insert("rule_structural_id", text_value(self.rule_structural_id.as_str()));
        document.insert("finding_id", text_value(self.finding_id.as_str()));
        document.insert("count", count_value(self.count));
        document.insert("matches", matches_value(&self.matches));
        document.insert("accept_count", count_value(self.accept_count));
        document.insert("reject_count", count_value(self.reject_count));
        document.insert("mixed_count", count_value(self.mixed_count));
        document.insert("unlabeled_count", count_value(self.unlabeled_count));
        let ghost base = document@;
        proof {
            let v1 = optional_text(self@.rule_text_id);
            let v2 = optional_groups(self@.groups);
            let v3 = optional_text(self@.comment);
            let with1 = base + optional_field("rule_text_id"@, v1);
            let with2 = with1 + optional_field("groups"@, v2);
            lemma_field_not_found(base, "rule_text_id"@);
            lemma_field_not_found(base, "groups"@);
            lemma_field_not_found(base, "comment"@);
            lemma_field_not_found(base, "statuses"@);
            lemma_absent_after_optional(base, "rule_text_id"@, v1, "groups"@);
            lemma_absent_after_optional(base, "rule_text_id"@, v1, "comment"@);
            lemma_absent_after_optional(base, "rule_text_id"@, v1, "statuses"@);
            lemma_absent_after_optional(with1, "groups"@, v2, "comment"@);
            lemma_absent_after_optional(with1, "groups"@, v2, "statuses"@);
            lemma_absent_after_optional(with2, "comment"@, v3, "statuses"@);
        }
        insert_optional_text(&mut document, "rule_text_id", &self.rule_text_id);
        insert_optional(
            &mut document,
            "groups",
            match &self.groups {
                Some(groups) => Some(groups.to_value()),
                None => None,
            },
        );
        insert_optional_text(&mut document, "comment", &self.comment);
        insert_optional(
            &mut document,
            "statuses",
            match &self.statuses {
                Some(statuses) => Some(statuses.to_value()),
                None => None,
            },
        );
        assert(document@ =~= encoded_finding(self@));
        document
    }

    /// The finding that a stored document holds.
    pub fn from_document(document: &Document) -> (finding: Result<Finding, DecodeError>)
        ensures
            match decoded_finding(document@) {
                Ok(model) => finding matches Ok(v) && v@ == model,
                Err(e) => finding matches Err(err) && err@ == e,
            },
    {
        let rule_name = read_text(document, "rule_name")?;
        let rule_structural_id = read_text(document, "rule_structural_id")?;
        let finding_id = read_text(document, "finding_id")?;
        let count = read_count(document, "count")?;
        let matches = match document.get_array("matches") {
            Err(_) => {
                let none: Vec<Match> = Vec::new();
                assert(none.deep_view() =~= Seq::<MatchModel>::empty());
                none
            },
            Ok(items) => read_matches(items)?,
        };
        let accept_count = read_count(document, "accept_count")?;
        let reject_count = read_count(document, "reject_count")?;
        let mixed_count = read_count(document, "mixed_count")?;
        let unlabeled_count = read_count(document, "unlabeled_count")?;
        let groups = match document.get_array("groups") {
            Err(_) => None,
            Ok(items) => Some(Groups::from_values(items)?),
        };
        let statuses = match document.get_array("statuses") {
            Err(_) => None,
            Ok(items) => Some(Statuses::from_values(items)?),
        };
        Ok(
            Finding {
                rule_name,
                rule_structural_id,
                finding_id,
                count,
                matches,
                accept_count,
                reject_count,
                mixed_count,
                unlabeled_count,
                rule_text_id: read_optional_text(document, "rule_text_id"),
                groups,
                comment: read_optional_text(document, "comment"),
                statuses,
            },
        )
    }
}

/// Reading back a stored finding annotation gives the annotation.
pub proof fn lemma_finding_annotation_round_trip(a: FindingAnnotationModel)
    ensures
        decoded_finding_annotation(encoded_finding_annotation(a)) == Ok::<
            FindingAnnotationModel,
            DecodeErrorModel,
        >(a),
{
    let d = encoded_finding_annotation(a);
    lemma_finding_annotation_names();
    reveal_with_fuel(unnamed_before, 7);
    lemma_field_found(d, 0);
    lemma_field_found(d, 1);
    lemma_field_found(d, 2);
    lemma_field_found(d, 3);
    lemma_field_found(d, 4);
    lemma_field_found(d, 5);
    lemma_groups_round_trip(a.groups);
}

/// A field of the first of two lists of fields is found in both together.
pub proof fn lemma_base_field(
    base: Seq<(Seq<char>, ValueModel)>,
    tail: Seq<(Seq<char>, ValueModel)>,
    i: int,
)
    requires
        0 <= i < base.len(),
        unnamed_before(base, base[i].0, i),
    ensures
        field_of(base + tail, base[i].0) == Some(base[i].1),
{
    lemma_field_found(base, i);
    lemma_field_of_concat(base, tail, base[i].0);
}

/// A name that the first of two lists of fields lacks is looked up in the second.
pub proof fn lemma_tail_field(
    base: Seq<(Seq<char>, ValueModel)>,
    tail: Seq<(Seq<char>, ValueModel)>,
    key: Seq<char>,
)
    requires
        unnamed_before(base, key, base.len() as int),
    ensures
        field_of(base + tail, key) == field_of(tail, key),
{
    lemma_field_not_found(base, key);
    lemma_field_of_concat(base, tail, key);
}

/// Whether a count is stored as it is.
pub open spec fn fits_stored(count: nat) -> bool {
    count <= i64::MAX && count <= usize::MAX
}

/// Whether a match is stored without loss: its blob identifier has 20
/// bytes, and its offsets, lines and columns are stored as they are.
pub open spec fn storable_match(m: MatchModel) -> bool {
    &&& m.blob_id.len() == 20
    &&& fits_stored(m.location.offset_span.start as nat)
    &&& fits_stored(m.location.offset_span.end as nat)
    &&& fits_stored(m.location.source_span.start.line as nat)
    &&& fits_stored(m.location.source_span.start.column as nat)
    &&& fits_stored(m.location.source_span.end.line as nat)
    &&& fits_stored(m.location.source_span.end.column as nat)
}

/// Reading back a stored match gives the match.
pub proof fn lemma_match_round_trip(m: MatchModel)
    requires
        storable_match(m),
    ensures
        decoded_match(encoded_match(m)) == Ok::<MatchModel, DecodeErrorModel>(m),
{
    let d = encoded_match(m);
    lemma_match_names();
    reveal_with_fuel(unnamed_before, 16);
    lemma_field_found(d, 0);
    lemma_field_found(d, 1);
    lemma_field_found(d, 2);
    lemma_field_found(d, 3);
    lemma_field_found(d, 4);
    lemma_field_found(d, 5);
    lemma_field_found(d, 6);
    lemma_field_found(d, 7);
    lemma_field_found(d, 8);
    lemma_field_found(d, 9);
    lemma_field_found(d, 10);
    lemma_field_found(d, 11);
    lemma_field_found(d, 12);
    lemma_field_found(d, 13);
    lemma_field_found(d, 14);
    lemma_hex_round_trip(m.blob_id);
    lemma_groups_round_trip(m.groups);
}

/// Reading back stored matches gives the matches.
pub proof fn lemma_matches_round_trip(matches: Seq<MatchModel>)
    requires
        forall|i: int| 0 <= i < matches.len() ==> storable_match(#[trigger] matches[i]),
    ensures
        decoded_matches(encoded_matches(matches)) == Ok::<Seq<MatchModel>, DecodeErrorModel>(
            matches,
        ),
    decreases matches.len(),
{
    let items = encoded_matches(matches);
    if matches.len() > 0 {
        let front = matches.drop_last();
        lemma_matches_round_trip(front);
        assert(items.drop_last() =~= encoded_matches(front));
        lemma_match_round_trip(matches.last());
        assert(front.push(matches.last()) =~= matches);
    } else {
        assert(matches =~= Seq::<MatchModel>::empty());
    }
}

/// Reading back a stored match record gives the record, where the blob of
/// the record is that of its match.
pub proof fn lemma_match_record_round_trip(record: MatchRecordModel)
    requires
        storable_match(record.match_val),
        fits_stored(record.blob_metadata.num_bytes as nat),
        record.blob_metadata.id == record.match_val.blob_id,
    ensures
        decoded_match_record(encoded_match_record(record)) == Ok::<
            MatchRecordModel,
            DecodeErrorModel,
        >(record),
{
    let base = seq![
        ("match"@, ValueModel::Document(encoded_match(record.match_val))),
        ("num_bytes"@, ValueModel::Int64(stored_count(record.blob_metadata.num_bytes))),
    ];
    let mime = optional_text_field("mime_essence"@, record.blob_metadata.mime_essence);
    let charset = optional_text_field("charset"@, record.blob_metadata.charset);
    let d = encoded_match_record(record);
    assert(d =~= base + (mime + charset));
    lemma_match_record_names();
    reveal_with_fuel(unnamed_before, 3);
    lemma_base_field(base, mime + charset, 0);
    lemma_base_field(base, mime + charset, 1);
    lemma_tail_field(base, mime + charset, "mime_essence"@);
    lemma_tail_field(base, mime + charset, "charset"@);
    lemma_field_of_concat(mime, charset, "mime_essence"@);
    lemma_field_of_concat(mime, charset, "charset"@);
    lemma_optional_field(
        "mime_essence"@,
        optional_text(record.blob_metadata.mime_essence),
        "mime_essence"@,
    );
    lemma_optional_field(
        "mime_essence"@,
        optional_text(record.blob_metadata.mime_essence),
        "charset"@,
    );
    lemma_optional_field("charset"@, optional_text(record.blob_metadata.charset), "charset"@);
    lemma_optional_field(
        "charset"@,
        optional_text(record.blob_metadata.charset),
        "mime_essence"@,
    );
    lemma_match_round_trip(record.match_val);
}

/// Whether a match annotation is stored without loss.
pub open spec fn storable_match_annotation(a: MatchAnnotationModel) -> bool {
    &&& a.blob_id.len() == 20
    &&& fits_stored(a.start_byte as nat)
    &&& fits_stored(a.end_byte as nat)
}

/// Reading back a stored match annotation gives the annotation.
pub proof fn lemma_match_annotation_round_trip(a: MatchAnnotationModel)
    requires
        storable_match_annotation(a),
    ensures
        decoded_match_annotation(encoded_match_annotation(a)) == Ok::<
            MatchAnnotationModel,
            DecodeErrorModel,
        >(a),
{
    let base = seq![
        ("finding_id"@, ValueModel::Text(a.finding_id)),
        ("rule_name"@, ValueModel::Text(a.rule_name)),
        ("rule_text_id"@, ValueModel::Text(a.rule_text_id)),
        ("rule_structural_id"@, ValueModel::Text(a.rule_structural_id)),
        ("match_id"@, ValueModel::Text(a.match_id)),
        ("blob_id"@, ValueModel::Text(hex_text(a.blob_id))),
        ("start_byte"@, ValueModel::Int64(stored_count(a.start_byte))),
        ("end_byte"@, ValueModel::Int64(stored_count(a.end_byte))),
        ("groups"@, encoded_groups(a.groups)),
    ];
    let status = optional_status_field(a.status);
    let comment = optional_text_field("comment"@, a.comment);
    let tail = status + comment;
    let d = encoded_match_annotation(a);
    assert(d =~= base + tail);
    lemma_match_annotation_names();
    reveal_with_fuel(unnamed_before, 10);
    lemma_base_field(base, tail, 0);
    lemma_base_field(base, tail, 1);
    lemma_base_field(base, tail, 2);
    lemma_base_field(base, tail, 3);
    lemma_base_field(base, tail, 4);
    lemma_base_field(base, tail, 5);
    lemma_base_field(base, tail, 6);
    lemma_base_field(base, tail, 7);
    lemma_base_field(base, tail, 8);
    lemma_tail_field(base, tail, "status"@);
    lemma_tail_field(base, tail, "comment"@);
    lemma_field_of_concat(status, comment, "status"@);
    lemma_field_of_concat(status, comment, "comment"@);
    lemma_optional_field("status"@, optional_status(a.status), "status"@);
    lemma_optional_field("status"@, optional_status(a.status), "comment"@);
    lemma_optional_field("comment"@, optional_text(a.comment), "status"@);
    lemma_optional_field("comment"@, optional_text(a.comment), "comment"@);
    lemma_hex_round_trip(a.blob_id);
    lemma_groups_round_trip(a.groups);
    if a.status is Some {
        lemma_status_text_round_trip(a.status->0);
    }
}

/// Reading back a stored provenance entry gives the entry with the target
/// that `reread_target` says.
pub proof fn lemma_blob_target_round_trip(entry: BlobTargetModel)
    requires
        entry.blob_id.len() == 20,
    ensures
        decoded_blob_target(encoded_blob_target(entry)) == (match reread_target(entry.target) {
            Ok(target) => Ok(BlobTargetModel { blob_id: entry.blob_id, target }),
            Err(e) => Err(e),
        }),
{
    let d = encoded_blob_target(entry);
    lemma_blob_target_names();
    reveal_with_fuel(unnamed_before, 3);
    lemma_field_found(d, 0);
    lemma_field_found(d, 1);
    lemma_hex_round_trip(entry.blob_id);
    lemma_target_round_trip(entry.target);
}

/// Whether a finding is stored without loss.
pub open spec fn storable_finding(f: FindingModel) -> bool {
    &&& fits_stored(f.count)
    &&& fits_stored(f.accept_count)
    &&& fits_stored(f.reject_count)
    &&& fits_stored(f.mixed_count)
    &&& fits_stored(f.unlabeled_count)
    &&& forall|i: int| 0 <= i < f.matches.len() ==> storable_match(#[trigger] f.matches[i])
}

/// Four optional fields of different names, one after the other: each is
/// found under its name where it is there.
pub proof fn lemma_four_optional_fields(
    k1: Seq<char>,
    v1: Option<ValueModel>,
    k2: Seq<char>,
    v2: Option<ValueModel>,
    k3: Seq<char>,
    v3: Option<ValueModel>,
    k4: Seq<char>,
    v4: Option<ValueModel>,
    wanted: Seq<char>,
)
    requires
        k1 != k2,
        k1 != k3,
        k1 != k4,
        k2 != k3,
        k2 != k4,
        k3 != k4,
    ensures
        field_of(
            optional_field(k1, v1) + (optional_field(k2, v2) + (optional_field(k3, v3)
                + optional_field(k4, v4))),
            wanted,
        ) == (if wanted == k1 {
            v1
        } else if wanted == k2 {
            v2
        } else if wanted == k3 {
            v3
        } else if wanted == k4 {
            v4
        } else {
            None
        }),
{
    let t1 = optional_field(k1, v1);
    let t2 = optional_field(k2, v2);
    let t3 = optional_field(k3, v3);
    let t4 = optional_field(k4, v4);
    lemma_field_of_concat(t1, t2 + (t3 + t4), wanted);
    lemma_field_of_concat(t2, t3 + t4, wanted);
    lemma_field_of_concat(t3, t4, wanted);
    lemma_optional_field(k1, v1, wanted);
    lemma_optional_field(k2, v2, wanted);
    lemma_optional_field(k3, v3, wanted);
    lemma_optional_field(k4, v4, wanted);
}

/// Reading back a stored finding gives the finding.
pub proof fn lemma_finding_round_trip(f: FindingModel)
    requires
        storable_finding(f),
    ensures
        decoded_finding(encoded_finding(f)) == Ok::<FindingModel, DecodeErrorModel>(f),
{
    let base = seq![
        ("rule_name"@, ValueModel::Text(f.rule_name)),
        ("rule_structural_id"@, ValueModel::Text(f.rule_structural_id)),
        ("finding_id"@, ValueModel::Text(f.finding_id)),
        ("count"@, ValueModel::Int64(stored_count(f.count as usize))),
        ("matches"@, ValueModel::Array(encoded_matches(f.matches))),
        ("accept_count"@, ValueModel::Int64(stored_count(f.accept_count as usize))),
        ("reject_count"@, ValueModel::Int64(stored_count(f.reject_count as usize))),
        ("mixed_count"@, ValueModel::Int64(stored_count(f.mixed_count as usize))),
        ("unlabeled_count"@, ValueModel::Int64(stored_count(f.unlabeled_count as usize))),
    ];
    let v1 = optional_text(f.rule_text_id);
    let v2 = optional_groups(f.groups);
    let v3 = optional_text(f.comment);
    let v4 = optional_statuses(f.statuses);
    let tail = optional_field("rule_text_id"@, v1) + (optional_field("groups"@, v2) + (
    optional_field("comment"@, v3) + optional_field("statuses"@, v4)));
    let d = encoded_finding(f);
    assert(d =~= base + tail);
    lemma_finding_names();
    reveal_with_fuel(unnamed_before, 10);
    lemma_base_field(base, tail, 0);
    lemma_base_field(base, tail, 1);
    lemma_base_field(base, tail, 2);
    lemma_base_field(base, tail, 3);
    lemma_base_field(base, tail, 4);
    lemma_base_field(base, tail, 5);
    lemma_base_field(base, tail, 6);
    lemma_base_field(base, tail, 7);
    lemma_base_field(base, tail, 8);
    lemma_tail_field(base, tail, "rule_text_id"@);
    lemma_tail_field(base, tail, "groups"@);
    lemma_tail_field(base, tail, "comment"@);
    lemma_tail_field(base, tail, "statuses"@);
    lemma_four_optional_fields(
        "rule_text_id"@,
        v1,
        "groups"@,
        v2,
        "comment"@,
        v3,
        "statuses"@,
        v4,
        "rule_text_id"@,
    );
    lemma_four_optional_fields(
        "rule_text_id"@,
        v1,
        "groups"@,
        v2,
        "comment"@,
        v3,
        "statuses"@,
        v4,
        "groups"@,
    );
    lemma_four_optional_fields(
        "rule_text_id"@,
        v1,
        "groups"@,
        v2,
        "comment"@,
        v3,
        "statuses"@,
        v4,
        "comment"@,
    );
    lemma_four_optional_fields(
        "rule_text_id"@,
        v1,
        "groups"@,
        v2,
        "comment"@,
        v3,
        "statuses"@,
        v4,
        "statuses"@,
    );
    lemma_matches_round_trip(f.matches);
    if f.groups is Some {
        lemma_groups_round_trip(f.groups->0);
    }
    if f.statuses is Some {
        lemma_statuses_round_trip(f.statuses->0);
    }
}

} // verus!
