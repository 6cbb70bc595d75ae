//! How records are written as stored documents and read back. A document
//! that lacks a field it must have, or holds a value of another shape, is
//! an error.

use vstd::prelude::*;
use vstd::utf8::*;

use crate::blob_id::{parse_blob_id, BlobId, BlobIdParseError};
use crate::datastore::status::{
    lemma_status_text_round_trip,
    parse_status,
    status_text,
    Status,
    Statuses,
};
use crate::document::{
    array_of,
    bytes_of,
    document_of,
    int_of,
    text_of,
    value_model,
    values_model,
    AccessError,
    Document,
    StoredValue,
    ValueModel,
};
use crate::match_type::{Group, Groups};

verus! {

/// Why a stored document could not be read as a record.
#[derive(Debug, PartialEq, Eq)]
pub enum DecodeError {
    /// A field that the record must have is missing or of another kind.
    Field { key: &'static str, problem: AccessError },
    /// A count is negative or more than a `usize` can hold.
    BadCount { key: &'static str },
    /// A status is spelled neither `accept` nor `reject`, or is no text.
    BadStatus,
    /// A group is neither bytes nor text.
    BadGroup,
    /// A blob identifier is not 40 hexadecimal digits.
    BadBlobId { reason: BlobIdParseError },
    /// A target is of a kind that is not known.
    BadKind,
    /// The value of an extended target is not JSON.
    BadJson,
    /// An item of a list of matches is no document.
    BadMatch,
}

/// What a decode error says.
pub enum DecodeErrorModel {
    Field { key: Seq<char>, problem: AccessError },
    BadCount { key: Seq<char> },
    BadStatus,
    BadGroup,
    BadBlobId { reason: BlobIdParseError },
    BadKind,
    BadJson,
    BadMatch,
}

impl View for DecodeError {
    type V = DecodeErrorModel;

    open spec fn view(&self) -> DecodeErrorModel {
        match self {
            DecodeError::Field { key, problem } => DecodeErrorModel::Field {
                key: key@,
                problem: *problem,
            },
            DecodeError::BadCount { key } => DecodeErrorModel::BadCount { key: key@ },
            DecodeError::BadStatus => DecodeErrorModel::BadStatus,
            DecodeError::BadGroup => DecodeErrorModel::BadGroup,
            DecodeError::BadBlobId { reason } => DecodeErrorModel::BadBlobId { reason: *reason },
            DecodeError::BadKind => DecodeErrorModel::BadKind,
            DecodeError::BadJson => DecodeErrorModel::BadJson,
            DecodeError::BadMatch => DecodeErrorModel::BadMatch,
        }
    }
}

/// The text of a field that must be there.
pub open spec fn need_text(document: Seq<(Seq<char>, ValueModel)>, key: Seq<char>) -> Result<
    Seq<char>,
    DecodeErrorModel,
> {
    match text_of(document, key) {
        Ok(text) => Ok(text),
        Err(problem) => Err(DecodeErrorModel::Field { key, problem }),
    }
}

/// The text of a field that may be missing; a field of another kind counts
/// as missing.
pub open spec fn maybe_text(document: Seq<(Seq<char>, ValueModel)>, key: Seq<char>) -> Option<
    Seq<char>,
> {
    match text_of(document, key) {
        Ok(text) => Some(text),
        Err(_) => None,
    }
}

/// The count of a field that must be there.
pub open spec fn need_count(document: Seq<(Seq<char>, ValueModel)>, key: Seq<char>) -> Result<
    usize,
    DecodeErrorModel,
> {
    match int_of(document, key) {
        Err(problem) => Err(DecodeErrorModel::Field { key, problem }),
        Ok(number) => if 0 <= number <= usize::MAX {
            Ok(number as usize)
        } else {
            Err(DecodeErrorModel::BadCount { key })
        },
    }
}

/// The integer of a field that must be there.
pub open spec fn need_int(document: Seq<(Seq<char>, ValueModel)>, key: Seq<char>) -> Result<
    i64,
    DecodeErrorModel,
> {
    match int_of(document, key) {
        Ok(number) => Ok(number),
        Err(problem) => Err(DecodeErrorModel::Field { key, problem }),
    }
}

/// The bytes of a field that must be there.
pub open spec fn need_bytes(document: Seq<(Seq<char>, ValueModel)>, key: Seq<char>) -> Result<
    Seq<u8>,
    DecodeErrorModel,
> {
    match bytes_of(document, key) {
        Ok(bytes) => Ok(bytes),
        Err(problem) => Err(DecodeErrorModel::Field { key, problem }),
    }
}

/// The list of a field that must be there.
pub open spec fn need_array(document: Seq<(Seq<char>, ValueModel)>, key: Seq<char>) -> Result<
    Seq<ValueModel>,
    DecodeErrorModel,
> {
    match array_of(document, key) {
        Ok(items) => Ok(items),
        Err(problem) => Err(DecodeErrorModel::Field { key, problem }),
    }
}

/// The document of a field that must be there.
pub open spec fn need_document(document: Seq<(Seq<char>, ValueModel)>, key: Seq<char>) -> Result<
    Seq<(Seq<char>, ValueModel)>,
    DecodeErrorModel,
> {
    match document_of(document, key) {
        Ok(inner) => Ok(inner),
        Err(problem) => Err(DecodeErrorModel::Field { key, problem }),
    }
}

/// The blob identifier of a field that must be there, written in hexadecimal.
pub open spec fn need_blob_id(document: Seq<(Seq<char>, ValueModel)>, key: Seq<char>) -> Result<
    Seq<u8>,
    DecodeErrorModel,
> {
    match need_text(document, key) {
        Err(e) => Err(e),
        Ok(text) => match parse_blob_id(text) {
            Ok(bytes) => Ok(bytes),
            Err(reason) => Err(DecodeErrorModel::BadBlobId { reason }),
        },
    }
}

/// The count as it is stored: the largest stored number where it is more.
pub open spec fn stored_count(count: usize) -> i64 {
    if count <= i64::MAX {
        count as i64
    } else {
        i64::MAX
    }
}

/// Reads the text of a field that must be there.
pub fn read_text(document: &Document, key: &'static str) -> (text: Result<String, DecodeError>)
    ensures
        match need_text(document@, key@) {
            Ok(t) => text matches Ok(s) && s@ == t,
            Err(e) => text matches Err(err) && err@ == e,
        },
{
    match document.get_str(key) {
        Ok(text) => Ok(text.to_owned()),
        Err(problem) => Err(DecodeError::Field { key, problem }),
    }
}

/// Reads the text of a field that may be missing.
pub fn read_optional_text(document: &Document, key: &str) -> (text: Option<String>)
    ensures
        text.deep_view() == maybe_text(document@, key@),
{
    match document.get_str(key) {
        Ok(text) => Some(text.to_owned()),
        Err(_) => None,
    }
}

/// Reads the count of a field that must be there.
pub fn read_count(document: &Document, key: &'static str) -> (count: Result<usize, DecodeError>)
    ensures
        match need_count(document@, key@) {
            Ok(n) => count == Ok::<usize, DecodeError>(n),
            Err(e) => count matches Err(err) && err@ == e,
        },
{
    match document.get_i64(key) {
        Err(problem) => Err(DecodeError::Field { key, problem }),
        Ok(number) => {
            if number >= 0 && number as u64 as u128 <= usize::MAX as u128 {
                Ok(number as usize)
            } else {
                Err(DecodeError::BadCount { key })
            }
        },
    }
}

/// Reads the integer of a field that must be there.
pub fn read_int(document: &Document, key: &'static str) -> (number: Result<i64, DecodeError>)
    ensures
        match need_int(document@, key@) {
            Ok(n) => number == Ok::<i64, DecodeError>(n),
            Err(e) => number matches Err(err) && err@ == e,
        },
{
    match document.get_i64(key) {
        Ok(number) => Ok(number),
        Err(problem) => Err(DecodeError::Field { key, problem }),
    }
}

/// Reads the bytes of a field that must be there.
pub fn read_bytes(document: &Document, key: &'static str) -> (bytes: Result<Vec<u8>, DecodeError>)
    ensures
        match need_bytes(document@, key@) {
            Ok(b) => bytes matches Ok(v) && v@ == b,
            Err(e) => bytes matches Err(err) && err@ == e,
        },
{
    match document.get_binary(key) {
        Ok(bytes) => Ok(bytes.clone()),
        Err(problem) => Err(DecodeError::Field { key, problem }),
    }
}

/// Reads the list of a field that must be there.
pub fn read_array<'a>(document: &'a Document, key: &'static str) -> (items: Result<
    &'a Vec<StoredValue>,
    DecodeError,
>)
    ensures
        match need_array(document@, key@) {
            Ok(a) => items matches Ok(v) && values_model(v@) == a,
            Err(e) => items matches Err(err) && err@ == e,
        },
{
    match document.get_array(key) {
        Ok(items) => Ok(items),
        Err(problem) => Err(DecodeError::Field { key, problem }),
    }
}

/// Reads the document of a field that must be there.
pub fn read_document<'a>(document: &'a Document, key: &'static str) -> (inner: Result<
    &'a Document,
    DecodeError,
>)
    ensures
        match need_document(document@, key@) {
            Ok(d) => inner matches Ok(v) && v@ == d,
            Err(e) => inner matches Err(err) && err@ == e,
        },
{
    match document.get_document(key) {
        Ok(inner) => Ok(inner),
        Err(problem) => Err(DecodeError::Field { key, problem }),
    }
}

/// Reads the blob identifier of a field that must be there.
pub fn read_blob_id(document: &Document, key: &'static str) -> (id: Result<BlobId, DecodeError>)
    ensures
        match need_blob_id(document@, key@) {
            Ok(b) => id matches Ok(v) && v@ == b,
            Err(e) => id matches Err(err) && err@ == e,
        },
{
    match document.get_str(key) {
        Err(problem) => Err(DecodeError::Field { key, problem }),
        Ok(text) => match BlobId::from_hex(text) {
            Ok(id) => Ok(id),
            Err(reason) => Err(DecodeError::BadBlobId { reason }),
        },
    }
}

/// A count as a stored value.
pub fn count_value(count: usize) -> (value: StoredValue)
    ensures
        value_model(value) == ValueModel::Int64(stored_count(count)),
{
    if count as u128 <= i64::MAX as u128 {
        StoredValue::Int64(count as i64)
    } else {
        StoredValue::Int64(i64::MAX)
    }
}

/// A text as a stored value.
pub fn text_value(text: &str) -> (value: StoredValue)
    ensures
        value_model(value) == ValueModel::Text(text@),
{
    StoredValue::Text(text.to_owned())
}

/// Bytes as a stored value.
pub fn bytes_value(bytes: &Vec<u8>) -> (value: StoredValue)
    ensures
        value_model(value) == ValueModel::Binary(bytes@),
{
    StoredValue::Binary(bytes.clone())
}

/// A status as it is stored: its spelling.
pub open spec fn encoded_status(status: Status) -> ValueModel {
    ValueModel::Text(status_text(status))
}

/// The status that a stored value spells.
pub open spec fn decoded_status(value: ValueModel) -> Result<Status, DecodeErrorModel> {
    match value {
        ValueModel::Text(text) => match parse_status(text) {
            Ok(status) => Ok(status),
            Err(_) => Err(DecodeErrorModel::BadStatus),
        },
        _ => Err(DecodeErrorModel::BadStatus),
    }
}

/// Statuses as they are stored: the list of their spellings.
pub open spec fn encoded_statuses(statuses: Seq<Status>) -> ValueModel {
    ValueModel::Array(Seq::new(statuses.len(), |i: int| encoded_status(statuses[i])))
}

/// The statuses that a stored list spells, where every item spells one.
pub open spec fn decoded_statuses(items: Seq<ValueModel>) -> Result<Seq<Status>, DecodeErrorModel> {
    if forall|i: int| 0 <= i < items.len() ==> (#[trigger] decoded_status(items[i])) is Ok {
        Ok(Seq::new(items.len(), |i: int| decoded_status(items[i])->Ok_0))
    } else {
        Err(DecodeErrorModel::BadStatus)
    }
}

/// The bytes of a group that a stored value holds: bytes as they are, and
/// text as its UTF-8 encoding.
pub open spec fn decoded_group(value: ValueModel) -> Option<Seq<u8>> {
    match value {
        ValueModel::Binary(bytes) => Some(bytes),
        ValueModel::Text(text) => Some(encode_utf8(text)),
        _ => None,
    }
}

/// Groups as they are stored: the list of their bytes.
pub open spec fn encoded_groups(groups: Seq<Seq<u8>>) -> ValueModel {
    ValueModel::Array(Seq::new(groups.len(), |i: int| ValueModel::Binary(groups[i])))
}

/// The groups that a stored list holds, where every item holds one.
pub open spec fn decoded_groups(items: Seq<ValueModel>) -> Result<Seq<Seq<u8>>, DecodeErrorModel> {
    if forall|i: int| 0 <= i < items.len() ==> (#[trigger] decoded_group(items[i])) is Some {
        Ok(Seq::new(items.len(), |i: int| decoded_group(items[i])->0))
    } else {
        Err(DecodeErrorModel::BadGroup)
    }
}

/// Reading back stored statuses gives the statuses.
pub proof fn lemma_statuses_round_trip(statuses: Seq<Status>)
    ensures
        decoded_statuses(encoded_statuses(statuses)->Array_0) == Ok::<
            Seq<Status>,
            DecodeErrorModel,
        >(statuses),
{
    let items = encoded_statuses(statuses)->Array_0;
    assert forall|i: int| 0 <= i < items.len() implies (#[trigger] decoded_status(items[i]))
        == Ok::<Status, DecodeErrorModel>(statuses[i]) by {
        lemma_status_text_round_trip(statuses[i]);
    }
    assert(Seq::new(items.len(), |i: int| decoded_status(items[i])->Ok_0) =~= statuses);
}

/// Reading back stored groups gives the groups.
pub proof fn lemma_groups_round_trip(groups: Seq<Seq<u8>>)
    ensures
        decoded_groups(encoded_groups(groups)->Array_0) == Ok::<
            Seq<Seq<u8>>,
            DecodeErrorModel,
        >(groups),
{
    let items = encoded_groups(groups)->Array_0;
    assert forall|i: int| 0 <= i < items.len() implies (#[trigger] decoded_group(items[i]))
        == Some(groups[i]) by {}
    assert(Seq::new(items.len(), |i: int| decoded_group(items[i])->0) =~= groups);
}

impl Status {
    /// The status as a stored value.
    pub fn to_value(&self) -> (value: StoredValue)
        ensures
            value_model(value) == encoded_status(*self),
    {
        StoredValue::Text(self.to_string())
    }

    /// The status that a stored value spells.
    pub fn from_value(value: &StoredValue) -> (status: Result<Status, DecodeError>)
        ensures
            match decoded_status(value_model(*value)) {
                Ok(s) => status == Ok::<Status, DecodeError>(s),
                Err(e) => status matches Err(err) && err@ == e,
            },
    {
        match value {
            StoredValue::Text(text) => match Status::from_str(text.as_str()) {
                Ok(status) => Ok(status),
                Err(_) => Err(DecodeError::BadStatus),
            },
            _ => Err(DecodeError::BadStatus),
        }
    }
}

impl Statuses {
    /// The statuses as a stored value.
    pub fn to_value(&self) -> (value: StoredValue)
        ensures
            value_model(value) == encoded_statuses(self@),
    {
        let mut items: Vec<StoredValue> = Vec::new();
        let n = self.len();
        let mut i: usize = 0;
        while i < n
            invariant
                i <= n,
                n == self@.len(),
                items.len() == i,
                forall|k: int|
                    0 <= k < i ==> value_model(#[trigger] items@[k]) == encoded_status(self@[k]),
            decreases n - i,
        {
            match self.get(i) {
                Some(status) => {
                    items.push(status.to_value());
                },
                None => {},
            }
            i += 1;
        }
        assert(values_model(items@) =~= encoded_statuses(self@)->Array_0);
        StoredValue::Array(items)
    }

    /// The statuses that a stored list spells.
    pub fn from_values(items: &Vec<StoredValue>) -> (statuses: Result<Statuses, DecodeError>)
        ensures
            match decoded_statuses(values_model(items@)) {
                Ok(s) => statuses matches Ok(v) && v@ == s,
                Err(e) => statuses matches Err(err) && err@ == e,
            },
    {
        let ghost models = values_model(items@);
        let mut statuses = Statuses::new();
        let mut i: usize = 0;
        while i < items.len()
            invariant
                i <= items.len(),
                models == values_model(items@),
                statuses@.len() == i,
                forall|k: int|
                    0 <= k < i ==> (#[trigger] decoded_status(models[k]))
                        == Ok::<Status, DecodeErrorModel>(statuses@[k]),
            decreases items.len() - i,
        {
            match Status::from_value(&items[i]) {
                Ok(status) => {
                    statuses.push(status);
                },
                Err(e) => {
                    assert(decoded_status(models[i as int]) is Err);
                    return Err(DecodeError::BadStatus);
                },
            }
            i += 1;
        }
        assert(statuses@ =~= Seq::new(models.len(), |i: int| decoded_status(models[i])->Ok_0));
        Ok(statuses)
    }
}

impl Groups {
    /// The groups as a stored value.
    pub fn to_value(&self) -> (value: StoredValue)
        ensures
            value_model(value) == encoded_groups(self@),
    {
        let mut items: Vec<StoredValue> = Vec::new();
        let n = self.len();
        let mut i: usize = 0;
        while i < n
            invariant
                i <= n,
                n == self@.len(),
                items.len() == i,
                forall|k: int|
                    0 <= k < i ==> value_model(#[trigger] items@[k]) == ValueModel::Binary(self@[k]),
            decreases n - i,
        {
            match self.get(i) {
                Some(group) => {
                    items.push(StoredValue::Binary(group.0.clone()));
                },
                None => {},
            }
            i += 1;
        }
        assert(values_model(items@) =~= encoded_groups(self@)->Array_0);
        StoredValue::Array(items)
    }

    /// The groups that a stored list holds.
    pub fn from_values(items: &Vec<StoredValue>) -> (groups: Result<Groups, DecodeError>)
        ensures
            match decoded_groups(values_model(items@)) {
                Ok(g) => groups matches Ok(v) && v@ == g,
                Err(e) => groups matches Err(err) && err@ == e,
            },
    {
        let ghost models = values_model(items@);
        let mut groups = Groups::new();
        let mut i: usize = 0;
        while i < items.len()
            invariant
                i <= items.len(),
                models == values_model(items@),
                groups@.len() == i,
                forall|k: int|
                    0 <= k < i ==> (#[trigger] decoded_group(models[k])) == Some(groups@[k]),
            decreases items.len() - i,
        {
            match &items[i] {
                StoredValue::Binary(bytes) => {
                    groups.push(Group::new(bytes.as_slice()));
                },
                StoredValue::Text(text) => {
                    groups.push(Group::new(text.as_str().as_bytes()));
                },
                _ => {
                    assert(decoded_group(models[i as int]) is None);
                    return Err(DecodeError::BadGroup);
                },
            }
            i += 1;
        }
        assert(groups@ =~= Seq::new(models.len(), |i: int| decoded_group(models[i])->0));
        Ok(groups)
    }
}

} // verus!
