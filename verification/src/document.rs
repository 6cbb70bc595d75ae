//! Stored documents: ordered fields with a name and a value each, where a
//! value may itself be a list of values or a document.

use vstd::prelude::*;

use crate::sequences::{
    first_index,
    lemma_first_index,
    lemma_first_index_is,
    lemma_first_index_none,
};
use crate::text::str_equal;

verus! {

/// A value in a stored document.
#[derive(Debug, PartialEq)]
pub enum StoredValue {
    /// No value; it also stands for a stored value of a kind that is never read.
    Null,
    Boolean(bool),
    Int64(i64),
    Text(String),
    Binary(Vec<u8>),
    Array(Vec<StoredValue>),
    Document(Document),
}

/// A named value in a stored document.
#[derive(Debug, PartialEq)]
pub struct Field {
    pub key: String,
    pub value: StoredValue,
}

/// A stored document: its fields in their order.
#[derive(Debug, PartialEq)]
pub struct Document {
    pub fields: Vec<Field>,
}

/// What a stored value holds.
pub enum ValueModel {
    Null,
    Boolean(bool),
    Int64(i64),
    Text(Seq<char>),
    Binary(Seq<u8>),
    Array(Seq<ValueModel>),
    Document(Seq<(Seq<char>, ValueModel)>),
}

/// What a stored value holds.
pub open spec fn value_model(value: StoredValue) -> ValueModel
    decreases value,
{
    match value {
        StoredValue::Null => ValueModel::Null,
        StoredValue::Boolean(b) => ValueModel::Boolean(b),
        StoredValue::Int64(i) => ValueModel::Int64(i),
        StoredValue::Text(text) => ValueModel::Text(text@),
        StoredValue::Binary(bytes) => ValueModel::Binary(bytes@),
        StoredValue::Array(items) => ValueModel::Array(values_model(items@)),
        StoredValue::Document(document) => ValueModel::Document(fields_model(document.fields@)),
    }
}

/// What a list of stored values holds.
pub open spec fn values_model(items: Seq<StoredValue>) -> Seq<ValueModel>
    decreases items,
{
    Seq::new(
        items.len(),
        |i: int|
            if 0 <= i < items.len() {
                value_model(items[i])
            } else {
                ValueModel::Null
            },
    )
}

/// What a list of fields holds: each field's name and value.
pub open spec fn fields_model(fields: Seq<Field>) -> Seq<(Seq<char>, ValueModel)>
    decreases fields,
{
    Seq::new(
        fields.len(),
        |i: int|
            if 0 <= i < fields.len() {
                (fields[i].key@, value_model(fields[i].value))
            } else {
                (Seq::empty(), ValueModel::Null)
            },
    )
}

impl View for Document {
    type V = Seq<(Seq<char>, ValueModel)>;

    open spec fn view(&self) -> Seq<(Seq<char>, ValueModel)> {
        fields_model(self.fields@)
    }
}

impl DeepView for Document {
    type V = Seq<(Seq<char>, ValueModel)>;

    open spec fn deep_view(&self) -> Seq<(Seq<char>, ValueModel)> {
        fields_model(self.fields@)
    }
}

impl View for StoredValue {
    type V = ValueModel;

    open spec fn view(&self) -> ValueModel {
        value_model(*self)
    }
}

impl DeepView for StoredValue {
    type V = ValueModel;

    open spec fn deep_view(&self) -> ValueModel {
        value_model(*self)
    }
}

/// Why a field could not be read.
#[derive(Debug, Copy, Clone, PartialEq, Eq, Structural)]
pub enum AccessError {
    /// The document has no field of that name.
    NotPresent,
    /// The field holds a value of another kind.
    UnexpectedType,
}

/// The property of a field that its name is `key`.
pub open spec fn is_named(key: Seq<char>) -> spec_fn((Seq<char>, ValueModel)) -> bool {
    |field: (Seq<char>, ValueModel)| field.0 == key
}

/// The value of the first field named `key`.
pub open spec fn field_of(document: Seq<(Seq<char>, ValueModel)>, key: Seq<char>) -> Option<
    ValueModel,
> {
    match first_index(document, is_named(key)) {
        Some(i) => Some(document[i].1),
        None => None,
    }
}

/// The fields after a value was put under a name: the first field of that
/// name has the value, in its place; where no field has that name, a field
/// of that name with the value follows the others.
pub open spec fn inserted(
    document: Seq<(Seq<char>, ValueModel)>,
    key: Seq<char>,
    value: ValueModel,
) -> Seq<(Seq<char>, ValueModel)> {
    match first_index(document, is_named(key)) {
        Some(i) => document.update(i, (key, value)),
        None => document.push((key, value)),
    }
}

/// Whether no two fields have the same name.
pub open spec fn distinct_names(document: Seq<(Seq<char>, ValueModel)>) -> bool {
    forall|i: int, j: int|
        #![trigger document[i], document[j]]
        0 <= i < j < document.len() ==> document[i].0 != document[j].0
}

/// Putting a value under a name keeps the names distinct, and the value is
/// then found under the name; what is found under any other name stays.
pub proof fn lemma_inserted(
    document: Seq<(Seq<char>, ValueModel)>,
    key: Seq<char>,
    value: ValueModel,
    other: Seq<char>,
)
    ensures
        distinct_names(document) ==> distinct_names(inserted(document, key, value)),
        field_of(inserted(document, key, value), key) == Some(value),
        other != key ==> field_of(inserted(document, key, value), other) == field_of(
            document,
            other,
        ),
{
    let after = inserted(document, key, value);
    lemma_first_index(document, is_named(key));
    lemma_first_index(document, is_named(other));
    match first_index(document, is_named(key)) {
        Some(i) => {
            assert(after[i] == (key, value));
            assert forall|j: int| 0 <= j < i implies !is_named(key)(#[trigger] after[j]) by {
                assert(after[j] == document[j]);
            }
            lemma_first_index_is(after, is_named(key), i);
            if distinct_names(document) {
                assert forall|a: int, b: int|
                    #![trigger after[a], after[b]]
                    0 <= a < b < after.len() implies after[a].0 != after[b].0 by {
                    assert(after[a].0 == document[a].0);
                    assert(after[b].0 == document[b].0);
                }
            }
        },
        None => {
            let at = document.len() as int;
            assert(after[at] == (key, value));
            assert forall|j: int| 0 <= j < at implies !is_named(key)(#[trigger] after[j]) by {
                assert(after[j] == document[j]);
            }
            lemma_first_index_is(after, is_named(key), at);
            if distinct_names(document) {
                assert forall|a: int, b: int|
                    #![trigger after[a], after[b]]
                    0 <= a < b < after.len() implies after[a].0 != after[b].0 by {
                    if b < at {
                        assert(after[a] == document[a] && after[b] == document[b]);
                    } else {
                        assert(after[a] == document[a]);
                    }
                }
            }
        },
    }
    if other != key {
        match first_index(document, is_named(other)) {
            Some(k) => {
                assert(after[k] == document[k]);
                assert forall|j: int| 0 <= j < k implies !is_named(other)(#[trigger] after[j]) by {
                    if j < document.len() {
                        assert(after[j].0 == document[j].0);
                    }
                }
                lemma_first_index_is(after, is_named(other), k);
            },
            None => {
                assert forall|j: int| 0 <= j < after.len() implies !is_named(other)(
                    #[trigger] after[j],
                ) by {
                    if j < document.len() {
                        assert(after[j].0 == document[j].0);
                    }
                }
                lemma_first_index_none(after, is_named(other));
            },
        }
    }
}

/// The text of the field named `key`.
pub open spec fn text_of(document: Seq<(Seq<char>, ValueModel)>, key: Seq<char>) -> Result<
    Seq<char>,
    AccessError,
> {
    match field_of(document, key) {
        None => Err(AccessError::NotPresent),
        Some(ValueModel::Text(text)) => Ok(text),
        Some(_) => Err(AccessError::UnexpectedType),
    }
}

/// The integer of the field named `key`.
pub open spec fn int_of(document: Seq<(Seq<char>, ValueModel)>, key: Seq<char>) -> Result<
    i64,
    AccessError,
> {
    match field_of(document, key) {
        None => Err(AccessError::NotPresent),
        Some(ValueModel::Int64(i)) => Ok(i),
        Some(_) => Err(AccessError::UnexpectedType),
    }
}

/// The bytes of the field named `key`.
pub open spec fn bytes_of(document: Seq<(Seq<char>, ValueModel)>, key: Seq<char>) -> Result<
    Seq<u8>,
    AccessError,
> {
    match field_of(document, key) {
        None => Err(AccessError::NotPresent),
        Some(ValueModel::Binary(bytes)) => Ok(bytes),
        Some(_) => Err(AccessError::UnexpectedType),
    }
}

/// The list of the field named `key`.
pub open spec fn array_of(document: Seq<(Seq<char>, ValueModel)>, key: Seq<char>) -> Result<
    Seq<ValueModel>,
    AccessError,
> {
    match field_of(document, key) {
        None => Err(AccessError::NotPresent),
        Some(ValueModel::Array(items)) => Ok(items),
        Some(_) => Err(AccessError::UnexpectedType),
    }
}

/// The document of the field named `key`.
pub open spec fn document_of(document: Seq<(Seq<char>, ValueModel)>, key: Seq<char>) -> Result<
    Seq<(Seq<char>, ValueModel)>,
    AccessError,
> {
    match field_of(document, key) {
        None => Err(AccessError::NotPresent),
        Some(ValueModel::Document(inner)) => Ok(inner),
        Some(_) => Err(AccessError::UnexpectedType),
    }
}

/// The value of the field at a place is found under the field's name where
/// no earlier field has that name.
pub proof fn lemma_field_at(document: Seq<(Seq<char>, ValueModel)>, i: int)
    requires
        0 <= i < document.len(),
        forall|j: int| 0 <= j < i ==> (#[trigger] document[j]).0 != document[i].0,
    ensures
        field_of(document, document[i].0) == Some(document[i].1),
{
    lemma_first_index_is(document, is_named(document[i].0), i);
}

/// Whether none of the first `i` fields is named `key`.
pub open spec fn unnamed_before(
    document: Seq<(Seq<char>, ValueModel)>,
    key: Seq<char>,
    i: int,
) -> bool
    decreases i,
{
    i <= 0 || (document[i - 1].0 != key && unnamed_before(document, key, i - 1))
}

/// The value of the field at a place is found under the field's name where
/// none of the fields before it has that name.
pub proof fn lemma_field_found(document: Seq<(Seq<char>, ValueModel)>, i: int)
    requires
        0 <= i < document.len(),
        unnamed_before(document, document[i].0, i),
    ensures
        field_of(document, document[i].0) == Some(document[i].1),
{
    lemma_unnamed_before(document, document[i].0, i);
    lemma_field_at(document, i);
}

/// A name that none of the fields has is not found.
pub proof fn lemma_field_not_found(document: Seq<(Seq<char>, ValueModel)>, key: Seq<char>)
    requires
        unnamed_before(document, key, document.len() as int),
    ensures
        field_of(document, key) is None,
{
    lemma_unnamed_before(document, key, document.len() as int);
    lemma_field_absent(document, key);
}

/// What `unnamed_before` says of each of the first `i` fields.
pub proof fn lemma_unnamed_before(document: Seq<(Seq<char>, ValueModel)>, key: Seq<char>, i: int)
    requires
        i <= document.len(),
        unnamed_before(document, key, i),
    ensures
        forall|j: int| 0 <= j < i ==> (#[trigger] document[j]).0 != key,
    decreases i,
{
    if i > 0 {
        lemma_unnamed_before(document, key, i - 1);
    }
}

/// A field is looked up in the fields of one document followed by those of
/// another as in the first, and where the first has no such field, as in
/// the second.
pub proof fn lemma_field_of_concat(
    first: Seq<(Seq<char>, ValueModel)>,
    second: Seq<(Seq<char>, ValueModel)>,
    key: Seq<char>,
)
    ensures
        field_of(first + second, key) == (match field_of(first, key) {
            Some(value) => Some(value),
            None => field_of(second, key),
        }),
{
    let both = first + second;
    let named = is_named(key);
    lemma_first_index(first, named);
    lemma_first_index(second, named);
    match first_index(first, named) {
        Some(i) => {
            assert(both[i] == first[i]);
            assert forall|j: int| 0 <= j < i implies !named(#[trigger] both[j]) by {
                assert(both[j] == first[j]);
            }
            lemma_first_index_is(both, named, i);
        },
        None => match first_index(second, named) {
            Some(i) => {
                let at = first.len() + i;
                assert(both[at] == second[i]);
                assert forall|j: int| 0 <= j < at implies !named(#[trigger] both[j]) by {
                    if j < first.len() {
                        assert(both[j] == first[j]);
                    } else {
                        assert(both[j] == second[j - first.len()]);
                    }
                }
                lemma_first_index_is(both, named, at);
            },
            None => {
                assert forall|j: int| 0 <= j < both.len() implies !named(#[trigger] both[j]) by {
                    if j < first.len() {
                        assert(both[j] == first[j]);
                    } else {
                        assert(both[j] == second[j - first.len()]);
                    }
                }
                lemma_first_index_none(both, named);
            },
        },
    }
}

/// A name that no field has is not found.
pub proof fn lemma_field_absent(document: Seq<(Seq<char>, ValueModel)>, key: Seq<char>)
    requires
        forall|j: int| 0 <= j < document.len() ==> (#[trigger] document[j]).0 != key,
    ensures
        field_of(document, key) is None,
{
    lemma_first_index_none(document, is_named(key));
}

/// Gives a field another value.
fn replace_value(field: &mut Field, value: StoredValue)
    ensures
        final(field).key == old(field).key,
        final(field).value == value,
{
    field.value = value;
}

impl Document {
    /// A document without fields.
    pub fn new() -> (document: Document)
        ensures
            document@ == Seq::<(Seq<char>, ValueModel)>::empty(),
    {
        let document = Document { fields: Vec::new() };
        assert(document@ =~= Seq::<(Seq<char>, ValueModel)>::empty());
        document
    }

    /// The place of the first field named `key`.
    fn position(&self, key: &str) -> (place: Option<usize>)
        ensures
            match place {
                Some(i) => i < self.fields.len() && self.fields@[i as int].key@ == key@
                    && first_index(self@, is_named(key@)) == Some(i as int),
                None => first_index(self@, is_named(key@)) is None,
            },
    {
        let mut i: usize = 0;
        while i < self.fields.len()
            invariant
                i <= self.fields.len(),
                forall|j: int| 0 <= j < i ==> (#[trigger] self.fields@[j]).key@ != key@,
            decreases self.fields.len() - i,
        {
            if str_equal(self.fields[i].key.as_str(), key) {
                proof {
                    assert forall|j: int| 0 <= j < i implies !is_named(key@)(
                        #[trigger] self@[j],
                    ) by {
                        assert(self.fields@[j].key@ != key@);
                    }
                    assert(is_named(key@)(self@[i as int]));
                    lemma_first_index_is(self@, is_named(key@), i as int);
                }
                return Some(i);
            }
            i += 1;
        }
        proof {
            assert forall|j: int| 0 <= j < self@.len() implies !is_named(key@)(
                #[trigger] self@[j],
            ) by {
                assert(self.fields@[j].key@ != key@);
            }
            lemma_first_index_none(self@, is_named(key@));
        }
        None
    }

    /// Puts a value under a name: the first field of that name takes the
    /// value and keeps its place; where the document has no field of that
    /// name, a field is appended after those that it has.
    pub fn insert(&mut self, key: &str, value: StoredValue)
        ensures
            final(self)@ == inserted(old(self)@, key@, value_model(value)),
            unnamed_before(old(self)@, key@, old(self)@.len() as int) ==> final(self)@ == old(
                self,
            )@.push((key@, value_model(value))),
    {
        let ghost before = self@;
        let ghost model = value_model(value);
        proof {
            if unnamed_before(before, key@, before.len() as int) {
                lemma_field_not_found(before, key@);
            }
        }
        match self.position(key) {
            Some(i) => {
                let ghost fields = self.fields@;
                replace_value(&mut self.fields[i], value);
                proof {
                    assert(self.fields@ =~= fields.update(i as int, self.fields@[i as int]));
                    assert forall|j: int| 0 <= j < before.len() implies #[trigger] self@[j]
                        == before.update(i as int, (key@, model))[j] by {
                        if j != i {
                            assert(self.fields@[j] == fields[j]);
                        }
                    }
                    assert(self@ =~= before.update(i as int, (key@, model)));
                }
            },
            None => {
                self.fields.push(Field { key: key.to_owned(), value });
                assert(self@ =~= before.push((key@, model)));
            },
        }
    }

    /// The value of the first field named `key`.
    pub fn get(&self, key: &str) -> (value: Option<&StoredValue>)
        ensures
            match value {
                Some(v) => field_of(self@, key@) == Some(value_model(*v)),
                None => field_of(self@, key@) is None,
            },
    {
        match self.position(key) {
            Some(i) => Some(&self.fields[i].value),
            None => None,
        }
    }

    /// Whether the document has a field named `key`.
    pub fn contains_key(&self, key: &str) -> (present: bool)
        ensures
            present == field_of(self@, key@) is Some,
    {
        self.get(key).is_some()
    }

    /// The text of the field named `key`.
    pub fn get_str(&self, key: &str) -> (text: Result<&str, AccessError>)
        ensures
            match text {
                Ok(t) => text_of(self@, key@) == Ok::<Seq<char>, AccessError>(t@),
                Err(e) => text_of(self@, key@) == Err::<Seq<char>, AccessError>(e),
            },
    {
        match self.get(key) {
            None => Err(AccessError::NotPresent),
            Some(StoredValue::Text(text)) => Ok(text.as_str()),
            Some(_) => Err(AccessError::UnexpectedType),
        }
    }

    /// The integer of the field named `key`.
    pub fn get_i64(&self, key: &str) -> (number: Result<i64, AccessError>)
        ensures
            number == int_of(self@, key@),
    {
        match self.get(key) {
            None => Err(AccessError::NotPresent),
            Some(StoredValue::Int64(i)) => Ok(*i),
            Some(_) => Err(AccessError::UnexpectedType),
        }
    }

    /// The bytes of the field named `key`.
    pub fn get_binary(&self, key: &str) -> (bytes: Result<&Vec<u8>, AccessError>)
        ensures
            match bytes {
                Ok(b) => bytes_of(self@, key@) == Ok::<Seq<u8>, AccessError>(b@),
                Err(e) => bytes_of(self@, key@) == Err::<Seq<u8>, AccessError>(e),
            },
    {
        match self.get(key) {
            None => Err(AccessError::NotPresent),
            Some(StoredValue::Binary(bytes)) => Ok(bytes),
            Some(_) => Err(AccessError::UnexpectedType),
        }
    }

    /// The list of the field named `key`.
    pub fn get_array(&self, key: &str) -> (items: Result<&Vec<StoredValue>, AccessError>)
        ensures
            match items {
                Ok(a) => array_of(self@, key@) == Ok::<Seq<ValueModel>, AccessError>(
                    values_model(a@),
                ),
                Err(e) => array_of(self@, key@) == Err::<Seq<ValueModel>, AccessError>(e),
            },
    {
        match self.get(key) {
            None => Err(AccessError::NotPresent),
            Some(StoredValue::Array(items)) => Ok(items),
            Some(_) => Err(AccessError::UnexpectedType),
        }
    }

    /// The document of the field named `key`.
    pub fn get_document(&self, key: &str) -> (inner: Result<&Document, AccessError>)
        ensures
            match inner {
                Ok(d) => document_of(self@, key@) == Ok::<Seq<(Seq<char>, ValueModel)>, AccessError>(
                    d@,
                ),
                Err(e) => document_of(self@, key@) == Err::<
                    Seq<(Seq<char>, ValueModel)>,
                    AccessError,
                >(e),
            },
    {
        match self.get(key) {
            None => Err(AccessError::NotPresent),
            Some(StoredValue::Document(inner)) => Ok(inner),
            Some(_) => Err(AccessError::UnexpectedType),
        }
    }
}

} // verus!
