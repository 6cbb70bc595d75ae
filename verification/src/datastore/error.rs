//! What can go wrong when the store is queried.

use vstd::prelude::*;
use vstd::string::*;

use crate::blob_id::BlobId;
use crate::text::hex_text;

verus! {

/// A failure of a query on the store.
#[derive(Debug, PartialEq, Eq)]
pub enum DatastoreError {
    /// A stored match belongs to a blob of which no provenance is stored.
    MissingProvenance { blob_id: BlobId },
    /// The counts of a rule's findings add up to more than a count can hold.
    CountOverflow { rule_name: String },
}

/// The text that explains a failure.
pub open spec fn error_text(error: DatastoreError) -> Seq<char> {
    match error {
        DatastoreError::MissingProvenance { blob_id } => "should have at least 1 target entry: blob "@
            + hex_text(blob_id@),
        DatastoreError::CountOverflow { rule_name } => "counts overflow for rule "@ + rule_name@,
    }
}

impl DatastoreError {
    /// An explanation of the failure for a reader.
    pub fn message(&self) -> (text: String)
        ensures
            text@ == error_text(*self),
    {
        match self {
            DatastoreError::MissingProvenance { blob_id } => {
                let mut text: String = "should have at least 1 target entry: blob ".to_owned();
                text.append(blob_id.hex().as_str());
                text
            },
            DatastoreError::CountOverflow { rule_name } => {
                let mut text: String = "counts overflow for rule ".to_owned();
                text.append(rule_name.as_str());
                text
            },
        }
    }
}

} // verus!
