//! What is known of a blob besides its content.

use vstd::prelude::*;

use crate::blob_id::BlobId;

verus! {

/// A copy of an optional string.
pub fn clone_text(text: &Option<String>) -> (copy: Option<String>)
    ensures
        copy.deep_view() == text.deep_view(),
{
    match text {
        Some(t) => Some(t.clone()),
        None => None,
    }
}

/// Metadata of a blob.
#[derive(Debug, PartialEq, Eq)]
pub struct BlobMetadata {
    /// The blob's identifier.
    pub id: BlobId,
    /// The length of the blob in bytes.
    pub num_bytes: usize,
    /// The guessed media type of the blob, without parameters.
    pub mime_essence: Option<String>,
    /// The guessed character set of the blob.
    pub charset: Option<String>,
}

/// What a blob's metadata holds.
pub struct BlobMetadataModel {
    pub id: Seq<u8>,
    pub num_bytes: usize,
    pub mime_essence: Option<Seq<char>>,
    pub charset: Option<Seq<char>>,
}

impl View for BlobMetadata {
    type V = BlobMetadataModel;

    open spec fn view(&self) -> BlobMetadataModel {
        BlobMetadataModel {
            id: self.id@,
            num_bytes: self.num_bytes,
            mime_essence: self.mime_essence.deep_view(),
            charset: self.charset.deep_view(),
        }
    }
}

impl DeepView for BlobMetadata {
    type V = BlobMetadataModel;

    open spec fn deep_view(&self) -> BlobMetadataModel {
        self@
    }
}

impl Clone for BlobMetadata {
    fn clone(&self) -> (copy: BlobMetadata)
        ensures
            copy@ == self@,
    {
        BlobMetadata {
            id: self.id,
            num_bytes: self.num_bytes,
            mime_essence: clone_text(&self.mime_essence),
            charset: clone_text(&self.charset),
        }
    }
}

} // verus!
