//! Identifiers of scanned blobs.

use vstd::prelude::*;

use crate::text::{from_hex, hex_bytes, hex_text, is_hex_text, lemma_hex_round_trip, to_hex};

verus! {

/// The content hash that identifies a blob: 20 bytes.
#[derive(Debug, Copy, Clone, PartialEq, Eq, Hash)]
pub struct BlobId {
    bytes: [u8; 20],
}

impl View for BlobId {
    type V = Seq<u8>;

    open spec fn view(&self) -> Seq<u8> {
        self.spec_bytes()@
    }
}

impl DeepView for BlobId {
    type V = Seq<u8>;

    open spec fn deep_view(&self) -> Seq<u8> {
        self.spec_bytes()@
    }
}

/// Why text was not accepted as a blob identifier.
#[derive(Debug, Copy, Clone, PartialEq, Eq, Structural)]
pub enum BlobIdParseError {
    /// The text is not 40 characters long.
    BadLength,
    /// The text holds a character that is no hexadecimal digit.
    BadDigit,
}

/// What reading `text` as a blob identifier gives.
pub open spec fn parse_blob_id(text: Seq<char>) -> Result<Seq<u8>, BlobIdParseError> {
    if text.len() != 40 {
        Err(BlobIdParseError::BadLength)
    } else if !is_hex_text(text) {
        Err(BlobIdParseError::BadDigit)
    } else {
        Ok(hex_bytes(text))
    }
}

impl BlobId {
    pub closed spec fn spec_bytes(&self) -> [u8; 20] {
        self.bytes
    }

    /// The identifier with the given bytes.
    pub fn from_bytes(bytes: [u8; 20]) -> (id: BlobId)
        ensures
            id@ == bytes@,
    {
        BlobId { bytes }
    }

    /// The 20 bytes of the identifier.
    pub fn as_bytes(&self) -> (bytes: &[u8; 20])
        ensures
            bytes@ == self@,
    {
        &self.bytes
    }

    /// The identifier as 40 lower-case hexadecimal digits.
    pub fn hex(&self) -> (text: String)
        ensures
            text@ == hex_text(self@),
            text@.len() == 40,
    {
        to_hex(self.bytes.as_slice())
    }

    /// Reads an identifier from 40 hexadecimal digits of either case.
    pub fn from_hex(s: &str) -> (parsed: Result<BlobId, BlobIdParseError>)
        ensures
            parsed is Ok == parse_blob_id(s@) is Ok,
            parsed matches Ok(id) ==> parse_blob_id(s@) == Ok::<Seq<u8>, BlobIdParseError>(id@),
            parsed matches Err(e) ==> parse_blob_id(s@) == Err::<Seq<u8>, BlobIdParseError>(e),
    {
        if s.unicode_len() != 40 {
            return Err(BlobIdParseError::BadLength);
        }
        match from_hex(s) {
            None => Err(BlobIdParseError::BadDigit),
            Some(decoded) => {
                let mut bytes: [u8; 20] = [0u8; 20];
                let mut i: usize = 0;
                while i < 20
                    invariant
                        i <= 20,
                        decoded@.len() == 20,
                        forall|j: int| 0 <= j < i ==> bytes@[j] == decoded@[j],
                    decreases 20 - i,
                {
                    bytes[i] = decoded[i];
                    i += 1;
                }
                assert(bytes@ =~= decoded@);
                Ok(BlobId { bytes })
            },
        }
    }

    /// Whether two identifiers hold the same bytes.
    pub fn same(&self, other: &BlobId) -> (same: bool)
        ensures
            same == (self@ == other@),
    {
        crate::text::bytes_equal(self.bytes.as_slice(), other.bytes.as_slice())
    }
}

/// Reading back the hexadecimal text of an identifier gives its bytes.
pub proof fn lemma_blob_id_hex_round_trip(id: BlobId)
    ensures
        parse_blob_id(hex_text(id@)) == Ok::<Seq<u8>, BlobIdParseError>(id@),
{
    lemma_hex_round_trip(id@);
    assert(id@.len() == 20);
}

} // verus!
