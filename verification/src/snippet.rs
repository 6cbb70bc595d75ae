//! The text of a match and the bytes around it.

use vstd::prelude::*;

verus! {

/// A match with its surrounding context, each part a byte string.
#[derive(Debug, PartialEq, Eq)]
pub struct Snippet {
    /// The bytes just before the match.
    pub before: Vec<u8>,
    /// The matching bytes.
    pub matching: Vec<u8>,
    /// The bytes just after the match.
    pub after: Vec<u8>,
}

/// What a snippet holds.
pub struct SnippetModel {
    pub before: Seq<u8>,
    pub matching: Seq<u8>,
    pub after: Seq<u8>,
}

impl View for Snippet {
    type V = SnippetModel;

    open spec fn view(&self) -> SnippetModel {
        SnippetModel { before: self.before@, matching: self.matching@, after: self.after@ }
    }
}

impl DeepView for Snippet {
    type V = SnippetModel;

    open spec fn deep_view(&self) -> SnippetModel {
        self@
    }
}

impl Clone for Snippet {
    fn clone(&self) -> (copy: Snippet)
        ensures
            copy@ == self@,
    {
        Snippet {
            before: self.before.clone(),
            matching: self.matching.clone(),
            after: self.after.clone(),
        }
    }
}

/// The snippet of the bytes `start..end` of `bytes`, with up to `context`
/// bytes on either side, fewer where the blob ends.
pub open spec fn snippet_of(bytes: Seq<u8>, start: int, end: int, context: int) -> SnippetModel {
    let from = if start - context < 0 {
        0
    } else {
        start - context
    };
    let to = if end + context > bytes.len() {
        bytes.len() as int
    } else {
        end + context
    };
    SnippetModel {
        before: bytes.subrange(from, start),
        matching: bytes.subrange(start, end),
        after: bytes.subrange(end, to),
    }
}

/// A snippet's context on either side is as long as asked for, or as long
/// as the blob reaches where that is less, and the three parts of a snippet
/// are neighbours in the blob: together they are the bytes from
/// the start of the context before the match to the end of the context after it.
pub proof fn lemma_snippet_bounds(bytes: Seq<u8>, start: int, end: int, context: int)
    requires
        0 <= start <= end <= bytes.len(),
        0 <= context,
    ensures
        snippet_of(bytes, start, end, context).before.len() == (if context <= start {
            context
        } else {
            start
        }),
        snippet_of(bytes, start, end, context).matching.len() == end - start,
        snippet_of(bytes, start, end, context).after.len() == (if context <= bytes.len() - end {
            context
        } else {
            bytes.len() - end
        }),
        snippet_of(bytes, start, end, context).before + snippet_of(
            bytes,
            start,
            end,
            context,
        ).matching + snippet_of(bytes, start, end, context).after == bytes.subrange(
            start - snippet_of(bytes, start, end, context).before.len(),
            end + snippet_of(bytes, start, end, context).after.len(),
        ),
{
    let s = snippet_of(bytes, start, end, context);
    assert(s.before + s.matching + s.after =~= bytes.subrange(
        start - s.before.len(),
        end + s.after.len(),
    ));
}

} // verus!
