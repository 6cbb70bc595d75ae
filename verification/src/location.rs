//! Where a match lies in its blob: byte offsets, and lines and columns.

use vstd::prelude::*;

verus! {

/// A range of byte offsets into a blob, from `start` up to `end`.
#[derive(Debug, Copy, Clone, PartialEq, Eq, Hash, Structural)]
pub struct OffsetSpan {
    pub start: usize,
    pub end: usize,
}

/// A position in source text.
#[derive(Debug, Copy, Clone, PartialEq, Eq, Hash, Structural)]
pub struct SourcePoint {
    pub line: usize,
    pub column: usize,
}

/// The positions of the first and of the last byte of a match.
#[derive(Debug, Copy, Clone, PartialEq, Eq, Hash, Structural)]
pub struct SourceSpan {
    pub start: SourcePoint,
    pub end: SourcePoint,
}

/// A match's place in its blob, by offsets and by source positions.
#[derive(Debug, Copy, Clone, PartialEq, Eq, Hash, Structural)]
pub struct Location {
    pub offset_span: OffsetSpan,
    pub source_span: SourceSpan,
}

/// The offset of the last byte of a span; the start of an empty span at offset 0.
pub open spec fn last_offset(span: OffsetSpan) -> int {
    if span.end == 0 {
        0
    } else {
        span.end - 1
    }
}

/// The position that a table of positions, one per byte offset, gives to an
/// offset: the table's entry for the offset; for an offset past the table,
/// the table's last entry; and line 1, column 0 where the table is empty.
pub open spec fn point_at(points: Seq<SourcePoint>, offset: int) -> SourcePoint {
    if offset < points.len() {
        points[offset]
    } else if points.len() > 0 {
        points.last()
    } else {
        SourcePoint { line: 1, column: 0 }
    }
}

/// The source span that a table of positions gives to a span of offsets:
/// the positions of the first and of the last offset of the span.
pub open spec fn source_span_of(points: Seq<SourcePoint>, span: OffsetSpan) -> SourceSpan {
    SourceSpan {
        start: point_at(points, span.start as int),
        end: point_at(points, last_offset(span)),
    }
}

/// The source position of every byte offset of one blob.
#[derive(Debug)]
pub struct LocationMapping {
    offset_to_source: Vec<SourcePoint>,
}

impl View for LocationMapping {
    type V = Seq<SourcePoint>;

    closed spec fn view(&self) -> Seq<SourcePoint> {
        self.offset_to_source@
    }
}

impl LocationMapping {
    /// A mapping that gives offset `i` the position `points[i]`.
    pub fn from_points(points: Vec<SourcePoint>) -> (mapping: LocationMapping)
        ensures
            mapping@ == points@,
    {
        LocationMapping { offset_to_source: points }
    }

    /// Whether the mapping knows the first and the last offset of `span`.
    pub open spec fn covers(&self, span: OffsetSpan) -> bool {
        span.start < self@.len() && last_offset(span) < self@.len()
    }

    /// Decides `covers`.
    pub fn has_span(&self, span: &OffsetSpan) -> (known: bool)
        ensures
            known == self.covers(*span),
    {
        let last: usize = span.end.saturating_sub(1);
        span.start < self.offset_to_source.len() && last < self.offset_to_source.len()
    }

    /// The position of the byte at `offset`, if the mapping reaches that far.
    pub fn get_source_point(&self, offset: usize) -> (point: Option<SourcePoint>)
        ensures
            point == (if offset < self@.len() {
                Some(self@[offset as int])
            } else {
                None
            }),
    {
        if offset < self.offset_to_source.len() {
            Some(self.offset_to_source[offset])
        } else {
            None
        }
    }

    /// The position of `offset`: that of the byte there, and that of the
    /// last byte known for an offset past the end of the mapping.
    pub fn source_point(&self, offset: usize) -> (point: SourcePoint)
        ensures
            point == point_at(self@, offset as int),
    {
        let known = self.offset_to_source.len();
        if offset < known {
            self.offset_to_source[offset]
        } else if known > 0 {
            self.offset_to_source[known - 1]
        } else {
            SourcePoint { line: 1, column: 0 }
        }
    }

    /// The positions of the first and of the last byte of `span`.
    pub fn get_source_span(&self, span: &OffsetSpan) -> (source: SourceSpan)
        ensures
            source == source_span_of(self@, *span),
            self.covers(*span) ==> source == (SourceSpan {
                start: self@[span.start as int],
                end: self@[last_offset(*span)],
            }),
    {
        let last: usize = span.end.saturating_sub(1);
        SourceSpan { start: self.source_point(span.start), end: self.source_point(last) }
    }
}

} // verus!
