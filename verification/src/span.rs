//! Source ranges that anchor tokens, syntax nodes and diagnostics to the text.

use vstd::prelude::*;

verus! {

/// A range of source text: a file name, the line and column where the range
/// starts, and the line and column of its last character. Lines count from 1,
/// columns from 0, and the column starts over on every line.
#[derive(Debug, PartialEq, Eq)]
pub struct Span {
    pub file_name: String,
    pub starting_line: usize,
    pub starting_line_offset: usize,
    pub ending_line: usize,
    pub ending_line_end_offset: usize,
}

/// The mathematical value of a [`Span`].
pub struct SpanView {
    pub file_name: Seq<char>,
    pub starting_line: nat,
    pub starting_line_offset: nat,
    pub ending_line: nat,
    pub ending_line_end_offset: nat,
}

impl View for Span {
    type V = SpanView;

    open spec fn view(&self) -> SpanView {
        SpanView {
            file_name: self.file_name@,
            starting_line: self.starting_line as nat,
            starting_line_offset: self.starting_line_offset as nat,
            ending_line: self.ending_line as nat,
            ending_line_end_offset: self.ending_line_end_offset as nat,
        }
    }
}

/// Whether the position `(line_a, column_a)` comes no later in the text than
/// `(line_b, column_b)`.
pub open spec fn position_le(line_a: nat, column_a: nat, line_b: nat, column_b: nat) -> bool {
    line_a < line_b || (line_a == line_b && column_a <= column_b)
}

impl SpanView {
    /// The span does not end on an earlier line than it starts.
    pub open spec fn well_formed(self) -> bool {
        self.starting_line <= self.ending_line
    }

    /// Every position of `inner` lies between the two ends of `self`.
    pub open spec fn covers(self, inner: SpanView) -> bool {
        &&& position_le(
            self.starting_line,
            self.starting_line_offset,
            inner.starting_line,
            inner.starting_line_offset,
        )
        &&& position_le(
            inner.ending_line,
            inner.ending_line_end_offset,
            self.ending_line,
            self.ending_line_end_offset,
        )
    }
}

/// The span of the one character at `(line, offset)`.
pub open spec fn single_char_span(file_name: Seq<char>, line: nat, offset: nat) -> SpanView {
    SpanView {
        file_name,
        starting_line: line,
        starting_line_offset: offset,
        ending_line: line,
        ending_line_end_offset: offset,
    }
}

/// The span on one line from column `start` to column `end`.
pub open spec fn single_line_span(
    file_name: Seq<char>,
    line: nat,
    start: nat,
    end: nat,
) -> SpanView {
    SpanView {
        file_name,
        starting_line: line,
        starting_line_offset: start,
        ending_line: line,
        ending_line_end_offset: end,
    }
}

/// The smallest span that covers both `a` and `b`: it starts at the earlier of
/// the two starts and ends at the later of the two ends. The file name is that
/// of `a`.
pub open spec fn merged_span(a: SpanView, b: SpanView) -> SpanView {
    let a_starts_first = position_le(
        a.starting_line,
        a.starting_line_offset,
        b.starting_line,
        b.starting_line_offset,
    );
    let a_ends_last = position_le(
        b.ending_line,
        b.ending_line_end_offset,
        a.ending_line,
        a.ending_line_end_offset,
    );
    SpanView {
        file_name: a.file_name,
        starting_line: if a_starts_first { a.starting_line } else { b.starting_line },
        starting_line_offset: if a_starts_first {
            a.starting_line_offset
        } else {
            b.starting_line_offset
        },
        ending_line: if a_ends_last { a.ending_line } else { b.ending_line },
        ending_line_end_offset: if a_ends_last {
            a.ending_line_end_offset
        } else {
            b.ending_line_end_offset
        },
    }
}

impl Clone for Span {
    fn clone(&self) -> (copy: Span)
        ensures
            copy == *self,
    {
        Span {
            file_name: self.file_name.clone(),
            starting_line: self.starting_line,
            starting_line_offset: self.starting_line_offset,
            ending_line: self.ending_line,
            ending_line_end_offset: self.ending_line_end_offset,
        }
    }
}

impl Span {
    /// The span of a single character.
    pub fn for_single_char(file_name: &str, line: usize, offset: usize) -> (span: Span)
        ensures
            span@ == single_char_span(file_name@, line as nat, offset as nat),
            span@.well_formed(),
    {
        Span {
            file_name: file_name.to_owned(),
            starting_line: line,
            starting_line_offset: offset,
            ending_line: line,
            ending_line_end_offset: offset,
        }
    }

    /// The span on one line between two columns.
    pub fn for_single_line(file_name: &str, line: usize, start: usize, end: usize) -> (span: Span)
        ensures
            span@ == single_line_span(file_name@, line as nat, start as nat, end as nat),
            span@.well_formed(),
    {
        Span {
            file_name: file_name.to_owned(),
            starting_line: line,
            starting_line_offset: start,
            ending_line: line,
            ending_line_end_offset: end,
        }
    }

    /// The smallest span that covers both arguments.
    pub fn merge(a: Span, b: Span) -> (span: Span)
        ensures
            span@ == merged_span(a@, b@),
    {
        let a_starts_first = a.starting_line < b.starting_line || (a.starting_line
            == b.starting_line && a.starting_line_offset <= b.starting_line_offset);
        let a_ends_last = b.ending_line < a.ending_line || (b.ending_line == a.ending_line
            && b.ending_line_end_offset <= a.ending_line_end_offset);
        Span {
            file_name: a.file_name,
            starting_line: if a_starts_first {
                a.starting_line
            } else {
                b.starting_line
            },
            starting_line_offset: if a_starts_first {
                a.starting_line_offset
            } else {
                b.starting_line_offset
            },
            ending_line: if a_ends_last {
                a.ending_line
            } else {
                b.ending_line
            },
            ending_line_end_offset: if a_ends_last {
                a.ending_line_end_offset
            } else {
                b.ending_line_end_offset
            },
        }
    }
}

/// A merged span covers both of its parts, and every span that covers both
/// parts covers the merged span: it is the least such span.
pub proof fn lemma_merge_is_least_cover(a: SpanView, b: SpanView, other: SpanView)
    ensures
        merged_span(a, b).covers(a),
        merged_span(a, b).covers(b),
        other.covers(a) && other.covers(b) ==> other.covers(merged_span(a, b)),
{
}

/// Merging keeps spans well formed as soon as one part is.
pub proof fn lemma_merge_well_formed(a: SpanView, b: SpanView)
    requires
        a.well_formed() || b.well_formed(),
    ensures
        merged_span(a, b).well_formed(),
{
}

} // verus!
