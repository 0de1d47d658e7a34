//! What a diagnostic shows of the source text.

use vstd::prelude::*;
use crate::scan::{lemma_position_bounds, line_at};
use crate::text::chars_of;

verus! {

/// The characters of line `line` among the first `upto` characters of the
/// text, without line feeds: the line as a diagnostic shows it.
pub open spec fn line_chars(src: Seq<char>, line: nat, upto: nat) -> Seq<char>
    decreases upto,
{
    if upto == 0 {
        Seq::empty()
    } else {
        let last = (upto - 1) as nat;
        let before = line_chars(src, line, last);
        if last < src.len() && line_at(src, last) == line && src[last as int] != '\n' {
            before.push(src[last as int])
        } else {
            before
        }
    }
}

/// The text of line `line` of `source`, as spans count lines.
pub fn line_text(source: &str, line: usize) -> (text: String)
    ensures
        text@ == line_chars(source@, line as nat, source@.len()),
{
    let chars = chars_of(source);
    let n = chars.len();
    let mut text = String::new();
    let mut current: usize = 1;
    let mut i: usize = 0;
    while i < n
        invariant
            i <= n,
            n == source@.len(),
            chars@ == source@,
            current == line_at(source@, i as nat),
            text@ == line_chars(source@, line as nat, i as nat),
        decreases n - i,
    {
        let c = chars[i];
        if current == line && c != '\n' {
            text.push(c);
        }
        proof {
            lemma_position_bounds(source@, (i + 1) as nat);
        }
        i += 1;
        if i < n && chars[i] == '\n' {
            current += 1;
        }
    }
    text
}

} // verus!
