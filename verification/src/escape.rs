//! The escape sequences of string literals.

use vstd::prelude::*;

verus! {

/// The character that a backslash followed by `c` stands for, if the pair is
/// an escape sequence.
pub open spec fn escape_value(c: char) -> Option<char> {
    if c == 'n' {
        Some('\n')
    } else if c == 't' {
        Some('\t')
    } else if c == 'r' {
        Some('\r')
    } else if c == '0' {
        Some('\0')
    } else if c == '\\' {
        Some('\\')
    } else if c == '"' {
        Some('"')
    } else if c == '\'' {
        Some('\'')
    } else {
        None
    }
}

/// Looks up the character that a backslash followed by `c` stands for.
pub fn escape(c: char) -> (value: Option<char>)
    ensures
        value == escape_value(c),
{
    match c {
        'n' => Some('\n'),
        't' => Some('\t'),
        'r' => Some('\r'),
        '0' => Some('\0'),
        '\\' => Some('\\'),
        '"' => Some('"'),
        '\'' => Some('\''),
        _ => None,
    }
}

} // verus!
