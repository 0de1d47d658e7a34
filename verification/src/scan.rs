//! What the scanner is to produce: the tokens and diagnostics of a source
//! text, defined on the text as a sequence of characters.

use vstd::prelude::*;
use crate::error::{hinted_error, plain_error, ErrorCode, ErrorType, RigErrorView};
use crate::escape::escape_value;
use crate::span::{single_char_span, single_line_span, SpanView};
use crate::text::{alphabetic, alphanumeric, is_digit, whitespace};
use crate::token::{
    operator_of_one, operator_of_three, operator_of_two, operator_type, punctuation_type,
    word_type, TokenType, TokenView,
};

verus! {

/// The character at index `pos` of `src`, if there is one.
pub open spec fn char_at(src: Seq<char>, pos: nat) -> Option<char> {
    if pos < src.len() {
        Some(src[pos as int])
    } else {
        None
    }
}

/// The line of the character at index `pos`. The first line is line 1, and a
/// line feed counts as the first character of the line that it opens, except
/// at index 0.
pub open spec fn line_at(src: Seq<char>, pos: nat) -> nat
    decreases pos,
{
    if pos == 0 {
        1
    } else if pos < src.len() && src[pos as int] == '\n' {
        line_at(src, (pos - 1) as nat) + 1
    } else {
        line_at(src, (pos - 1) as nat)
    }
}

/// The column of the character at index `pos`. A line feed stands in column 0
/// and so does the character after it; from there the columns count up by one.
pub open spec fn column_at(src: Seq<char>, pos: nat) -> nat
    decreases pos,
{
    if pos == 0 {
        0
    } else if pos < src.len() && src[pos as int] == '\n' {
        0
    } else if pos - 1 < src.len() && src[pos - 1] == '\n' {
        column_at(src, (pos - 1) as nat)
    } else {
        column_at(src, (pos - 1) as nat) + 1
    }
}

/// Whether `c` may stand inside an identifier or keyword.
pub open spec fn is_word_char(c: char) -> bool {
    alphanumeric(c) || c == '_'
}

/// Whether `c` may begin an identifier or keyword.
pub open spec fn is_word_start(c: char) -> bool {
    alphabetic(c) || c == '_'
}

/// The first index from `from` on that holds no word character, or the length
/// of the text.
pub open spec fn word_end(src: Seq<char>, from: nat) -> nat
    decreases src.len() - from,
{
    if from >= src.len() || !is_word_char(src[from as int]) {
        from
    } else {
        word_end(src, from + 1)
    }
}

/// The first index from `from` on that holds no digit, or the length of the
/// text.
pub open spec fn digits_end(src: Seq<char>, from: nat) -> nat
    decreases src.len() - from,
{
    if from >= src.len() || !is_digit(src[from as int]) {
        from
    } else {
        digits_end(src, from + 1)
    }
}

/// The first index from `from` on that holds a line feed, or the length of the
/// text.
pub open spec fn line_end(src: Seq<char>, from: nat) -> nat
    decreases src.len() - from,
{
    if from >= src.len() || src[from as int] == '\n' {
        from
    } else {
        line_end(src, from + 1)
    }
}

/// The length of the longest operator that begins at index `pos`, or 0 if
/// none does.
pub open spec fn operator_len(src: Seq<char>, pos: nat) -> nat {
    if pos + 2 < src.len() && operator_of_three(
        src[pos as int],
        src[pos as int + 1],
        src[pos as int + 2],
    ) is Some {
        3
    } else if pos + 1 < src.len() && operator_of_two(src[pos as int], src[pos as int + 1]) is Some {
        2
    } else if pos < src.len() && operator_of_one(src[pos as int]) is Some {
        1
    } else {
        0
    }
}

/// How the body of a string literal ends.
pub enum StringEnd {
    /// With the closing quote.
    Closed,
    /// With the end of the text.
    Unterminated,
    /// With a backslash before a character that it cannot escape.
    InvalidEscape,
    /// With a backslash as the last character of the text.
    EofInEscape,
}

/// The body of a string literal: how it ends, the index where it ends (of the
/// closing quote, of the character that cannot be escaped, or the length of
/// the text), and the characters decoded on the way there.
pub struct StringBody {
    pub end: StringEnd,
    pub at: nat,
    pub literal: Seq<char>,
}

/// Reads the body of a string literal from index `from`, which is the index
/// after the opening quote or a later index inside the body.
pub open spec fn string_body(src: Seq<char>, from: nat) -> StringBody
    decreases src.len() - from,
{
    if from >= src.len() {
        StringBody { end: StringEnd::Unterminated, at: src.len(), literal: Seq::empty() }
    } else if src[from as int] == '"' {
        StringBody { end: StringEnd::Closed, at: from, literal: Seq::empty() }
    } else if src[from as int] == '\\' {
        if from + 1 >= src.len() {
            StringBody { end: StringEnd::EofInEscape, at: src.len(), literal: Seq::empty() }
        } else {
            match escape_value(src[from as int + 1]) {
                None => StringBody {
                    end: StringEnd::InvalidEscape,
                    at: from + 1,
                    literal: Seq::empty(),
                },
                Some(decoded) => {
                    let rest = string_body(src, from + 2);
                    StringBody {
                        end: rest.end,
                        at: rest.at,
                        literal: seq![decoded] + rest.literal,
                    }
                },
            }
        }
    } else {
        let rest = string_body(src, from + 1);
        StringBody { end: rest.end, at: rest.at, literal: seq![src[from as int]] + rest.literal }
    }
}

/// What the scanner makes of the text at one position: a token, a diagnostic,
/// or nothing.
pub enum ScannedView {
    Token(TokenView),
    Fault(RigErrorView),
    Skipped,
}

/// One step of the scanner: what it made of the text, and the index at which
/// it goes on.
pub struct Step {
    pub outcome: ScannedView,
    pub next: nat,
}

/// The span from the character at index `first` to the character at index
/// `last`.
pub open spec fn span_between(src: Seq<char>, file: Seq<char>, first: nat, last: nat) -> SpanView {
    SpanView {
        file_name: file,
        starting_line: line_at(src, first),
        starting_line_offset: column_at(src, first),
        ending_line: line_at(src, last),
        ending_line_end_offset: column_at(src, last),
    }
}

/// The span of the character at index `pos`.
pub open spec fn span_at(src: Seq<char>, file: Seq<char>, pos: nat) -> SpanView {
    single_char_span(file, line_at(src, pos), column_at(src, pos))
}

/// The token whose text is the characters from index `first` up to, not
/// including, index `end`. Its span lies on the line of its first character.
pub open spec fn plain_token(
    src: Seq<char>,
    file: Seq<char>,
    token_type: TokenType,
    first: nat,
    end: nat,
) -> TokenView {
    TokenView {
        token_type,
        lexeme: src.subrange(first as int, end as int),
        literal: src.subrange(first as int, end as int),
        span: single_line_span(
            file,
            line_at(src, first),
            column_at(src, first),
            column_at(src, (end - 1) as nat),
        ),
    }
}

/// The step at a punctuation mark.
pub open spec fn punctuation_step(src: Seq<char>, file: Seq<char>, pos: nat) -> Step {
    Step {
        outcome: ScannedView::Token(
            plain_token(src, file, punctuation_type(src[pos as int])->0, pos, pos + 1),
        ),
        next: pos + 1,
    }
}

/// The step at an operator: the longest operator that begins here.
pub open spec fn operator_step(src: Seq<char>, file: Seq<char>, pos: nat) -> Step {
    let end = pos + operator_len(src, pos);
    Step {
        outcome: ScannedView::Token(
            plain_token(
                src,
                file,
                operator_type(src.subrange(pos as int, end as int))->0,
                pos,
                end,
            ),
        ),
        next: end,
    }
}

/// The step at `#`: the rest of the line is a comment.
pub open spec fn comment_step(src: Seq<char>, pos: nat) -> Step {
    Step { outcome: ScannedView::Skipped, next: line_end(src, pos + 1) }
}

/// The step at an opening quote.
pub open spec fn string_step(src: Seq<char>, file: Seq<char>, pos: nat) -> Step {
    let body = string_body(src, pos + 1);
    match body.end {
        StringEnd::Closed => Step {
            outcome: ScannedView::Token(
                TokenView {
                    token_type: TokenType::StringLiteral,
                    lexeme: src.subrange(pos as int, body.at as int + 1),
                    literal: body.literal,
                    span: span_between(src, file, pos, body.at),
                },
            ),
            next: body.at + 1,
        },
        StringEnd::Unterminated => Step {
            outcome: ScannedView::Fault(
                hinted_error(
                    ErrorType::Hard,
                    ErrorCode::E0002.text(),
                    "Unterminated string literal"@,
                    span_between(src, file, pos, body.at),
                    "Insert `\"` here"@,
                    span_between(src, file, pos, body.at),
                ),
            ),
            next: body.at,
        },
        StringEnd::InvalidEscape => Step {
            outcome: ScannedView::Fault(
                plain_error(
                    ErrorType::Hard,
                    ErrorCode::E0004.text(),
                    "Invalid escape character"@,
                    span_between(src, file, (body.at - 1) as nat, body.at),
                ),
            ),
            next: body.at,
        },
        StringEnd::EofInEscape => Step {
            outcome: ScannedView::Fault(
                plain_error(
                    ErrorType::Hard,
                    ErrorCode::E0005.text(),
                    "Unexpected eof"@,
                    span_at(src, file, body.at),
                ),
            ),
            next: body.at,
        },
    }
}

/// The step at the first character of an identifier or keyword.
pub open spec fn word_step(src: Seq<char>, file: Seq<char>, pos: nat) -> Step {
    let end = word_end(src, pos + 1);
    Step {
        outcome: ScannedView::Token(
            plain_token(src, file, word_type(src.subrange(pos as int, end as int)), pos, end),
        ),
        next: end,
    }
}

/// The step at the first digit of a number: digits, then at most one decimal
/// point with the digits after it. A second decimal point directly after
/// those is a fault, and the scanner goes on behind it.
pub open spec fn number_step(src: Seq<char>, file: Seq<char>, pos: nat) -> Step {
    let whole_end = digits_end(src, pos);
    if char_at(src, whole_end) == Some('.') {
        let end = digits_end(src, whole_end + 1);
        if char_at(src, end) == Some('.') {
            Step {
                outcome: ScannedView::Fault(
                    hinted_error(
                        ErrorType::Hard,
                        ErrorCode::E0003.text(),
                        "Invalid integer literal"@,
                        span_at(src, file, end),
                        "Remove this"@,
                        span_at(src, file, end),
                    ),
                ),
                next: end + 1,
            }
        } else {
            Step {
                outcome: ScannedView::Token(
                    plain_token(src, file, TokenType::NumberLiteral, pos, end),
                ),
                next: end,
            }
        }
    } else {
        Step {
            outcome: ScannedView::Token(
                plain_token(src, file, TokenType::NumberLiteral, pos, whole_end),
            ),
            next: whole_end,
        }
    }
}

/// The step at a character that begins no token.
pub open spec fn unknown_step(src: Seq<char>, file: Seq<char>, pos: nat) -> Step {
    Step {
        outcome: ScannedView::Fault(
            plain_error(
                ErrorType::Hard,
                ErrorCode::E0001.text(),
                "Unknown character"@,
                span_at(src, file, pos),
            ),
        ),
        next: pos + 1,
    }
}

/// The rules of the scanner, one for each kind of thing that can begin at a
/// character.
#[derive(Debug, Clone, Copy, PartialEq, Eq, Structural)]
pub enum Rule {
    Punctuation,
    Operator,
    Comment,
    StringLiteral,
    Word,
    Number,
    Blank,
    Unknown,
}

/// The rule for the character `c`, given whether an operator begins at it,
/// whether it may begin a word and whether it is white space. The rules are
/// tried in this order: punctuation, operators, comments, strings, words,
/// numbers, white space; any other character begins nothing.
pub open spec fn rule_of(c: char, operator: bool, word_start: bool, blank: bool) -> Rule {
    if punctuation_type(c) is Some {
        Rule::Punctuation
    } else if operator {
        Rule::Operator
    } else if c == '#' {
        Rule::Comment
    } else if c == '"' {
        Rule::StringLiteral
    } else if word_start {
        Rule::Word
    } else if is_digit(c) {
        Rule::Number
    } else if blank {
        Rule::Blank
    } else {
        Rule::Unknown
    }
}

/// The rule for the character at index `pos`.
pub open spec fn rule_at(src: Seq<char>, pos: nat) -> Rule
    recommends
        pos < src.len(),
{
    let c = src[pos as int];
    rule_of(c, operator_len(src, pos) > 0, is_word_start(c), whitespace(c))
}

/// One step of the scanner at index `pos`, by the rule for the character
/// there.
pub open spec fn step_at(src: Seq<char>, file: Seq<char>, pos: nat) -> Step
    recommends
        pos < src.len(),
{
    match rule_at(src, pos) {
        Rule::Punctuation => punctuation_step(src, file, pos),
        Rule::Operator => operator_step(src, file, pos),
        Rule::Comment => comment_step(src, pos),
        Rule::StringLiteral => string_step(src, file, pos),
        Rule::Word => word_step(src, file, pos),
        Rule::Number => number_step(src, file, pos),
        Rule::Blank => Step { outcome: ScannedView::Skipped, next: pos + 1 },
        Rule::Unknown => unknown_step(src, file, pos),
    }
}

/// The tokens and diagnostics of a stretch of text, each in the order of the
/// text.
pub struct Scan {
    pub tokens: Seq<TokenView>,
    pub errors: Seq<RigErrorView>,
}

impl Scan {
    /// The scan of an empty stretch of text.
    pub open spec fn empty() -> Scan {
        Scan { tokens: Seq::empty(), errors: Seq::empty() }
    }

    /// This scan behind the outcome of one step.
    pub open spec fn after(self, outcome: ScannedView) -> Scan {
        match outcome {
            ScannedView::Token(t) => Scan { tokens: seq![t] + self.tokens, errors: self.errors },
            ScannedView::Fault(e) => Scan { tokens: self.tokens, errors: seq![e] + self.errors },
            ScannedView::Skipped => self,
        }
    }
}

/// The scan of the text from index `pos` to its end: step by step.
pub open spec fn scan_from(src: Seq<char>, file: Seq<char>, pos: nat) -> Scan
    decreases src.len() - pos,
{
    if pos >= src.len() {
        Scan::empty()
    } else {
        let step = step_at(src, file, pos);
        proof {
            lemma_step_advances(src, file, pos);
        }
        scan_from(src, file, step.next).after(step.outcome)
    }
}

/// The index at which scanning from index `pos` ends: the end of the text, or
/// `pos` itself if that lies behind it.
pub open spec fn final_position(src: Seq<char>, pos: nat) -> nat {
    if pos <= src.len() {
        src.len()
    } else {
        pos
    }
}

/// The token that ends every token sequence.
pub open spec fn eof_token(src: Seq<char>, file: Seq<char>, pos: nat) -> TokenView {
    TokenView {
        token_type: TokenType::EOF,
        lexeme: Seq::empty(),
        literal: Seq::empty(),
        span: span_at(src, file, final_position(src, pos)),
    }
}

/// The tokens of the text from index `pos`: those of the scan, then the
/// end-of-file token.
pub open spec fn tokens_from(src: Seq<char>, file: Seq<char>, pos: nat) -> Seq<TokenView> {
    scan_from(src, file, pos).tokens.push(eof_token(src, file, pos))
}

/// The diagnostics of the text from index `pos`.
pub open spec fn errors_from(src: Seq<char>, file: Seq<char>, pos: nat) -> Seq<RigErrorView> {
    scan_from(src, file, pos).errors
}

/// A line number is at most one more than the index, a column at most the
/// index.
pub proof fn lemma_position_bounds(src: Seq<char>, pos: nat)
    ensures
        1 <= line_at(src, pos) <= pos + 1,
        column_at(src, pos) <= pos,
    decreases pos,
{
    if pos > 0 {
        lemma_position_bounds(src, (pos - 1) as nat);
    }
}

/// Lines do not count down along the text.
pub proof fn lemma_line_monotone(src: Seq<char>, first: nat, last: nat)
    requires
        first <= last,
    ensures
        line_at(src, first) <= line_at(src, last),
    decreases last,
{
    if first < last {
        lemma_line_monotone(src, first, (last - 1) as nat);
    }
}

/// A word ends at or behind the index where the search began, inside the
/// text, and holds word characters only.
pub proof fn lemma_word_end(src: Seq<char>, from: nat)
    requires
        from <= src.len(),
    ensures
        from <= word_end(src, from) <= src.len(),
        forall|k: int| from <= k < word_end(src, from) ==> is_word_char(#[trigger] src[k]),
        char_at(src, word_end(src, from)) matches Some(c) ==> !is_word_char(c),
    decreases src.len() - from,
{
    if from < src.len() && is_word_char(src[from as int]) {
        lemma_word_end(src, from + 1);
    }
}

/// A run of digits ends at or behind the index where the search began, inside
/// the text, and holds digits only.
pub proof fn lemma_digits_end(src: Seq<char>, from: nat)
    requires
        from <= src.len(),
    ensures
        from <= digits_end(src, from) <= src.len(),
        forall|k: int| from <= k < digits_end(src, from) ==> is_digit(#[trigger] src[k]),
        char_at(src, digits_end(src, from)) matches Some(c) ==> !is_digit(c),
    decreases src.len() - from,
{
    if from < src.len() && is_digit(src[from as int]) {
        lemma_digits_end(src, from + 1);
    }
}

/// A line ends at or behind the index where the search began, inside the
/// text, and holds no line feed before its end.
pub proof fn lemma_line_end(src: Seq<char>, from: nat)
    requires
        from <= src.len(),
    ensures
        from <= line_end(src, from) <= src.len(),
        forall|k: int| from <= k < line_end(src, from) ==> #[trigger] src[k] != '\n',
        char_at(src, line_end(src, from)) matches Some(c) ==> c == '\n',
    decreases src.len() - from,
{
    if from < src.len() && src[from as int] != '\n' {
        lemma_line_end(src, from + 1);
    }
}

/// Where the body of a string literal ends: at a quote inside the text, at a
/// character behind a backslash inside the text, or at the end of the text.
pub proof fn lemma_string_body(src: Seq<char>, from: nat)
    requires
        from <= src.len(),
    ensures
        from <= string_body(src, from).at <= src.len(),
        string_body(src, from).end is Closed ==> string_body(src, from).at < src.len()
            && src[string_body(src, from).at as int] == '"',
        string_body(src, from).end is InvalidEscape ==> from < string_body(src, from).at
            < src.len() && src[string_body(src, from).at - 1] == '\\' && escape_value(
            src[string_body(src, from).at as int],
        ) is None,
        string_body(src, from).end is Unterminated ==> string_body(src, from).at == src.len(),
        string_body(src, from).end is EofInEscape ==> string_body(src, from).at == src.len()
            && from < src.len() && src[src.len() - 1] == '\\',
    decreases src.len() - from,
{
    if from >= src.len() {
    } else if src[from as int] == '"' {
    } else if src[from as int] == '\\' {
        if from + 1 < src.len() && escape_value(src[from as int + 1]) is Some {
            lemma_string_body(src, from + 2);
        }
    } else {
        lemma_string_body(src, from + 1);
    }
}

/// Every step moves on, and none moves past the end of the text.
pub proof fn lemma_step_advances(src: Seq<char>, file: Seq<char>, pos: nat)
    requires
        pos < src.len(),
    ensures
        pos < step_at(src, file, pos).next <= src.len(),
{
    lemma_line_end(src, pos + 1);
    lemma_string_body(src, pos + 1);
    lemma_word_end(src, pos + 1);
    lemma_digits_end(src, pos);
    let whole_end = digits_end(src, pos);
    if whole_end < src.len() {
        lemma_digits_end(src, whole_end + 1);
    }
}

} // verus!
