//! The scanner: from source text to tokens and diagnostics.

use vstd::prelude::*;
use vstd::string::{is_ascii, StrSliceExecFns};
use crate::error::{error_views, ErrorCode, ErrorType, RigError, RigErrorView};
use crate::escape::escape;
use crate::scan::{
    char_at, column_at, digits_end, errors_from, final_position, is_word_char, is_word_start,
    lemma_digits_end, lemma_position_bounds, lemma_step_advances, lemma_string_body, line_at,
    line_end, number_step, operator_len, plain_token, rule_of, scan_from, step_at, string_body,
    string_step, tokens_from, word_end, word_step, Rule, Scan, ScannedView, StringBody, StringEnd,
};
use crate::scan_laws::lemma_eof_sentinel;
use crate::span::{single_char_span, Span};
use crate::text::{is_ascii_digit, is_digit};
use crate::token::{
    is_reserved, operator_of, operator_type, punctuation_of, token_views, Token, TokenType,
    TokenView,
};

verus! {

/// What the scanner made of the text at one position.
#[derive(Debug, PartialEq, Eq)]
pub enum Scanned {
    Token(Token),
    Fault(RigError),
    Skipped,
}

impl View for Scanned {
    type V = ScannedView;

    open spec fn view(&self) -> ScannedView {
        match self {
            Scanned::Token(t) => ScannedView::Token(t@),
            Scanned::Fault(e) => ScannedView::Fault(e@),
            Scanned::Skipped => ScannedView::Skipped,
        }
    }
}

/// Chooses the rule for the character `c`, given whether an operator begins at
/// it, whether it may begin a word and whether it is white space.
pub fn choose_rule(c: char, operator: bool, word_start: bool, blank: bool) -> (rule: Rule)
    ensures
        rule == rule_of(c, operator, word_start, blank),
{
    if punctuation_of(c).is_some() {
        Rule::Punctuation
    } else if operator {
        Rule::Operator
    } else if c == '#' {
        Rule::Comment
    } else if c == '"' {
        Rule::StringLiteral
    } else if word_start {
        Rule::Word
    } else if is_ascii_digit(c) {
        Rule::Number
    } else if blank {
        Rule::Blank
    } else {
        Rule::Unknown
    }
}

/// Whether `c` may begin an identifier or keyword.
pub fn begins_word(c: char) -> (b: bool)
    ensures
        b == is_word_start(c),
{
    c.is_alphabetic() || c == '_'
}

/// Whether `c` may stand inside an identifier or keyword.
pub fn continues_word(c: char) -> (b: bool)
    ensures
        b == is_word_char(c),
{
    c.is_alphanumeric() || c == '_'
}

/// A scanner over one source text, which it borrows. It keeps an index into
/// the characters of the text, and the line and column of the character at
/// that index. It also keeps the number of characters and whether all of them
/// are ASCII, in which case it finds each one at its index in constant time.
pub struct Lexer<'l> {
    file_contents: &'l str,
    file_path: &'l str,
    length: usize,
    ascii: bool,
    line: usize,
    offset: usize,
    pos: usize,
}

impl<'l> Lexer<'l> {
    /// The characters of the source text.
    pub closed spec fn source(&self) -> Seq<char> {
        self.file_contents@
    }

    /// The path of the source file, as diagnostics and spans name it.
    pub closed spec fn file(&self) -> Seq<char> {
        self.file_path@
    }

    /// The index of the character that the scanner stands on.
    pub closed spec fn position(&self) -> nat {
        self.pos as nat
    }

    /// What the scanner keeps about the text is true of it.
    #[verifier::type_invariant]
    spec fn knows_the_text(&self) -> bool {
        &&& self.length == self.file_contents@.len()
        &&& self.ascii ==> is_ascii(self.file_contents)
    }

    /// The line that the scanner has counted.
    pub closed spec fn line(&self) -> nat {
        self.line as nat
    }

    /// The column that the scanner has counted.
    pub closed spec fn column(&self) -> nat {
        self.offset as nat
    }

    /// The line and column that the scanner has counted are those of its
    /// index.
    pub open spec fn well_formed(&self) -> bool {
        &&& self.line() == line_at(self.source(), self.position())
        &&& self.column() == column_at(self.source(), self.position())
    }

    /// A scanner at the beginning of `file_contents`.
    pub fn new(file_contents: &'l str, file_path: &'l str) -> (lexer: Self)
        ensures
            lexer.well_formed(),
            lexer.source() == file_contents@,
            lexer.file() == file_path@,
            lexer.position() == 0,
    {
        Lexer {
            file_contents,
            file_path,
            length: file_contents.unicode_len(),
            ascii: file_contents.is_ascii(),
            pos: 0,
            line: 1,
            offset: 0,
        }
    }

    /// The character behind the one that the scanner stands on.
    pub fn peek_next(&self) -> (c: Option<char>)
        ensures
            c == char_at(self.source(), self.position() + 1),
    {
        proof {
            use_type_invariant(self);
        }
        if self.pos < self.length && self.pos + 1 < self.length {
            Some(self.at(self.pos + 1))
        } else {
            None
        }
    }

    /// The character that the scanner stands on.
    pub fn peek(&self) -> (c: Option<char>)
        ensures
            c == char_at(self.source(), self.position()),
    {
        proof {
            use_type_invariant(self);
        }
        if self.pos < self.length {
            Some(self.at(self.pos))
        } else {
            None
        }
    }

    /// Whether the scanner has left the text behind.
    pub fn eof(&self) -> (ended: bool)
        ensures
            ended == (self.position() >= self.source().len()),
    {
        proof {
            use_type_invariant(self);
        }
        self.pos >= self.length
    }

    /// Moves to the next character and counts lines and columns: stepping
    /// onto a line feed opens a new line at column 0, stepping off one keeps
    /// the column, any other step adds one to it.
    pub fn advance(&mut self)
        requires
            old(self).well_formed(),
            old(self).position() < usize::MAX,
        ensures
            final(self).well_formed(),
            final(self).position() == old(self).position() + 1,
            final(self).source() == old(self).source(),
            final(self).file() == old(self).file(),
    {
        proof {
            lemma_position_bounds(self.source(), self.position());
            lemma_position_bounds(self.source(), self.position() + 1);
        }
        proof {
            use_type_invariant(&*self);
        }
        if !(self.pos < self.length && self.at(self.pos) == '\n') {
            self.offset += 1;
        }
        self.pos += 1;
        if self.pos < self.length && self.at(self.pos) == '\n' {
            self.line += 1;
            self.offset = 0;
        }
    }

    /// The character at index `i` of the text.
    fn at(&self, i: usize) -> (c: char)
        requires
            i < self.source().len(),
        ensures
            c == self.source()[i as int],
    {
        proof {
            use_type_invariant(self);
        }
        if self.ascii {
            self.file_contents.get_ascii(i) as char
        } else {
            self.file_contents.get_char(i)
        }
    }

    /// The characters of the text from index `from` up to, not including,
    /// index `to`.
    fn text_between(&self, from: usize, to: usize) -> (text: String)
        requires
            from <= to <= self.source().len(),
        ensures
            text@ == self.source().subrange(from as int, to as int),
    {
        proof {
            use_type_invariant(self);
        }
        if self.ascii {
            self.file_contents.substring_ascii(from, to).to_owned()
        } else {
            self.file_contents.substring_char(from, to).to_owned()
        }
    }

    /// Moves forward to the index `target`.
    fn advance_to(&mut self, target: usize)
        requires
            old(self).well_formed(),
            old(self).position() <= target,
        ensures
            final(self).well_formed(),
            final(self).position() == target,
            final(self).source() == old(self).source(),
            final(self).file() == old(self).file(),
    {
        while self.pos < target
            invariant
                self.well_formed(),
                self.position() <= target,
                self.source() == old(self).source(),
                self.file() == old(self).file(),
            decreases target - self.pos,
        {
            self.advance();
        }
    }

    /// The span from the character that the scanner stands on back to the one
    /// where it stood at line `line`, column `column`.
    fn span_from(&self, line: usize, column: usize) -> (span: Span)
        ensures
            span@.file_name == self.file(),
            span@.starting_line == line,
            span@.starting_line_offset == column,
            span@.ending_line == self.line(),
            span@.ending_line_end_offset == self.column(),
    {
        Span {
            file_name: self.file_path.to_owned(),
            starting_line: line,
            starting_line_offset: column,
            ending_line: self.line,
            ending_line_end_offset: self.offset,
        }
    }

    /// The span of the character that the scanner stands on.
    fn span_here(&self) -> (span: Span)
        ensures
            span@ == single_char_span(self.file(), self.line(), self.column()),
    {
        Span::for_single_char(self.file_path, self.line, self.offset)
    }

    /// Reads the token whose text runs from the scanner's index up to, not
    /// including, `end`, and moves there.
    fn take_token(&mut self, token_type: TokenType, end: usize) -> (token: Token)
        requires
            old(self).well_formed(),
            old(self).position() < end <= old(self).source().len(),
        ensures
            final(self).well_formed(),
            final(self).position() == end,
            final(self).source() == old(self).source(),
            final(self).file() == old(self).file(),
            token@ == plain_token(
                old(self).source(),
                old(self).file(),
                token_type,
                old(self).position(),
                end as nat,
            ),
    {
        let line = self.line;
        let start = self.offset;
        let lexeme = self.text_between(self.pos, end);
        let literal = lexeme.clone();
        self.advance_to(end - 1);
        let last = self.offset;
        self.advance();
        Token {
            token_type,
            lexeme,
            literal,
            span: Span::for_single_line(self.file_path, line, start, last),
        }
    }

    /// The index at which the word that runs through `from` ends.
    fn find_word_end(&self, from: usize) -> (end: usize)
        requires
            from <= self.source().len(),
        ensures
            end == word_end(self.source(), from as nat),
            from <= end <= self.source().len(),
    {
        proof {
            use_type_invariant(self);
        }
        let n = self.length;
        let mut end = from;
        while end < n && continues_word(self.at(end))
            invariant
                n == self.source().len(),
                from <= end <= n,
                word_end(self.source(), from as nat) == word_end(self.source(), end as nat),
            decreases n - end,
        {
            end += 1;
        }
        end
    }

    /// The index at which the run of digits that begins at `from` ends.
    fn find_digits_end(&self, from: usize) -> (end: usize)
        requires
            from <= self.source().len(),
        ensures
            end == digits_end(self.source(), from as nat),
            from <= end <= self.source().len(),
    {
        proof {
            use_type_invariant(self);
        }
        let n = self.length;
        let mut end = from;
        while end < n && is_ascii_digit(self.at(end))
            invariant
                n == self.source().len(),
                from <= end <= n,
                digits_end(self.source(), from as nat) == digits_end(self.source(), end as nat),
            decreases n - end,
        {
            end += 1;
        }
        end
    }

    /// The index at which the line that runs through `from` ends.
    fn find_line_end(&self, from: usize) -> (end: usize)
        requires
            from <= self.source().len(),
        ensures
            end == line_end(self.source(), from as nat),
            from <= end <= self.source().len(),
    {
        proof {
            use_type_invariant(self);
        }
        let n = self.length;
        let mut end = from;
        while end < n && self.at(end) != '\n'
            invariant
                n == self.source().len(),
                from <= end <= n,
                line_end(self.source(), from as nat) == line_end(self.source(), end as nat),
            decreases n - end,
        {
            end += 1;
        }
        end
    }

    /// The length of the longest operator that begins where the scanner
    /// stands, with its kind.
    fn longest_operator(&self) -> (found: Option<(usize, TokenType)>)
        requires
            self.position() < self.source().len(),
        ensures
            match found {
                Some((len, kind)) => len == operator_len(self.source(), self.position()) && len > 0
                    && Some(kind) == operator_type(
                    self.source().subrange(
                        self.position() as int,
                        self.position() + len,
                    ),
                ),
                None => operator_len(self.source(), self.position()) == 0,
            },
    {
        proof {
            use_type_invariant(self);
        }
        let n = self.length;
        let a = self.at(self.pos);
        let b = if self.pos + 1 < n {
            Some(self.at(self.pos + 1))
        } else {
            None
        };
        let c = if self.pos + 1 < n && self.pos + 2 < n {
            Some(self.at(self.pos + 2))
        } else {
            None
        };
        if b.is_some() && c.is_some() {
            if let Some(kind) = operator_of(a, b, c) {
                return Some((3, kind));
            }
        }
        if b.is_some() {
            if let Some(kind) = operator_of(a, b, None) {
                return Some((2, kind));
            }
        }
        match operator_of(a, None, None) {
            Some(kind) => Some((1, kind)),
            None => None,
        }
    }

    /// Reads the body of a string literal from index `from` on: how it ends,
    /// where, and the characters decoded on the way.
    fn read_string_body(&self, from: usize) -> (body: (StringEnd, usize, String))
        requires
            from <= self.source().len(),
        ensures
            string_body(self.source(), from as nat) == (StringBody {
                end: body.0,
                at: body.1 as nat,
                literal: body.2@,
            }),
    {
        proof {
            use_type_invariant(self);
        }
        let n = self.length;
        let mut literal = String::new();
        let mut i = from;
        let mut ended: Option<StringEnd> = None;
        let mut at = from;
        while ended.is_none()
            invariant
                n == self.source().len(),
                from <= i <= n,
                match ended {
                    None => string_body(self.source(), from as nat) == (StringBody {
                        end: string_body(self.source(), i as nat).end,
                        at: string_body(self.source(), i as nat).at,
                        literal: literal@ + string_body(self.source(), i as nat).literal,
                    }),
                    Some(end) => string_body(self.source(), from as nat) == (StringBody {
                        end,
                        at: at as nat,
                        literal: literal@,
                    }),
                },
            decreases
                    if ended is None {
                        n - i + 1
                    } else {
                        0
                    },
        {
            let ghost before = literal@;
            let ghost rest = string_body(self.source(), i as nat);
            if i >= n {
                ended = Some(StringEnd::Unterminated);
                at = n;
                assert(before + rest.literal =~= before);
            } else {
                let c = self.at(i);
                if c == '"' {
                    ended = Some(StringEnd::Closed);
                    at = i;
                    assert(before + rest.literal =~= before);
                } else if c == '\\' {
                    if i + 1 >= n {
                        ended = Some(StringEnd::EofInEscape);
                        at = n;
                        assert(before + rest.literal =~= before);
                    } else {
                        match escape(self.at(i + 1)) {
                            Some(decoded) => {
                                literal.push(decoded);
                                i += 2;
                                assert(before + rest.literal =~= literal@ + string_body(
                                    self.source(),
                                    i as nat,
                                ).literal);
                            },
                            None => {
                                ended = Some(StringEnd::InvalidEscape);
                                at = i + 1;
                                assert(before + rest.literal =~= before);
                            },
                        }
                    }
                } else {
                    literal.push(c);
                    i += 1;
                    assert(before + rest.literal =~= literal@ + string_body(
                        self.source(),
                        i as nat,
                    ).literal);
                }
            }
        }
        (ended.unwrap(), at, literal)
    }

    /// The step at an opening quote.
    fn scan_string(&mut self) -> (outcome: Scanned)
        requires
            old(self).well_formed(),
            old(self).position() < old(self).source().len(),
        ensures
            final(self).well_formed(),
            final(self).source() == old(self).source(),
            final(self).file() == old(self).file(),
            outcome@ == string_step(
                old(self).source(),
                old(self).file(),
                old(self).position(),
            ).outcome,
            final(self).position() == string_step(
                old(self).source(),
                old(self).file(),
                old(self).position(),
            ).next,
    {
        proof {
            use_type_invariant(&*self);
        }
        let start = self.pos;
        let line = self.line;
        let column = self.offset;
        let (end, at, literal) = self.read_string_body(start + 1);
        proof {
            lemma_string_body(self.source(), (start + 1) as nat);
        }
        match end {
            StringEnd::Closed => {
                let lexeme = self.text_between(start, at + 1);
                self.advance_to(at);
                let span = self.span_from(line, column);
                self.advance();
                Scanned::Token(
                    Token { token_type: TokenType::StringLiteral, lexeme, literal, span },
                )
            },
            StringEnd::Unterminated => {
                self.advance_to(at);
                let span = self.span_from(line, column);
                let hint_span = self.span_from(line, column);
                Scanned::Fault(
                    RigError::with_hint(
                        ErrorType::Hard,
                        ErrorCode::E0002,
                        "Unterminated string literal",
                        span,
                        "Insert `\"` here",
                        hint_span,
                    ),
                )
            },
            StringEnd::InvalidEscape => {
                self.advance_to(at - 1);
                let escape_line = self.line;
                let escape_column = self.offset;
                self.advance();
                let span = self.span_from(escape_line, escape_column);
                Scanned::Fault(
                    RigError::with_no_hint_and_notes(
                        ErrorType::Hard,
                        ErrorCode::E0004,
                        "Invalid escape character",
                        span,
                    ),
                )
            },
            StringEnd::EofInEscape => {
                self.advance_to(at);
                let span = self.span_here();
                Scanned::Fault(
                    RigError::with_no_hint_and_notes(
                        ErrorType::Hard,
                        ErrorCode::E0005,
                        "Unexpected eof",
                        span,
                    ),
                )
            },
        }
    }

    /// The step at the first character of an identifier or keyword.
    fn scan_word(&mut self) -> (outcome: Scanned)
        requires
            old(self).well_formed(),
            old(self).position() < old(self).source().len(),
        ensures
            final(self).well_formed(),
            final(self).source() == old(self).source(),
            final(self).file() == old(self).file(),
            outcome@ == word_step(
                old(self).source(),
                old(self).file(),
                old(self).position(),
            ).outcome,
            final(self).position() == word_step(
                old(self).source(),
                old(self).file(),
                old(self).position(),
            ).next,
    {
        proof {
            use_type_invariant(&*self);
        }
        let end = self.find_word_end(self.pos + 1);
        let word = self.text_between(self.pos, end);
        let token_type = if is_reserved(word.as_str()) {
            TokenType::Keyword
        } else {
            TokenType::Identifier
        };
        Scanned::Token(self.take_token(token_type, end))
    }

    /// The step at the first digit of a number.
    fn scan_number(&mut self) -> (outcome: Scanned)
        requires
            old(self).well_formed(),
            old(self).position() < old(self).source().len(),
            is_digit(old(self).source()[old(self).position() as int]),
        ensures
            final(self).well_formed(),
            final(self).source() == old(self).source(),
            final(self).file() == old(self).file(),
            outcome@ == number_step(
                old(self).source(),
                old(self).file(),
                old(self).position(),
            ).outcome,
            final(self).position() == number_step(
                old(self).source(),
                old(self).file(),
                old(self).position(),
            ).next,
    {
        proof {
            use_type_invariant(&*self);
        }
        let n = self.length;
        let whole_end = self.find_digits_end(self.pos);
        proof {
            lemma_digits_end(self.source(), self.position() + 1);
        }
        if whole_end < n && self.at(whole_end) == '.' {
            let end = self.find_digits_end(whole_end + 1);
            if end < n && self.at(end) == '.' {
                self.advance_to(end);
                let span = self.span_here();
                let hint_span = self.span_here();
                self.advance();
                Scanned::Fault(
                    RigError::with_hint(
                        ErrorType::Hard,
                        ErrorCode::E0003,
                        "Invalid integer literal",
                        span,
                        "Remove this",
                        hint_span,
                    ),
                )
            } else {
                Scanned::Token(self.take_token(TokenType::NumberLiteral, end))
            }
        } else {
            Scanned::Token(self.take_token(TokenType::NumberLiteral, whole_end))
        }
    }

    /// One step of the scanner: reads what stands at its index (a token, a
    /// fault or nothing that counts) and moves behind it.
    pub fn scan_one(&mut self) -> (outcome: Scanned)
        requires
            old(self).well_formed(),
            old(self).position() < old(self).source().len(),
        ensures
            final(self).well_formed(),
            final(self).source() == old(self).source(),
            final(self).file() == old(self).file(),
            outcome@ == step_at(old(self).source(), old(self).file(), old(self).position()).outcome,
            final(self).position() == step_at(
                old(self).source(),
                old(self).file(),
                old(self).position(),
            ).next,
    {
        proof {
            use_type_invariant(&*self);
        }
        let c = self.at(self.pos);
        let operator = self.longest_operator();
        match choose_rule(c, operator.is_some(), begins_word(c), c.is_whitespace()) {
            Rule::Punctuation => {
                let kind = punctuation_of(c).unwrap();
                Scanned::Token(self.take_token(kind, self.pos + 1))
            },
            Rule::Operator => {
                let (len, kind) = operator.unwrap();
                Scanned::Token(self.take_token(kind, self.pos + len))
            },
            Rule::Comment => {
                let end = self.find_line_end(self.pos + 1);
                self.advance_to(end);
                Scanned::Skipped
            },
            Rule::StringLiteral => self.scan_string(),
            Rule::Word => self.scan_word(),
            Rule::Number => self.scan_number(),
            Rule::Blank => {
                self.advance();
                Scanned::Skipped
            },
            Rule::Unknown => {
                let span = self.span_here();
                self.advance();
                Scanned::Fault(
                    RigError::with_no_hint_and_notes(
                        ErrorType::Hard,
                        ErrorCode::E0001,
                        "Unknown character",
                        span,
                    ),
                )
            },
        }
    }

    /// Scans the text from the scanner's index to its end. The tokens come
    /// back in the order of the text with the end-of-file token behind them,
    /// the diagnostics in the order of the text. A fault costs the scan no
    /// more than the token it stood in.
    pub fn lex(&mut self) -> (out: (Vec<Token>, Vec<RigError>))
        requires
            old(self).well_formed(),
        ensures
            final(self).well_formed(),
            final(self).source() == old(self).source(),
            final(self).file() == old(self).file(),
            final(self).position() == final_position(old(self).source(), old(self).position()),
            token_views(out.0@) == tokens_from(
                old(self).source(),
                old(self).file(),
                old(self).position(),
            ),
            error_views(out.1@) == errors_from(
                old(self).source(),
                old(self).file(),
                old(self).position(),
            ),
            out.0@.len() >= 1,
            out.0@.last()@.token_type == TokenType::EOF,
            forall|i: int|
                0 <= i < out.0@.len() - 1 ==> (#[trigger] out.0@[i])@.token_type
                    != TokenType::EOF,
    {
        let mut tokens: Vec<Token> = Vec::new();
        let mut errors: Vec<RigError> = Vec::new();
        let ghost src = self.source();
        let ghost file = self.file();
        let ghost start = self.position();
        assert(token_views(tokens@) + scan_from(src, file, start).tokens =~= scan_from(
            src,
            file,
            start,
        ).tokens);
        assert(error_views(errors@) + scan_from(src, file, start).errors =~= scan_from(
            src,
            file,
            start,
        ).errors);
        while !self.eof()
            invariant
                self.well_formed(),
                self.source() == src,
                self.file() == file,
                start <= self.position(),
                self.position() <= final_position(src, start),
                scan_from(src, file, start).tokens == token_views(tokens@) + scan_from(
                    src,
                    file,
                    self.position(),
                ).tokens,
                scan_from(src, file, start).errors == error_views(errors@) + scan_from(
                    src,
                    file,
                    self.position(),
                ).errors,
            decreases src.len() - self.position(),
        {
            let ghost here = self.position();
            let ghost seen_tokens = token_views(tokens@);
            let ghost seen_errors = error_views(errors@);
            proof {
                lemma_step_advances(src, file, here);
            }
            let outcome = self.scan_one();
            let ghost rest = scan_from(src, file, self.position());
            match outcome {
                Scanned::Token(token) => {
                    tokens.push(token);
                    assert(token_views(tokens@) =~= seen_tokens.push(token@));
                    assert(seen_tokens + (seq![token@] + rest.tokens) =~= token_views(tokens@)
                        + rest.tokens);
                },
                Scanned::Fault(error) => {
                    errors.push(error);
                    assert(error_views(errors@) =~= seen_errors.push(error@));
                    assert(seen_errors + (seq![error@] + rest.errors) =~= error_views(errors@)
                        + rest.errors);
                },
                Scanned::Skipped => {},
            }
        }
        let ghost seen_tokens = token_views(tokens@);
        let span = self.span_here();
        let eof = Token {
            token_type: TokenType::EOF,
            lexeme: String::new(),
            literal: String::new(),
            span,
        };
        tokens.push(eof);
        proof {
            assert(scan_from(src, file, self.position()) == Scan::empty());
            assert(seen_tokens + Seq::<TokenView>::empty() =~= seen_tokens);
            assert(error_views(errors@) + Seq::<RigErrorView>::empty() =~= error_views(errors@));
            assert(token_views(tokens@) =~= seen_tokens.push(eof@));
            lemma_eof_sentinel(src, file, start);
            assert forall|i: int| 0 <= i < tokens@.len() - 1 implies (#[trigger] tokens@[
                i
            ])@.token_type != TokenType::EOF by {
                assert(tokens@[i]@ == token_views(tokens@)[i]);
            }
            assert(tokens@.last()@ == token_views(tokens@).last());
        }
        (tokens, errors)
    }
}

} // verus!
