//! Tokens: their kinds, the table of symbols and the reserved words.

use vstd::prelude::*;
use vstd::string::StrSliceExecFns;
use crate::span::{Span, SpanView};
use crate::text::text_eq;

verus! {

/// The kind of a token.
#[derive(Debug, Clone, Copy, PartialEq, Eq, Structural)]
pub enum TokenType {
    LeftParen,
    RightParen,
    LeftBrace,
    RightBrace,
    LeftThirdBracket,
    RightThirdBracket,
    Comma,
    Semicolon,
    Dot,
    Colon,
    Scope,
    Bang,
    NotEqual,
    Plus,
    PlusEquals,
    Minus,
    MinusEquals,
    Arrow,
    Multiply,
    MultiplyEquals,
    Divide,
    DivideEquals,
    Modulus,
    ModulusEquals,
    AndOp,
    AndOpEquals,
    And,
    OrOp,
    OrOpEquals,
    Or,
    Xor,
    XorEquals,
    Equal,
    EqualEqual,
    FatArrow,
    LessThan,
    LessThanOrEquals,
    LeftShift,
    LeftShiftEquals,
    GreaterThan,
    GreaterThanOrEquals,
    RightShift,
    RightShiftEquals,
    StringLiteral,
    NumberLiteral,
    Identifier,
    Keyword,
    EOF,
}

/// One token: its kind, the text it was read from, the value that the text
/// stands for, and where it stood.
#[derive(Debug, PartialEq, Eq)]
pub struct Token {
    pub token_type: TokenType,
    pub lexeme: String,
    pub literal: String,
    pub span: Span,
}

/// The mathematical value of a [`Token`].
pub struct TokenView {
    pub token_type: TokenType,
    pub lexeme: Seq<char>,
    pub literal: Seq<char>,
    pub span: SpanView,
}

impl View for Token {
    type V = TokenView;

    open spec fn view(&self) -> TokenView {
        TokenView {
            token_type: self.token_type,
            lexeme: self.lexeme@,
            literal: self.literal@,
            span: self.span@,
        }
    }
}

impl Clone for Token {
    fn clone(&self) -> (copy: Token)
        ensures
            copy == *self,
    {
        Token {
            token_type: self.token_type,
            lexeme: self.lexeme.clone(),
            literal: self.literal.clone(),
            span: self.span.clone(),
        }
    }
}

/// The values of a sequence of tokens, in order.
pub open spec fn token_views(tokens: Seq<Token>) -> Seq<TokenView> {
    tokens.map_values(|t: Token| t@)
}

/// The kind of the punctuation mark `c`, if it is one.
pub open spec fn punctuation_type(c: char) -> Option<TokenType> {
    if c == '(' {
        Some(TokenType::LeftParen)
    } else if c == ')' {
        Some(TokenType::RightParen)
    } else if c == '{' {
        Some(TokenType::LeftBrace)
    } else if c == '}' {
        Some(TokenType::RightBrace)
    } else if c == '[' {
        Some(TokenType::LeftThirdBracket)
    } else if c == ']' {
        Some(TokenType::RightThirdBracket)
    } else if c == ',' {
        Some(TokenType::Comma)
    } else if c == ';' {
        Some(TokenType::Semicolon)
    } else if c == '.' {
        Some(TokenType::Dot)
    } else {
        None
    }
}

/// The kind of the operator that is written with the one character `a`.
pub open spec fn operator_of_one(a: char) -> Option<TokenType> {
    if a == ':' {
        Some(TokenType::Colon)
    } else if a == '!' {
        Some(TokenType::Bang)
    } else if a == '+' {
        Some(TokenType::Plus)
    } else if a == '-' {
        Some(TokenType::Minus)
    } else if a == '*' {
        Some(TokenType::Multiply)
    } else if a == '/' {
        Some(TokenType::Divide)
    } else if a == '%' {
        Some(TokenType::Modulus)
    } else if a == '&' {
        Some(TokenType::AndOp)
    } else if a == '|' {
        Some(TokenType::OrOp)
    } else if a == '^' {
        Some(TokenType::Xor)
    } else if a == '=' {
        Some(TokenType::Equal)
    } else if a == '<' {
        Some(TokenType::LessThan)
    } else if a == '>' {
        Some(TokenType::GreaterThan)
    } else {
        None
    }
}

/// The kind of the operator that is written with the two characters `a`, `b`.
pub open spec fn operator_of_two(a: char, b: char) -> Option<TokenType> {
    if a == ':' && b == ':' {
        Some(TokenType::Scope)
    } else if a == '!' && b == '=' {
        Some(TokenType::NotEqual)
    } else if a == '+' && b == '=' {
        Some(TokenType::PlusEquals)
    } else if a == '-' && b == '=' {
        Some(TokenType::MinusEquals)
    } else if a == '-' && b == '>' {
        Some(TokenType::Arrow)
    } else if a == '*' && b == '=' {
        Some(TokenType::MultiplyEquals)
    } else if a == '/' && b == '=' {
        Some(TokenType::DivideEquals)
    } else if a == '%' && b == '=' {
        Some(TokenType::ModulusEquals)
    } else if a == '&' && b == '=' {
        Some(TokenType::AndOpEquals)
    } else if a == '&' && b == '&' {
        Some(TokenType::And)
    } else if a == '|' && b == '=' {
        Some(TokenType::OrOpEquals)
    } else if a == '|' && b == '|' {
        Some(TokenType::Or)
    } else if a == '^' && b == '=' {
        Some(TokenType::XorEquals)
    } else if a == '=' && b == '=' {
        Some(TokenType::EqualEqual)
    } else if a == '=' && b == '>' {
        Some(TokenType::FatArrow)
    } else if a == '<' && b == '=' {
        Some(TokenType::LessThanOrEquals)
    } else if a == '<' && b == '<' {
        Some(TokenType::LeftShift)
    } else if a == '>' && b == '=' {
        Some(TokenType::GreaterThanOrEquals)
    } else if a == '>' && b == '>' {
        Some(TokenType::RightShift)
    } else {
        None
    }
}

/// The kind of the operator that is written with the three characters `a`,
/// `b`, `c`.
pub open spec fn operator_of_three(a: char, b: char, c: char) -> Option<TokenType> {
    if a == '<' && b == '<' && c == '=' {
        Some(TokenType::LeftShiftEquals)
    } else if a == '>' && b == '>' && c == '=' {
        Some(TokenType::RightShiftEquals)
    } else {
        None
    }
}

/// The table of operators: the kind of the operator whose whole text is `s`.
pub open spec fn operator_type(s: Seq<char>) -> Option<TokenType> {
    if s.len() == 1 {
        operator_of_one(s[0])
    } else if s.len() == 2 {
        operator_of_two(s[0], s[1])
    } else if s.len() == 3 {
        operator_of_three(s[0], s[1], s[2])
    } else {
        None
    }
}

/// The table of symbols: the kind of the punctuation mark or operator whose
/// whole text is `s`.
pub open spec fn symbol_type(s: Seq<char>) -> Option<TokenType> {
    if s.len() == 1 && punctuation_type(s[0]) is Some {
        punctuation_type(s[0])
    } else {
        operator_type(s)
    }
}

/// The reserved words.
pub open spec fn keywords() -> Set<Seq<char>> {
    set![
        "let"@,
        "mut"@,
        "fn"@,
        "if"@,
        "else"@,
        "while"@,
        "for"@,
        "in"@,
        "loop"@,
        "break"@,
        "continue"@,
        "return"@,
        "struct"@,
        "impl"@,
        "use"@,
        "mod"@,
        "pub"@,
        "true"@,
        "false"@,
        "null"@,
        "self"@,
    ]
}

/// Whether `word` is reserved.
pub open spec fn is_keyword(word: Seq<char>) -> bool {
    keywords().contains(word)
}

/// Whether `word` is one of the reserved words.
pub fn is_reserved(word: &str) -> (reserved: bool)
    ensures
        reserved == is_keyword(word@),
{
    text_eq(word, "let") || text_eq(word, "mut") || text_eq(word, "fn") || text_eq(word, "if")
        || text_eq(word, "else") || text_eq(word, "while") || text_eq(word, "for")
        || text_eq(word, "in") || text_eq(word, "loop") || text_eq(word, "break")
        || text_eq(word, "continue") || text_eq(word, "return") || text_eq(word, "struct")
        || text_eq(word, "impl") || text_eq(word, "use") || text_eq(word, "mod")
        || text_eq(word, "pub") || text_eq(word, "true") || text_eq(word, "false")
        || text_eq(word, "null") || text_eq(word, "self")
}

/// The kind of an identifier-shaped word: a keyword if it is reserved, an
/// identifier otherwise.
pub open spec fn word_type(word: Seq<char>) -> TokenType {
    if is_keyword(word) {
        TokenType::Keyword
    } else {
        TokenType::Identifier
    }
}

/// Looks a whole symbol up in the table of symbols.
pub fn symbol_of(text: &str) -> (kind: Option<TokenType>)
    ensures
        kind == symbol_type(text@),
{
    let n = text.unicode_len();
    if n == 1 {
        let a = text.get_char(0);
        match punctuation_of(a) {
            Some(kind) => Some(kind),
            None => operator_of(a, None, None),
        }
    } else if n == 2 {
        operator_of(text.get_char(0), Some(text.get_char(1)), None)
    } else if n == 3 {
        operator_of(text.get_char(0), Some(text.get_char(1)), Some(text.get_char(2)))
    } else {
        None
    }
}

/// Looks a character up among the punctuation marks.
pub fn punctuation_of(c: char) -> (kind: Option<TokenType>)
    ensures
        kind == punctuation_type(c),
{
    match c {
        '(' => Some(TokenType::LeftParen),
        ')' => Some(TokenType::RightParen),
        '{' => Some(TokenType::LeftBrace),
        '}' => Some(TokenType::RightBrace),
        '[' => Some(TokenType::LeftThirdBracket),
        ']' => Some(TokenType::RightThirdBracket),
        ',' => Some(TokenType::Comma),
        ';' => Some(TokenType::Semicolon),
        '.' => Some(TokenType::Dot),
        _ => None,
    }
}

/// The operator spelled by exactly the characters given: `a` alone, `a` and
/// `b`, or all three. A third character without a second spells nothing.
pub open spec fn operator_spelled(a: char, b: Option<char>, c: Option<char>) -> Option<TokenType> {
    match (b, c) {
        (None, None) => operator_of_one(a),
        (Some(b), None) => operator_of_two(a, b),
        (Some(b), Some(c)) => operator_of_three(a, b, c),
        (None, Some(_)) => None,
    }
}

/// Looks up the operator spelled by exactly the characters given.
pub fn operator_of(a: char, b: Option<char>, c: Option<char>) -> (kind: Option<TokenType>)
    ensures
        kind == operator_spelled(a, b, c),
{
    match (b, c) {
        (None, None) => match a {
            ':' => Some(TokenType::Colon),
            '!' => Some(TokenType::Bang),
            '+' => Some(TokenType::Plus),
            '-' => Some(TokenType::Minus),
            '*' => Some(TokenType::Multiply),
            '/' => Some(TokenType::Divide),
            '%' => Some(TokenType::Modulus),
            '&' => Some(TokenType::AndOp),
            '|' => Some(TokenType::OrOp),
            '^' => Some(TokenType::Xor),
            '=' => Some(TokenType::Equal),
            '<' => Some(TokenType::LessThan),
            '>' => Some(TokenType::GreaterThan),
            _ => None,
        },
        (Some(b), None) => match (a, b) {
            (':', ':') => Some(TokenType::Scope),
            ('!', '=') => Some(TokenType::NotEqual),
            ('+', '=') => Some(TokenType::PlusEquals),
            ('-', '=') => Some(TokenType::MinusEquals),
            ('-', '>') => Some(TokenType::Arrow),
            ('*', '=') => Some(TokenType::MultiplyEquals),
            ('/', '=') => Some(TokenType::DivideEquals),
            ('%', '=') => Some(TokenType::ModulusEquals),
            ('&', '=') => Some(TokenType::AndOpEquals),
            ('&', '&') => Some(TokenType::And),
            ('|', '=') => Some(TokenType::OrOpEquals),
            ('|', '|') => Some(TokenType::Or),
            ('^', '=') => Some(TokenType::XorEquals),
            ('=', '=') => Some(TokenType::EqualEqual),
            ('=', '>') => Some(TokenType::FatArrow),
            ('<', '=') => Some(TokenType::LessThanOrEquals),
            ('<', '<') => Some(TokenType::LeftShift),
            ('>', '=') => Some(TokenType::GreaterThanOrEquals),
            ('>', '>') => Some(TokenType::RightShift),
            _ => None,
        },
        (Some(b), Some(c)) => match (a, b, c) {
            ('<', '<', '=') => Some(TokenType::LeftShiftEquals),
            ('>', '>', '=') => Some(TokenType::RightShiftEquals),
            _ => None,
        },
        (None, Some(_)) => None,
    }
}

} // verus!
