//! The parser's hold on its tokens: a cursor, and the few ways to move it.

use vstd::prelude::*;
use vstd::string::StringExecFns;
use crate::ast::{Expr, ExprView};
use crate::error::{error_views, ErrorCode, ErrorType, Hint, RigError, RigErrorView};
use crate::expr::expr;
use crate::grammar::{
    consumed, expr_spec, index_after, number_is_readable, readable_tokens,
    resume_index, token_before, units_spec, well_formed_tokens, Units,
};
use crate::grammar_laws::lemma_resume_index;
use crate::number::{contains_char, parse_integer};
use crate::token::{token_views, Token, TokenType, TokenView};

verus! {

/// A parser over a token sequence: the tokens, the index of the token it
/// stands on, and the path of the file that the tokens came from.
pub struct Parser<'a> {
    tokens: &'a [Token],
    current: usize,
    source_path: String,
}

/// The file of the first token, or the empty path where there is no token.
pub open spec fn path_of_tokens(toks: Seq<TokenView>) -> Seq<char> {
    if toks.len() > 0 {
        toks[0].span.file_name
    } else {
        Seq::empty()
    }
}

impl<'a> Parser<'a> {
    /// The values of the tokens.
    pub closed spec fn tokens(&self) -> Seq<TokenView> {
        token_views(self.tokens@)
    }

    /// The path of the file that the tokens came from.
    pub closed spec fn source_path(&self) -> Seq<char> {
        self.source_path@
    }

    /// The index of the token that the parser stands on.
    pub closed spec fn cursor(&self) -> nat {
        self.current as nat
    }

    /// The tokens are well formed and the parser stands on one of them.
    pub open spec fn well_formed(&self) -> bool {
        &&& well_formed_tokens(self.tokens())
        &&& self.cursor() < self.tokens().len()
    }

    /// The parser is well formed and every number among its tokens can be
    /// read.
    pub open spec fn ready(&self) -> bool {
        &&& self.well_formed()
        &&& readable_tokens(self.tokens())
    }

    /// This parser has the tokens and the path of `before` and stands no
    /// earlier.
    pub open spec fn follows(&self, before: &Parser) -> bool {
        &&& self.well_formed()
        &&& self.tokens() == before.tokens()
        &&& self.source_path() == before.source_path()
        &&& before.cursor() <= self.cursor()
    }

    /// A parser at the first of `tokens`. The path for diagnostics is the
    /// file of the first token.
    pub fn new(tokens: &'a [Token]) -> (parser: Self)
        ensures
            parser.tokens() == token_views(tokens@),
            parser.cursor() == 0,
            parser.source_path() == path_of_tokens(token_views(tokens@)),
    {
        let source_path = if tokens.len() > 0 {
            tokens[0].span.file_name.clone()
        } else {
            String::new()
        };
        Parser { tokens, current: 0, source_path }
    }

    /// Whether the parser can move among its tokens: there is at least one,
    /// the last one is the end-of-file token, and the parser stands on a
    /// token.
    pub fn is_well_formed(&self) -> (ok: bool)
        ensures
            ok == self.well_formed(),
    {
        let n = self.tokens.len();
        n > 0 && self.current < n && self.tokens[n - 1].token_type == TokenType::EOF
    }

    /// Whether the parser can read expressions from its tokens: it can move
    /// among them, and every number without a decimal point fits in 64 bits.
    pub fn is_ready(&self) -> (ok: bool)
        ensures
            ok == self.ready(),
    {
        if !self.is_well_formed() {
            return false;
        }
        let n = self.tokens.len();
        let mut i: usize = 0;
        while i < n
            invariant
                i <= n,
                n == self.tokens@.len(),
                forall|k: int| 0 <= k < i ==> number_is_readable(#[trigger] self.tokens()[k]),
            decreases n - i,
        {
            let token = &self.tokens[i];
            if token.token_type == TokenType::NumberLiteral && !contains_char(
                token.lexeme.as_str(),
                '.',
            ) {
                if parse_integer(token.literal.as_str()).is_none() {
                    assert(!number_is_readable(self.tokens()[i as int]));
                    return false;
                }
            }
            i += 1;
        }
        true
    }

    /// The token that the parser stands on.
    pub fn peek(&self) -> (token: &'a Token)
        requires
            self.well_formed(),
        ensures
            token@ == self.tokens()[self.cursor() as int],
    {
        &self.tokens[self.current]
    }

    /// The token before the one that the parser stands on; at the first
    /// token, that token itself.
    pub fn previous(&self) -> (token: &'a Token)
        requires
            self.well_formed(),
        ensures
            token@ == token_before(self.tokens(), self.cursor()),
    {
        if self.current == 0 {
            &self.tokens[0]
        } else {
            &self.tokens[self.current - 1]
        }
    }

    /// Whether the parser stands on the end-of-file token.
    pub fn is_at_end(&self) -> (ended: bool)
        requires
            self.well_formed(),
        ensures
            ended == (self.tokens()[self.cursor() as int].token_type == TokenType::EOF),
    {
        self.tokens[self.current].token_type == TokenType::EOF
    }

    /// Whether the parser stands on a token of kind `token_type`.
    pub fn check(&self, token_type: TokenType) -> (same: bool)
        requires
            self.well_formed(),
        ensures
            same == (self.tokens()[self.cursor() as int].token_type == token_type),
    {
        self.tokens[self.current].token_type == token_type
    }

    /// Moves to the next token, unless the parser stands on the end-of-file
    /// token.
    pub fn advance(&mut self)
        requires
            old(self).well_formed(),
        ensures
            final(self).follows(old(self)),
            final(self).cursor() == index_after(old(self).tokens(), old(self).cursor()),
    {
        if self.current < self.tokens.len() && self.tokens[self.current].token_type
            != TokenType::EOF {
            self.current += 1;
        }
    }

    /// Takes the token that the parser stands on if it is of kind `expected`
    /// and moves on; otherwise hands back a diagnostic with `message` and
    /// `hint` at that token and stays.
    pub fn consume(&mut self, expected: TokenType, message: &str, hint: Option<&str>) -> (taken:
        Result<&'a Token, RigError>)
        requires
            old(self).well_formed(),
        ensures
            final(self).follows(old(self)),
            final(self).cursor() == consumed(
                old(self).tokens(),
                old(self).source_path(),
                old(self).cursor(),
                expected,
                message@,
                match hint {
                    Some(text) => Some(text@),
                    None => None,
                },
            ).cursor,
            match taken {
                Ok(token) => Ok::<TokenView, RigErrorView>(token@),
                Err(error) => Err(error@),
            } == consumed(
                old(self).tokens(),
                old(self).source_path(),
                old(self).cursor(),
                expected,
                message@,
                match hint {
                    Some(text) => Some(text@),
                    None => None,
                },
            ).result,
    {
        let token = &self.tokens[self.current];
        if token.token_type == expected {
            self.advance();
            Ok(token)
        } else {
            Err(
                RigError {
                    error_type: ErrorType::Hard,
                    error_code: String::from_str(ErrorCode::E0005.as_str()),
                    message: String::from_str(message),
                    hint: match hint {
                        Some(text) => Some(
                            Hint { text: String::from_str(text), span: token.span.clone() },
                        ),
                        None => None,
                    },
                    span: token.span.clone(),
                    file_path: self.source_path.clone(),
                },
            )
        }
    }

    /// A copy of the path of the file that the tokens came from.
    pub fn path(&self) -> (path: String)
        ensures
            path@ == self.source_path(),
    {
        self.source_path.clone()
    }
}

/// The values of a sequence of expressions, in order.
pub open spec fn node_views(nodes: Seq<Expr>) -> Seq<ExprView> {
    nodes.map_values(|e: Expr| e@)
}

/// After a fault: moves behind the next `;`, or to the end-of-file token if
/// none comes before it.
pub fn synchronize(parser: &mut Parser)
    requires
        old(parser).well_formed(),
    ensures
        final(parser).follows(old(parser)),
        final(parser).cursor() == resume_index(old(parser).tokens(), old(parser).cursor()),
{
    while !parser.is_at_end() && !parser.check(TokenType::Semicolon)
        invariant
            parser.follows(old(parser)),
            resume_index(old(parser).tokens(), old(parser).cursor()) == resume_index(
                parser.tokens(),
                parser.cursor(),
            ),
        decreases parser.tokens().len() - parser.cursor(),
    {
        parser.advance();
    }
    if parser.check(TokenType::Semicolon) {
        parser.advance();
    }
}

/// Reads the tokens from where the parser stands to the end-of-file token as
/// a row of units, each a whole expression. A `;` behind an expression ends
/// its unit. A fault ends its unit too: the diagnostic is kept, and the parser
/// takes up its work behind the next `;`. The expressions come back in the
/// order of the tokens, and so do the diagnostics.
pub fn parse(parser: &mut Parser) -> (out: (Vec<Expr>, Vec<RigError>))
    requires
        old(parser).ready(),
    ensures
        final(parser).follows(old(parser)),
        final(parser).tokens()[final(parser).cursor() as int].token_type == TokenType::EOF,
        node_views(out.0@) == units_spec(
            old(parser).tokens(),
            old(parser).source_path(),
            old(parser).cursor(),
        ).nodes,
        error_views(out.1@) == units_spec(
            old(parser).tokens(),
            old(parser).source_path(),
            old(parser).cursor(),
        ).errors,
{
    let mut nodes: Vec<Expr> = Vec::new();
    let mut errors: Vec<RigError> = Vec::new();
    let ghost toks = parser.tokens();
    let ghost path = parser.source_path();
    let ghost start = parser.cursor();
    assert(node_views(nodes@) + units_spec(toks, path, start).nodes =~= units_spec(
        toks,
        path,
        start,
    ).nodes);
    assert(error_views(errors@) + units_spec(toks, path, start).errors =~= units_spec(
        toks,
        path,
        start,
    ).errors);
    while !parser.is_at_end()
        invariant
            parser.follows(old(parser)),
            parser.ready(),
            toks == old(parser).tokens(),
            path == old(parser).source_path(),
            start == old(parser).cursor(),
            units_spec(toks, path, start).nodes == node_views(nodes@) + units_spec(
                toks,
                path,
                parser.cursor(),
            ).nodes,
            units_spec(toks, path, start).errors == error_views(errors@) + units_spec(
                toks,
                path,
                parser.cursor(),
            ).errors,
        decreases toks.len() - parser.cursor(),
    {
        let ghost here = parser.cursor();
        let ghost seen_nodes = node_views(nodes@);
        let ghost seen_errors = error_views(errors@);
        let ghost unit = expr_spec(toks, path, here);
        match expr(parser) {
            Ok(node) => {
                if parser.check(TokenType::Semicolon) {
                    parser.advance();
                }
                let ghost rest = units_spec(toks, path, parser.cursor());
                nodes.push(node);
                assert(node_views(nodes@) =~= seen_nodes.push(node@));
                assert(seen_nodes + (seq![node@] + rest.nodes) =~= node_views(nodes@)
                    + rest.nodes);
            },
            Err(error) => {
                proof {
                    lemma_resume_index(toks, parser.cursor());
                }
                synchronize(parser);
                let ghost rest = units_spec(toks, path, parser.cursor());
                errors.push(error);
                assert(error_views(errors@) =~= seen_errors.push(error@));
                assert(seen_errors + (seq![error@] + rest.errors) =~= error_views(errors@)
                    + rest.errors);
            },
        }
    }
    proof {
        assert(units_spec(toks, path, parser.cursor()) == Units::empty());
        assert(node_views(nodes@) + Seq::<ExprView>::empty() =~= node_views(nodes@));
        assert(error_views(errors@) + Seq::<RigErrorView>::empty() =~= error_views(errors@));
    }
    (nodes, errors)
}

/// Reads all of `tokens` as a row of units, as [`parse`] does from the first
/// token on. Tokens that a parser cannot read expressions from (none at all,
/// no end-of-file token at their end, or a number without a decimal point
/// that 64 bits cannot hold) are not read: the answer is `None`.
pub fn parse_tokens(tokens: &[Token]) -> (out: Option<(Vec<Expr>, Vec<RigError>)>)
    ensures
        out is Some <==> well_formed_tokens(token_views(tokens@)) && readable_tokens(
            token_views(tokens@),
        ),
        out matches Some(read) ==> {
            &&& node_views(read.0@) == units_spec(
                token_views(tokens@),
                path_of_tokens(token_views(tokens@)),
                0,
            ).nodes
            &&& error_views(read.1@) == units_spec(
                token_views(tokens@),
                path_of_tokens(token_views(tokens@)),
                0,
            ).errors
        },
{
    let mut parser = Parser::new(tokens);
    if parser.is_ready() {
        Some(parse(&mut parser))
    } else {
        None
    }
}

} // verus!
