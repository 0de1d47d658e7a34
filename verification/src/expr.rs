//! The parser of expressions: one function for each level of the grammar.

use vstd::prelude::*;
use vstd::string::StringExecFns;
use crate::ast::{
    expr_views, lemma_expr_views_push, BinaryOperator, Expr, ExprView, LogicalOperator,
    UnaryOperator,
};
use crate::error::{ErrorCode, ErrorType, RigError, RigErrorView};
use crate::grammar::{
    arguments_spec, arguments_tail_spec, assignment_spec, binary_spec, binary_tail_spec, call_spec,
    call_tail_spec, expr_spec, number_is_readable, path_spec, path_tail_spec, prefix_operator,
    primary_spec, syntax_error, unary_spec, Level, Operator, Parsed,
};
use crate::number::{contains_char, parse_integer};
use crate::parser::Parser;
use crate::span::Span;
use crate::text::text_eq;
use crate::token::{Token, TokenType};

verus! {

/// The value of what a function of the grammar hands back.
pub open spec fn outcome_view(result: Result<Expr, RigError>) -> Result<ExprView, RigErrorView> {
    match result {
        Ok(node) => Ok(node@),
        Err(error) => Err(error@),
    }
}

/// The parser went from `before` to `after` and handed back `result`, as
/// `expected` says. It kept its tokens, did not move back, and moved forward
/// if it read an expression.
pub open spec fn agrees(
    before: Parser,
    after: Parser,
    result: Result<Expr, RigError>,
    expected: Parsed<ExprView>,
) -> bool {
    &&& after.follows(&before)
    &&& after.cursor() == expected.cursor
    &&& outcome_view(result) == expected.result
    &&& result is Ok ==> before.cursor() < after.cursor()
}

/// Whether the logical operator `op` belongs to `level`.
pub fn has_logical(level: Level, op: LogicalOperator) -> (belongs: bool)
    ensures
        belongs == level.has_logical(op),
{
    match level {
        Level::LogicalOr => op == LogicalOperator::Or,
        Level::LogicalAnd => op == LogicalOperator::And,
        Level::Equality => op == LogicalOperator::Equal || op == LogicalOperator::NotEqual,
        Level::Comparison => op == LogicalOperator::Less || op == LogicalOperator::LessEq || op
            == LogicalOperator::Greater || op == LogicalOperator::GreaterEq,
        _ => false,
    }
}

/// Whether the arithmetic or bitwise operator `op` belongs to `level`.
pub fn has_binary(level: Level, op: BinaryOperator) -> (belongs: bool)
    ensures
        belongs == level.has_binary(op),
{
    match level {
        Level::BitwiseOr => op == BinaryOperator::Or,
        Level::BitwiseXor => op == BinaryOperator::Xor,
        Level::BitwiseAnd => op == BinaryOperator::And,
        Level::BitwiseShift => op == BinaryOperator::LeftShift || op == BinaryOperator::RightShift,
        Level::Term => op == BinaryOperator::Plus || op == BinaryOperator::Minus,
        Level::Factor => op == BinaryOperator::Multiply || op == BinaryOperator::Divide || op
            == BinaryOperator::Modulus,
        _ => false,
    }
}

/// The operator of `level` that `token` writes, if it writes one.
pub fn level_operator(level: Level, token: &Token) -> (op: Option<Operator>)
    ensures
        op == level.operator(token@),
{
    if token.token_type == TokenType::EOF {
        return None;
    }
    if let Some(op) = LogicalOperator::from_lexeme(token.lexeme.as_str()) {
        if has_logical(level, op) {
            return Some(Operator::Logical(op));
        }
    }
    if let Some(op) = BinaryOperator::from_lexeme(token.lexeme.as_str()) {
        if has_binary(level, op) {
            return Some(Operator::Binary(op));
        }
    }
    None
}

/// The prefix operator that `token` writes, if it writes one.
pub fn prefix_operator_of(token: &Token) -> (op: Option<UnaryOperator>)
    ensures
        op == prefix_operator(token@),
{
    if token.token_type == TokenType::EOF {
        None
    } else {
        UnaryOperator::from_lexeme(token.lexeme.as_str())
    }
}

/// The diagnostic for a token that cannot stand where the parser found it.
fn unexpected(parser: &Parser, opening: &str, token: &Token) -> (error: RigError)
    ensures
        error@ == syntax_error(
            parser.source_path(),
            ErrorCode::E0005.text(),
            opening@ + token@.lexeme + "`"@,
            None,
            token@.span,
        ),
{
    let mut message = String::from_str(opening);
    message.append(token.lexeme.as_str());
    message.append("`");
    RigError {
        error_type: ErrorType::Hard,
        error_code: String::from_str(ErrorCode::E0005.as_str()),
        message,
        hint: None,
        span: token.span.clone(),
        file_path: parser.path(),
    }
}

/// Reads a whole expression.
pub fn expr(parser: &mut Parser) -> (result: Result<Expr, RigError>)
    requires
        old(parser).ready(),
    ensures
        agrees(
            *old(parser),
            *final(parser),
            result,
            expr_spec(old(parser).tokens(), old(parser).source_path(), old(parser).cursor()),
        ),
    decreases old(parser).tokens().len() - old(parser).cursor(), 20int,
{
    assignment(parser)
}

/// Reads an assignment, or what stands for one: an operand of the logical-or
/// level alone.
pub fn assignment(parser: &mut Parser) -> (result: Result<Expr, RigError>)
    requires
        old(parser).ready(),
    ensures
        agrees(
            *old(parser),
            *final(parser),
            result,
            assignment_spec(old(parser).tokens(), old(parser).source_path(), old(parser).cursor()),
        ),
    decreases old(parser).tokens().len() - old(parser).cursor(), 19int,
{
    let target = match logical_or(parser) {
        Ok(node) => node,
        Err(error) => {
            return Err(error);
        },
    };
    if !parser.check(TokenType::Equal) {
        return Ok(target);
    }
    let equals = parser.peek().span.clone();
    parser.advance();
    let value = match expr(parser) {
        Ok(node) => node,
        Err(error) => {
            return Err(error);
        },
    };
    let end = parser.previous().span.clone();
    match target {
        Expr::GetExpr { object, name, span } => Ok(
            Expr::SetExpr { object, name, value: Box::new(value), span: Span::merge(span, end) },
        ),
        Expr::VariableExpr { name, span } => Ok(
            Expr::AssignmentExpr { name, value: Box::new(value), span: Span::merge(span, end) },
        ),
        _ => Err(
            RigError {
                error_type: ErrorType::Hard,
                error_code: String::from_str("EOOO6"),
                message: String::from_str(
                    "Invalid assignment. Expected property or a variable as lvalue",
                ),
                hint: None,
                span: equals,
                file_path: parser.path(),
            },
        ),
    }
}

/// Reads what stands behind the operand `left` of `level`: an operator of the
/// level with a whole expression, or nothing.
fn binary_tail(parser: &mut Parser, level: Level, start: Span, left: Expr) -> (result: Result<
    Expr,
    RigError,
>)
    requires
        old(parser).ready(),
    ensures
        final(parser).follows(old(parser)),
        final(parser).cursor() == binary_tail_spec(
            old(parser).tokens(),
            old(parser).source_path(),
            level,
            start@,
            left@,
            old(parser).cursor(),
        ).cursor,
        outcome_view(result) == binary_tail_spec(
            old(parser).tokens(),
            old(parser).source_path(),
            level,
            start@,
            left@,
            old(parser).cursor(),
        ).result,
    decreases old(parser).tokens().len() - old(parser).cursor(), 0int,
{
    let op = match level_operator(level, parser.peek()) {
        Some(op) => op,
        None => {
            return Ok(left);
        },
    };
    parser.advance();
    let right = match expr(parser) {
        Ok(node) => node,
        Err(error) => {
            return Err(error);
        },
    };
    let span = Span::merge(start, parser.previous().span.clone());
    match op {
        Operator::Logical(op) => Ok(
            Expr::LogicalExpr { lhs: Box::new(left), op, rhs: Box::new(right), span },
        ),
        Operator::Binary(op) => Ok(
            Expr::BinaryExpr { lhs: Box::new(left), op, rhs: Box::new(right), span },
        ),
    }
}

/// Reads an operand of the logical-or level: `||`.
pub fn logical_or(parser: &mut Parser) -> (result: Result<Expr, RigError>)
    requires
        old(parser).ready(),
    ensures
        agrees(
            *old(parser),
            *final(parser),
            result,
            binary_spec(
                old(parser).tokens(),
                old(parser).source_path(),
                old(parser).cursor(),
                Level::LogicalOr,
            ),
        ),
    decreases old(parser).tokens().len() - old(parser).cursor(), 18int,
{
    let start = parser.peek().span.clone();
    match logical_and(parser) {
        Ok(left) => binary_tail(parser, Level::LogicalOr, start, left),
        Err(error) => Err(error),
    }
}

/// Reads an operand of the logical-and level: `&&`.
pub fn logical_and(parser: &mut Parser) -> (result: Result<Expr, RigError>)
    requires
        old(parser).ready(),
    ensures
        agrees(
            *old(parser),
            *final(parser),
            result,
            binary_spec(
                old(parser).tokens(),
                old(parser).source_path(),
                old(parser).cursor(),
                Level::LogicalAnd,
            ),
        ),
    decreases old(parser).tokens().len() - old(parser).cursor(), 17int,
{
    let start = parser.peek().span.clone();
    match equality(parser) {
        Ok(left) => binary_tail(parser, Level::LogicalAnd, start, left),
        Err(error) => Err(error),
    }
}

/// Reads an operand of the equality level: `==`, `!=`.
pub fn equality(parser: &mut Parser) -> (result: Result<Expr, RigError>)
    requires
        old(parser).ready(),
    ensures
        agrees(
            *old(parser),
            *final(parser),
            result,
            binary_spec(
                old(parser).tokens(),
                old(parser).source_path(),
                old(parser).cursor(),
                Level::Equality,
            ),
        ),
    decreases old(parser).tokens().len() - old(parser).cursor(), 16int,
{
    let start = parser.peek().span.clone();
    match comparison(parser) {
        Ok(left) => binary_tail(parser, Level::Equality, start, left),
        Err(error) => Err(error),
    }
}

/// Reads an operand of the comparison level: `<`, `<=`, `>`, `>=`.
pub fn comparison(parser: &mut Parser) -> (result: Result<Expr, RigError>)
    requires
        old(parser).ready(),
    ensures
        agrees(
            *old(parser),
            *final(parser),
            result,
            binary_spec(
                old(parser).tokens(),
                old(parser).source_path(),
                old(parser).cursor(),
                Level::Comparison,
            ),
        ),
    decreases old(parser).tokens().len() - old(parser).cursor(), 15int,
{
    let start = parser.peek().span.clone();
    match bitwise_or(parser) {
        Ok(left) => binary_tail(parser, Level::Comparison, start, left),
        Err(error) => Err(error),
    }
}

/// Reads an operand of the bitwise-or level: `|`.
pub fn bitwise_or(parser: &mut Parser) -> (result: Result<Expr, RigError>)
    requires
        old(parser).ready(),
    ensures
        agrees(
            *old(parser),
            *final(parser),
            result,
            binary_spec(
                old(parser).tokens(),
                old(parser).source_path(),
                old(parser).cursor(),
                Level::BitwiseOr,
            ),
        ),
    decreases old(parser).tokens().len() - old(parser).cursor(), 14int,
{
    let start = parser.peek().span.clone();
    match bitwise_xor(parser) {
        Ok(left) => binary_tail(parser, Level::BitwiseOr, start, left),
        Err(error) => Err(error),
    }
}

/// Reads an operand of the bitwise-xor level: `^`.
pub fn bitwise_xor(parser: &mut Parser) -> (result: Result<Expr, RigError>)
    requires
        old(parser).ready(),
    ensures
        agrees(
            *old(parser),
            *final(parser),
            result,
            binary_spec(
                old(parser).tokens(),
                old(parser).source_path(),
                old(parser).cursor(),
                Level::BitwiseXor,
            ),
        ),
    decreases old(parser).tokens().len() - old(parser).cursor(), 13int,
{
    let start = parser.peek().span.clone();
    match bitwise_and(parser) {
        Ok(left) => binary_tail(parser, Level::BitwiseXor, start, left),
        Err(error) => Err(error),
    }
}

/// Reads an operand of the bitwise-and level: `&`.
pub fn bitwise_and(parser: &mut Parser) -> (result: Result<Expr, RigError>)
    requires
        old(parser).ready(),
    ensures
        agrees(
            *old(parser),
            *final(parser),
            result,
            binary_spec(
                old(parser).tokens(),
                old(parser).source_path(),
                old(parser).cursor(),
                Level::BitwiseAnd,
            ),
        ),
    decreases old(parser).tokens().len() - old(parser).cursor(), 12int,
{
    let start = parser.peek().span.clone();
    match bitwise_shift(parser) {
        Ok(left) => binary_tail(parser, Level::BitwiseAnd, start, left),
        Err(error) => Err(error),
    }
}

/// Reads an operand of the shift level: `<<`, `>>`.
pub fn bitwise_shift(parser: &mut Parser) -> (result: Result<Expr, RigError>)
    requires
        old(parser).ready(),
    ensures
        agrees(
            *old(parser),
            *final(parser),
            result,
            binary_spec(
                old(parser).tokens(),
                old(parser).source_path(),
                old(parser).cursor(),
                Level::BitwiseShift,
            ),
        ),
    decreases old(parser).tokens().len() - old(parser).cursor(), 11int,
{
    let start = parser.peek().span.clone();
    match term(parser) {
        Ok(left) => binary_tail(parser, Level::BitwiseShift, start, left),
        Err(error) => Err(error),
    }
}

/// Reads an operand of the term level: `+`, `-`.
pub fn term(parser: &mut Parser) -> (result: Result<Expr, RigError>)
    requires
        old(parser).ready(),
    ensures
        agrees(
            *old(parser),
            *final(parser),
            result,
            binary_spec(
                old(parser).tokens(),
                old(parser).source_path(),
                old(parser).cursor(),
                Level::Term,
            ),
        ),
    decreases old(parser).tokens().len() - old(parser).cursor(), 10int,
{
    let start = parser.peek().span.clone();
    match factor(parser) {
        Ok(left) => binary_tail(parser, Level::Term, start, left),
        Err(error) => Err(error),
    }
}

/// Reads an operand of the factor level: `*`, `/`, `%`.
pub fn factor(parser: &mut Parser) -> (result: Result<Expr, RigError>)
    requires
        old(parser).ready(),
    ensures
        agrees(
            *old(parser),
            *final(parser),
            result,
            binary_spec(
                old(parser).tokens(),
                old(parser).source_path(),
                old(parser).cursor(),
                Level::Factor,
            ),
        ),
    decreases old(parser).tokens().len() - old(parser).cursor(), 9int,
{
    let start = parser.peek().span.clone();
    match unary(parser) {
        Ok(left) => binary_tail(parser, Level::Factor, start, left),
        Err(error) => Err(error),
    }
}

/// Reads an operand of the unary level: a prefix operator before a whole
/// expression, or an operand of the call level.
pub fn unary(parser: &mut Parser) -> (result: Result<Expr, RigError>)
    requires
        old(parser).ready(),
    ensures
        agrees(
            *old(parser),
            *final(parser),
            result,
            unary_spec(old(parser).tokens(), old(parser).source_path(), old(parser).cursor()),
        ),
    decreases old(parser).tokens().len() - old(parser).cursor(), 8int,
{
    let token = parser.peek();
    let op = match prefix_operator_of(token) {
        Some(op) => op,
        None => {
            return call(parser);
        },
    };
    let start = token.span.clone();
    parser.advance();
    match expr(parser) {
        Ok(operand) => Ok(
            Expr::UnaryExpr {
                op,
                rhs: Box::new(operand),
                span: Span::merge(start, parser.previous().span.clone()),
            },
        ),
        Err(error) => Err(error),
    }
}

/// Reads an operand of the call level: a primary expression with any number
/// of argument lists and property names behind it.
pub fn call(parser: &mut Parser) -> (result: Result<Expr, RigError>)
    requires
        old(parser).ready(),
    ensures
        agrees(
            *old(parser),
            *final(parser),
            result,
            call_spec(old(parser).tokens(), old(parser).source_path(), old(parser).cursor()),
        ),
    decreases old(parser).tokens().len() - old(parser).cursor(), 7int,
{
    let start = parser.peek().span.clone();
    match primary(parser) {
        Ok(callee) => call_tail(parser, start, callee),
        Err(error) => Err(error),
    }
}

/// Reads the argument lists and property names behind `callee`.
fn call_tail(parser: &mut Parser, start: Span, callee: Expr) -> (result: Result<Expr, RigError>)
    requires
        old(parser).ready(),
    ensures
        final(parser).follows(old(parser)),
        final(parser).cursor() == call_tail_spec(
            old(parser).tokens(),
            old(parser).source_path(),
            start@,
            callee@,
            old(parser).cursor(),
        ).cursor,
        outcome_view(result) == call_tail_spec(
            old(parser).tokens(),
            old(parser).source_path(),
            start@,
            callee@,
            old(parser).cursor(),
        ).result,
    decreases old(parser).tokens().len() - old(parser).cursor(), 3int,
{
    if parser.check(TokenType::LeftParen) {
        parser.advance();
        let args = match arguments(parser) {
            Ok(args) => args,
            Err(error) => {
                return Err(error);
            },
        };
        if parser.check(TokenType::RightParen) {
            parser.advance();
        }
        let span = Span::merge(start.clone(), parser.previous().span.clone());
        call_tail(parser, start, Expr::CallExpr { name: Box::new(callee), args, span })
    } else if parser.check(TokenType::Dot) {
        parser.advance();
        let name = match parser.consume(TokenType::Identifier, "Expected identifier", None) {
            Ok(token) => token,
            Err(error) => {
                return Err(error);
            },
        };
        let span = Span::merge(start.clone(), parser.previous().span.clone());
        call_tail(
            parser,
            start,
            Expr::GetExpr { object: Box::new(callee), name: name.lexeme.clone(), span },
        )
    } else {
        Ok(callee)
    }
}

/// The values of the arguments that a function of the grammar hands back.
pub open spec fn arguments_view(result: Result<Vec<Box<Expr>>, RigError>) -> Result<
    Seq<ExprView>,
    RigErrorView,
> {
    match result {
        Ok(args) => Ok(expr_views(args@)),
        Err(error) => Err(error@),
    }
}

/// Reads the arguments of a call: nothing before `)`, or whole expressions
/// with commas between them.
pub fn arguments(parser: &mut Parser) -> (result: Result<Vec<Box<Expr>>, RigError>)
    requires
        old(parser).ready(),
    ensures
        final(parser).follows(old(parser)),
        final(parser).cursor() == arguments_spec(
            old(parser).tokens(),
            old(parser).source_path(),
            old(parser).cursor(),
        ).cursor,
        arguments_view(result) == arguments_spec(
            old(parser).tokens(),
            old(parser).source_path(),
            old(parser).cursor(),
        ).result,
    decreases old(parser).tokens().len() - old(parser).cursor(), 30int,
{
    let mut args: Vec<Box<Expr>> = Vec::new();
    if parser.check(TokenType::RightParen) {
        return Ok(args);
    }
    match expr(parser) {
        Ok(first) => {
            let ghost none = args@;
            let boxed = Box::new(first);
            proof {
                lemma_expr_views_push(none, boxed);
                assert(expr_views(none) =~= Seq::<ExprView>::empty());
                assert(expr_views(none).push(first@) =~= seq![first@]);
            }
            args.push(boxed);
            arguments_tail(parser, args)
        },
        Err(error) => Err(error),
    }
}

/// Reads the arguments behind the ones in `args`.
fn arguments_tail(parser: &mut Parser, args: Vec<Box<Expr>>) -> (result: Result<
    Vec<Box<Expr>>,
    RigError,
>)
    requires
        old(parser).ready(),
    ensures
        final(parser).follows(old(parser)),
        final(parser).cursor() == arguments_tail_spec(
            old(parser).tokens(),
            old(parser).source_path(),
            expr_views(args@),
            old(parser).cursor(),
        ).cursor,
        arguments_view(result) == arguments_tail_spec(
            old(parser).tokens(),
            old(parser).source_path(),
            expr_views(args@),
            old(parser).cursor(),
        ).result,
    decreases old(parser).tokens().len() - old(parser).cursor(), 2int,
{
    if !parser.check(TokenType::Comma) {
        return Ok(args);
    }
    parser.advance();
    match expr(parser) {
        Ok(next) => {
            let mut args = args;
            let boxed = Box::new(next);
            proof {
                lemma_expr_views_push(args@, boxed);
            }
            args.push(boxed);
            arguments_tail(parser, args)
        },
        Err(error) => Err(error),
    }
}

/// Reads a primary expression: a variable or path, a literal, or a whole
/// expression in parentheses.
pub fn primary(parser: &mut Parser) -> (result: Result<Expr, RigError>)
    requires
        old(parser).ready(),
    ensures
        agrees(
            *old(parser),
            *final(parser),
            result,
            primary_spec(old(parser).tokens(), old(parser).source_path(), old(parser).cursor()),
        ),
    decreases old(parser).tokens().len() - old(parser).cursor(), 6int,
{
    let token = parser.peek();
    match token.token_type {
        TokenType::Identifier => path(parser),
        TokenType::StringLiteral => {
            parser.advance();
            Ok(Expr::StringLiteralExpr { value: token.literal.clone(), span: token.span.clone() })
        },
        TokenType::NumberLiteral => {
            let node = if contains_char(token.lexeme.as_str(), '.') {
                Expr::FloatLiteralExpr { value: token.literal.clone(), span: token.span.clone() }
            } else {
                let value = parse_integer(token.literal.as_str());
                assert(number_is_readable(parser.tokens()[parser.cursor() as int]));
                Expr::IntegerLiteralExpr { value: value.unwrap(), span: token.span.clone() }
            };
            parser.advance();
            Ok(node)
        },
        TokenType::Keyword => {
            let word = token.lexeme.as_str();
            let node = if text_eq(word, "true") {
                Expr::BooleanLiteralExpr { value: true, span: token.span.clone() }
            } else if text_eq(word, "false") {
                Expr::BooleanLiteralExpr { value: false, span: token.span.clone() }
            } else if text_eq(word, "null") {
                Expr::NullLiteralExpr { span: token.span.clone() }
            } else if text_eq(word, "self") {
                Expr::SelfExpr { span: token.span.clone() }
            } else {
                return Err(unexpected(parser, "Expected `true`/`false`/`null`, found `", token));
            };
            parser.advance();
            Ok(node)
        },
        TokenType::LeftParen => {
            parser.advance();
            let inner = match expr(parser) {
                Ok(node) => node,
                Err(error) => {
                    return Err(error);
                },
            };
            match parser.consume(TokenType::RightParen, "Expected `)` after expression", None) {
                Ok(_) => Ok(
                    Expr::GroupingExpr {
                        expr: Box::new(inner),
                        span: parser.previous().span.clone(),
                    },
                ),
                Err(error) => Err(error),
            }
        },
        _ => Err(unexpected(parser, "Expected primary expression, found `", token)),
    }
}

/// The values of the names that a function of the grammar hands back.
pub open spec fn names_view(result: Result<Vec<String>, RigError>) -> Result<
    Seq<Seq<char>>,
    RigErrorView,
> {
    match result {
        Ok(names) => Ok(names@.map_values(|s: String| s@)),
        Err(error) => Err(error@),
    }
}

/// Reads a variable or a path.
pub fn path(parser: &mut Parser) -> (result: Result<Expr, RigError>)
    requires
        old(parser).ready(),
    ensures
        agrees(
            *old(parser),
            *final(parser),
            result,
            path_spec(old(parser).tokens(), old(parser).source_path(), old(parser).cursor()),
        ),
{
    let start = parser.peek().span.clone();
    let first = match parser.consume(TokenType::Identifier, "Expected identifier", None) {
        Ok(token) => token,
        Err(error) => {
            return Err(error);
        },
    };
    if parser.check(TokenType::Scope) {
        parser.advance();
        let mut names: Vec<String> = Vec::new();
        names.push(first.lexeme.clone());
        let mut rest = match parse_path(parser) {
            Ok(rest) => rest,
            Err(error) => {
                return Err(error);
            },
        };
        let ghost tail = rest@;
        names.append(&mut rest);
        assert(names@.map_values(|s: String| s@) =~= seq![first@.lexeme] + tail.map_values(
            |s: String| s@,
        ));
        let end = parser.peek().span.clone();
        Ok(Expr::PathExpr { path: names, span: Span::merge(start, end) })
    } else {
        Ok(Expr::VariableExpr { name: first.lexeme.clone(), span: parser.peek().span.clone() })
    }
}

/// Reads the names of a path behind its first `::`.
fn parse_path(parser: &mut Parser) -> (result: Result<Vec<String>, RigError>)
    requires
        old(parser).ready(),
    ensures
        final(parser).follows(old(parser)),
        final(parser).cursor() == path_tail_spec(
            old(parser).tokens(),
            old(parser).source_path(),
            old(parser).cursor(),
        ).cursor,
        names_view(result) == path_tail_spec(
            old(parser).tokens(),
            old(parser).source_path(),
            old(parser).cursor(),
        ).result,
    decreases old(parser).tokens().len() - old(parser).cursor(),
{
    let name = match parser.consume(TokenType::Identifier, "Expected identifier", None) {
        Ok(token) => token,
        Err(error) => {
            return Err(error);
        },
    };
    let mut names: Vec<String> = Vec::new();
    names.push(name.lexeme.clone());
    if parser.check(TokenType::Scope) {
        parser.advance();
        let mut rest = match parse_path(parser) {
            Ok(rest) => rest,
            Err(error) => {
                return Err(error);
            },
        };
        let ghost tail = rest@;
        names.append(&mut rest);
        assert(names@.map_values(|s: String| s@) =~= seq![name@.lexeme] + tail.map_values(
            |s: String| s@,
        ));
    } else {
        assert(names@.map_values(|s: String| s@) =~= seq![name@.lexeme]);
    }
    Ok(names)
}

} // verus!
