//! What the parser is to produce: the grammar of expressions, defined on the
//! values of the tokens.
//!
//! The grammar is a chain of levels, from the loosest to the tightest:
//! assignment, logical or, logical and, equality, comparison, bitwise or,
//! bitwise xor, bitwise and, shift, term, factor, unary, call, primary. Each
//! level reads an operand of the next level and then looks for one of its own
//! operators. The operand to the right of an operator is read as a whole
//! expression, from the loosest level down, whatever the level of the
//! operator: in `a * b + c` the product takes `b + c` as its right operand.

use vstd::prelude::*;
use crate::ast::{BinaryOperator, ExprView, LogicalOperator, UnaryOperator};
use crate::error::{ErrorCode, ErrorType, HintView, RigErrorView};
use crate::number::integer_value;
use crate::span::{merged_span, SpanView};
use crate::token::{TokenType, TokenView};

verus! {

/// The outcome of reading something from the tokens: what was read, or the
/// diagnostic, and the index of the token at which the parser then stands.
pub struct Parsed<T> {
    pub result: Result<T, RigErrorView>,
    pub cursor: nat,
}

/// Whether a number token can be read: one without a decimal point writes a
/// 64-bit whole number.
pub open spec fn number_is_readable(token: TokenView) -> bool {
    token.token_type == TokenType::NumberLiteral && !token.lexeme.contains('.') ==> integer_value(
        token.literal,
    ) is Some
}

/// What the parser asks of its tokens before it moves among them: there is
/// at least one, and the last one is the end-of-file token.
pub open spec fn well_formed_tokens(toks: Seq<TokenView>) -> bool {
    &&& toks.len() > 0
    &&& toks.last().token_type == TokenType::EOF
}

/// What the parser asks of its tokens before it reads expressions from them:
/// every number can be read.
pub open spec fn readable_tokens(toks: Seq<TokenView>) -> bool {
    forall|i: int| 0 <= i < toks.len() ==> number_is_readable(#[trigger] toks[i])
}

/// The index behind `cur`. The parser never moves past an end-of-file token.
pub open spec fn index_after(toks: Seq<TokenView>, cur: nat) -> nat {
    if cur < toks.len() && toks[cur as int].token_type != TokenType::EOF {
        cur + 1
    } else {
        cur
    }
}

/// The token before index `cur`, or the first token at index 0.
pub open spec fn token_before(toks: Seq<TokenView>, cur: nat) -> TokenView {
    if cur == 0 {
        toks[0]
    } else {
        toks[cur - 1]
    }
}

/// The diagnostic of the parser: always hard, in the file that the tokens
/// came from.
pub open spec fn syntax_error(
    path: Seq<char>,
    code: Seq<char>,
    message: Seq<char>,
    hint: Option<HintView>,
    span: SpanView,
) -> RigErrorView {
    RigErrorView {
        error_type: ErrorType::Hard,
        error_code: code,
        message,
        hint,
        span,
        file_path: path,
    }
}

/// Takes the token at `cur` if it is of kind `expected`; otherwise the
/// diagnostic with `message` and `hint` at that token, and the cursor stays.
pub open spec fn consumed(
    toks: Seq<TokenView>,
    path: Seq<char>,
    cur: nat,
    expected: TokenType,
    message: Seq<char>,
    hint: Option<Seq<char>>,
) -> Parsed<TokenView> {
    let token = toks[cur as int];
    if token.token_type == expected {
        Parsed { result: Ok(token), cursor: index_after(toks, cur) }
    } else {
        Parsed {
            result: Err(
                syntax_error(
                    path,
                    ErrorCode::E0005.text(),
                    message,
                    match hint {
                        Some(text) => Some(HintView { text, span: token.span }),
                        None => None,
                    },
                    token.span,
                ),
            ),
            cursor: cur,
        }
    }
}

/// The code of the diagnostic for an assignment to something that cannot be
/// assigned to. It is spelled with three capital letters O.
pub open spec fn invalid_assignment_code() -> Seq<char> {
    "EOOO6"@
}

/// The message of the diagnostic for an assignment to something that cannot
/// be assigned to.
pub open spec fn invalid_assignment_message() -> Seq<char> {
    "Invalid assignment. Expected property or a variable as lvalue"@
}

/// The levels of the grammar that read an operator between two operands.
#[derive(Debug, Clone, Copy, PartialEq, Eq, Structural)]
pub enum Level {
    LogicalOr,
    LogicalAnd,
    Equality,
    Comparison,
    BitwiseOr,
    BitwiseXor,
    BitwiseAnd,
    BitwiseShift,
    Term,
    Factor,
}

/// An operator that stands between two operands.
#[derive(Debug, Clone, Copy, PartialEq, Eq, Structural)]
pub enum Operator {
    Logical(LogicalOperator),
    Binary(BinaryOperator),
}

impl Level {
    /// The next tighter level that reads an operator between two operands.
    /// Behind the tightest one, factor, comes the unary level.
    pub open spec fn tighter(self) -> Option<Level> {
        match self {
            Level::LogicalOr => Some(Level::LogicalAnd),
            Level::LogicalAnd => Some(Level::Equality),
            Level::Equality => Some(Level::Comparison),
            Level::Comparison => Some(Level::BitwiseOr),
            Level::BitwiseOr => Some(Level::BitwiseXor),
            Level::BitwiseXor => Some(Level::BitwiseAnd),
            Level::BitwiseAnd => Some(Level::BitwiseShift),
            Level::BitwiseShift => Some(Level::Term),
            Level::Term => Some(Level::Factor),
            Level::Factor => None,
        }
    }

    /// How many levels that read an operator between two operands are at
    /// least as tight as this one.
    pub open spec fn rank(self) -> int {
        match self {
            Level::LogicalOr => 10,
            Level::LogicalAnd => 9,
            Level::Equality => 8,
            Level::Comparison => 7,
            Level::BitwiseOr => 6,
            Level::BitwiseXor => 5,
            Level::BitwiseAnd => 4,
            Level::BitwiseShift => 3,
            Level::Term => 2,
            Level::Factor => 1,
        }
    }

    /// Whether the logical operator `op` belongs to this level.
    pub open spec fn has_logical(self, op: LogicalOperator) -> bool {
        match self {
            Level::LogicalOr => op == LogicalOperator::Or,
            Level::LogicalAnd => op == LogicalOperator::And,
            Level::Equality => op == LogicalOperator::Equal || op == LogicalOperator::NotEqual,
            Level::Comparison => op == LogicalOperator::Less || op == LogicalOperator::LessEq || op
                == LogicalOperator::Greater || op == LogicalOperator::GreaterEq,
            _ => false,
        }
    }

    /// Whether the arithmetic or bitwise operator `op` belongs to this level.
    pub open spec fn has_binary(self, op: BinaryOperator) -> bool {
        match self {
            Level::BitwiseOr => op == BinaryOperator::Or,
            Level::BitwiseXor => op == BinaryOperator::Xor,
            Level::BitwiseAnd => op == BinaryOperator::And,
            Level::BitwiseShift => op == BinaryOperator::LeftShift || op
                == BinaryOperator::RightShift,
            Level::Term => op == BinaryOperator::Plus || op == BinaryOperator::Minus,
            Level::Factor => op == BinaryOperator::Multiply || op == BinaryOperator::Divide || op
                == BinaryOperator::Modulus,
            _ => false,
        }
    }

    /// The operator of this level that `token` writes, if it writes one. An
    /// operator is known by the text of its token. The end-of-file token
    /// writes none.
    pub open spec fn operator(self, token: TokenView) -> Option<Operator> {
        if token.token_type == TokenType::EOF {
            None
        } else {
            match LogicalOperator::of_lexeme(token.lexeme) {
                Some(op) if self.has_logical(op) => Some(Operator::Logical(op)),
                _ => match BinaryOperator::of_lexeme(token.lexeme) {
                    Some(op) if self.has_binary(op) => Some(Operator::Binary(op)),
                    _ => None,
                },
            }
        }
    }
}

/// The prefix operator that `token` writes, if it writes one. The end-of-file
/// token writes none.
pub open spec fn prefix_operator(token: TokenView) -> Option<UnaryOperator> {
    if token.token_type == TokenType::EOF {
        None
    } else {
        UnaryOperator::of_lexeme(token.lexeme)
    }
}

/// The node for `lhs op rhs`.
pub open spec fn operation(op: Operator, lhs: ExprView, rhs: ExprView, span: SpanView) -> ExprView {
    match op {
        Operator::Logical(op) => ExprView::LogicalExpr {
            lhs: Box::new(lhs),
            op,
            rhs: Box::new(rhs),
            span,
        },
        Operator::Binary(op) => ExprView::BinaryExpr {
            lhs: Box::new(lhs),
            op,
            rhs: Box::new(rhs),
            span,
        },
    }
}

/// The message for a keyword that is no literal.
pub open spec fn unexpected_keyword(lexeme: Seq<char>) -> Seq<char> {
    "Expected `true`/`false`/`null`, found `"@ + lexeme + "`"@
}

/// The message for a token that begins no expression.
pub open spec fn unexpected_token(lexeme: Seq<char>) -> Seq<char> {
    "Expected primary expression, found `"@ + lexeme + "`"@
}

/// The names of a path behind its first `::`: identifiers with `::` between
/// them.
pub open spec fn path_tail_spec(toks: Seq<TokenView>, path: Seq<char>, cur: nat) -> Parsed<
    Seq<Seq<char>>,
>
    decreases toks.len() - cur,
{
    let name = consumed(toks, path, cur, TokenType::Identifier, "Expected identifier"@, None);
    match name.result {
        Err(e) => Parsed { result: Err(e), cursor: name.cursor },
        Ok(token) => {
            let at = name.cursor;
            if cur < at < toks.len() && toks[at as int].token_type == TokenType::Scope {
                let rest = path_tail_spec(toks, path, at + 1);
                match rest.result {
                    Err(e) => Parsed { result: Err(e), cursor: rest.cursor },
                    Ok(names) => Parsed {
                        result: Ok(seq![token.lexeme] + names),
                        cursor: rest.cursor,
                    },
                }
            } else {
                Parsed { result: Ok(seq![token.lexeme]), cursor: at }
            }
        },
    }
}

/// A variable or a path. One identifier alone is a variable; identifiers with
/// `::` between them are a path. The span of a variable is that of the token
/// behind its name; the span of a path runs from its first name to the token
/// behind its last.
pub open spec fn path_spec(toks: Seq<TokenView>, path: Seq<char>, cur: nat) -> Parsed<ExprView> {
    let start = toks[cur as int].span;
    let first = consumed(toks, path, cur, TokenType::Identifier, "Expected identifier"@, None);
    match first.result {
        Err(e) => Parsed { result: Err(e), cursor: first.cursor },
        Ok(token) => {
            let at = first.cursor;
            if toks[at as int].token_type == TokenType::Scope {
                let rest = path_tail_spec(toks, path, at + 1);
                match rest.result {
                    Err(e) => Parsed { result: Err(e), cursor: rest.cursor },
                    Ok(names) => Parsed {
                        result: Ok(
                            ExprView::PathExpr {
                                path: seq![token.lexeme] + names,
                                span: merged_span(start, toks[rest.cursor as int].span),
                            },
                        ),
                        cursor: rest.cursor,
                    },
                }
            } else {
                Parsed {
                    result: Ok(
                        ExprView::VariableExpr { name: token.lexeme, span: toks[at as int].span },
                    ),
                    cursor: at,
                }
            }
        },
    }
}

/// A whole expression.
pub open spec fn expr_spec(toks: Seq<TokenView>, path: Seq<char>, cur: nat) -> Parsed<ExprView>
    decreases toks.len() - cur, 20int,
{
    assignment_spec(toks, path, cur)
}

/// An assignment: an operand of the logical-or level and, behind `=`, a whole
/// expression. The operand must be a property, which makes the node a
/// `SetExpr`, or a variable, which makes it an `AssignmentExpr`; anything else
/// is a fault at the `=`.
pub open spec fn assignment_spec(toks: Seq<TokenView>, path: Seq<char>, cur: nat) -> Parsed<
    ExprView,
>
    decreases toks.len() - cur, 19int,
{
    let lhs = binary_spec(toks, path, cur, Level::LogicalOr);
    match lhs.result {
        Err(_) => lhs,
        Ok(target) => {
            let at = lhs.cursor;
            if cur <= at < toks.len() && toks[at as int].token_type == TokenType::Equal {
                let rhs = expr_spec(toks, path, at + 1);
                match rhs.result {
                    Err(_) => rhs,
                    Ok(value) => {
                        let end = token_before(toks, rhs.cursor).span;
                        Parsed {
                            result: match target {
                                ExprView::GetExpr { object, name, span } => Ok(
                                    ExprView::SetExpr {
                                        object,
                                        name,
                                        value: Box::new(value),
                                        span: merged_span(span, end),
                                    },
                                ),
                                ExprView::VariableExpr { name, span } => Ok(
                                    ExprView::AssignmentExpr {
                                        name,
                                        value: Box::new(value),
                                        span: merged_span(span, end),
                                    },
                                ),
                                _ => Err(
                                    syntax_error(
                                        path,
                                        invalid_assignment_code(),
                                        invalid_assignment_message(),
                                        None,
                                        toks[at as int].span,
                                    ),
                                ),
                            },
                            cursor: rhs.cursor,
                        }
                    },
                }
            } else {
                lhs
            }
        },
    }
}

/// One level that reads an operator between two operands: an operand of the
/// next tighter level and, behind an operator of this level, a whole
/// expression.
pub open spec fn binary_spec(
    toks: Seq<TokenView>,
    path: Seq<char>,
    cur: nat,
    level: Level,
) -> Parsed<ExprView>
    decreases toks.len() - cur, 8 + level.rank(),
{
    let lhs = match level.tighter() {
        Some(next) => binary_spec(toks, path, cur, next),
        None => unary_spec(toks, path, cur),
    };
    match lhs.result {
        Err(_) => lhs,
        Ok(left) => if cur <= lhs.cursor <= toks.len() {
            binary_tail_spec(toks, path, level, toks[cur as int].span, left, lhs.cursor)
        } else {
            lhs
        },
    }
}

/// What stands behind the operand `left` of `level`, which began at the span
/// `start`: an operator of the level and a whole expression make one node of
/// the three, whose span runs from `start` to the last token read; anything
/// else leaves the operand as it is.
pub open spec fn binary_tail_spec(
    toks: Seq<TokenView>,
    path: Seq<char>,
    level: Level,
    start: SpanView,
    left: ExprView,
    cur: nat,
) -> Parsed<ExprView>
    decreases toks.len() - cur, 0int,
{
    if cur < toks.len() && level.operator(toks[cur as int]) is Some {
        let rhs = expr_spec(toks, path, cur + 1);
        match rhs.result {
            Err(_) => rhs,
            Ok(right) => Parsed {
                result: Ok(
                    operation(
                        level.operator(toks[cur as int])->0,
                        left,
                        right,
                        merged_span(start, token_before(toks, rhs.cursor).span),
                    ),
                ),
                cursor: rhs.cursor,
            },
        }
    } else {
        Parsed { result: Ok(left), cursor: cur }
    }
}

/// The unary level: a prefix operator before a whole expression, or an
/// operand of the call level.
pub open spec fn unary_spec(toks: Seq<TokenView>, path: Seq<char>, cur: nat) -> Parsed<ExprView>
    decreases toks.len() - cur, 8int,
{
    if cur < toks.len() && prefix_operator(toks[cur as int]) is Some {
        let rhs = expr_spec(toks, path, cur + 1);
        match rhs.result {
            Err(_) => rhs,
            Ok(operand) => Parsed {
                result: Ok(
                    ExprView::UnaryExpr {
                        op: prefix_operator(toks[cur as int])->0,
                        rhs: Box::new(operand),
                        span: merged_span(
                            toks[cur as int].span,
                            token_before(toks, rhs.cursor).span,
                        ),
                    },
                ),
                cursor: rhs.cursor,
            },
        }
    } else {
        call_spec(toks, path, cur)
    }
}

/// The call level: a primary expression with any number of argument lists and
/// property names behind it.
pub open spec fn call_spec(toks: Seq<TokenView>, path: Seq<char>, cur: nat) -> Parsed<ExprView>
    decreases toks.len() - cur, 7int,
{
    let callee = primary_spec(toks, path, cur);
    match callee.result {
        Err(_) => callee,
        Ok(e) => if cur <= callee.cursor <= toks.len() {
            call_tail_spec(toks, path, toks[cur as int].span, e, callee.cursor)
        } else {
            callee
        },
    }
}

/// What stands behind the expression `callee`, which began at the span
/// `start`: `(`, arguments and `)` make a call of it, `.` and an identifier a
/// property of it, over and over, from left to right. A `)` that is missing
/// behind the arguments is passed over in silence.
pub open spec fn call_tail_spec(
    toks: Seq<TokenView>,
    path: Seq<char>,
    start: SpanView,
    callee: ExprView,
    cur: nat,
) -> Parsed<ExprView>
    decreases toks.len() - cur, 3int,
{
    if cur + 1 < toks.len() && toks[cur as int].token_type == TokenType::LeftParen {
        let args = arguments_spec(toks, path, cur + 1);
        match args.result {
            Err(e) => Parsed { result: Err(e), cursor: args.cursor },
            Ok(list) => {
                let close = if toks[args.cursor as int].token_type == TokenType::RightParen {
                    index_after(toks, args.cursor)
                } else {
                    args.cursor
                };
                let call = ExprView::CallExpr {
                    name: Box::new(callee),
                    args: list,
                    span: merged_span(start, token_before(toks, close).span),
                };
                if cur < args.cursor < toks.len() {
                    call_tail_spec(toks, path, start, call, close)
                } else {
                    Parsed { result: Ok(call), cursor: close }
                }
            },
        }
    } else if cur + 1 < toks.len() && toks[cur as int].token_type == TokenType::Dot {
        let name = consumed(
            toks,
            path,
            cur + 1,
            TokenType::Identifier,
            "Expected identifier"@,
            None,
        );
        match name.result {
            Err(e) => Parsed { result: Err(e), cursor: name.cursor },
            Ok(token) => call_tail_spec(
                toks,
                path,
                start,
                ExprView::GetExpr {
                    object: Box::new(callee),
                    name: token.lexeme,
                    span: merged_span(start, token_before(toks, name.cursor).span),
                },
                name.cursor,
            ),
        }
    } else {
        Parsed { result: Ok(callee), cursor: cur }
    }
}

/// The arguments of a call: nothing before `)`, or whole expressions with
/// commas between them.
pub open spec fn arguments_spec(toks: Seq<TokenView>, path: Seq<char>, cur: nat) -> Parsed<
    Seq<ExprView>,
>
    decreases toks.len() - cur, 30int,
{
    if toks[cur as int].token_type == TokenType::RightParen {
        Parsed { result: Ok(Seq::empty()), cursor: cur }
    } else {
        let first = expr_spec(toks, path, cur);
        match first.result {
            Err(e) => Parsed { result: Err(e), cursor: first.cursor },
            Ok(e) => if cur <= first.cursor <= toks.len() {
                arguments_tail_spec(toks, path, seq![e], first.cursor)
            } else {
                Parsed { result: Ok(seq![e]), cursor: first.cursor }
            },
        }
    }
}

/// The arguments behind the ones in `args`: as long as a comma comes, one
/// more whole expression.
pub open spec fn arguments_tail_spec(
    toks: Seq<TokenView>,
    path: Seq<char>,
    args: Seq<ExprView>,
    cur: nat,
) -> Parsed<Seq<ExprView>>
    decreases toks.len() - cur, 2int,
{
    if cur + 1 < toks.len() && toks[cur as int].token_type == TokenType::Comma {
        let next = expr_spec(toks, path, cur + 1);
        match next.result {
            Err(e) => Parsed { result: Err(e), cursor: next.cursor },
            Ok(e) => if cur < next.cursor <= toks.len() {
                arguments_tail_spec(toks, path, args.push(e), next.cursor)
            } else {
                Parsed { result: Ok(args.push(e)), cursor: next.cursor }
            },
        }
    } else {
        Parsed { result: Ok(args), cursor: cur }
    }
}

/// A primary expression: a variable or path, a literal, or a whole expression
/// in parentheses. The span of an expression in parentheses is that of its
/// closing parenthesis.
pub open spec fn primary_spec(toks: Seq<TokenView>, path: Seq<char>, cur: nat) -> Parsed<ExprView>
    decreases toks.len() - cur, 6int,
{
    let token = toks[cur as int];
    match token.token_type {
        TokenType::Identifier => path_spec(toks, path, cur),
        TokenType::StringLiteral => Parsed {
            result: Ok(ExprView::StringLiteralExpr { value: token.literal, span: token.span }),
            cursor: index_after(toks, cur),
        },
        TokenType::NumberLiteral => Parsed {
            result: Ok(
                if token.lexeme.contains('.') {
                    ExprView::FloatLiteralExpr { value: token.literal, span: token.span }
                } else {
                    ExprView::IntegerLiteralExpr {
                        value: integer_value(token.literal)->0,
                        span: token.span,
                    }
                },
            ),
            cursor: index_after(toks, cur),
        },
        TokenType::Keyword => if token.lexeme == "true"@ {
            Parsed {
                result: Ok(ExprView::BooleanLiteralExpr { value: true, span: token.span }),
                cursor: index_after(toks, cur),
            }
        } else if token.lexeme == "false"@ {
            Parsed {
                result: Ok(ExprView::BooleanLiteralExpr { value: false, span: token.span }),
                cursor: index_after(toks, cur),
            }
        } else if token.lexeme == "null"@ {
            Parsed {
                result: Ok(ExprView::NullLiteralExpr { span: token.span }),
                cursor: index_after(toks, cur),
            }
        } else if token.lexeme == "self"@ {
            Parsed {
                result: Ok(ExprView::SelfExpr { span: token.span }),
                cursor: index_after(toks, cur),
            }
        } else {
            Parsed {
                result: Err(
                    syntax_error(
                        path,
                        ErrorCode::E0005.text(),
                        unexpected_keyword(token.lexeme),
                        None,
                        token.span,
                    ),
                ),
                cursor: cur,
            }
        },
        TokenType::LeftParen => if cur + 1 < toks.len() {
            let inner = expr_spec(toks, path, cur + 1);
            match inner.result {
                Err(_) => inner,
                Ok(e) => {
                    let close = consumed(
                        toks,
                        path,
                        inner.cursor,
                        TokenType::RightParen,
                        "Expected `)` after expression"@,
                        None,
                    );
                    match close.result {
                        Err(e) => Parsed { result: Err(e), cursor: close.cursor },
                        Ok(_) => Parsed {
                            result: Ok(
                                ExprView::GroupingExpr {
                                    expr: Box::new(e),
                                    span: token_before(toks, close.cursor).span,
                                },
                            ),
                            cursor: close.cursor,
                        },
                    }
                },
            }
        } else {
            Parsed {
                result: Err(
                    syntax_error(
                        path,
                        ErrorCode::E0005.text(),
                        unexpected_token(token.lexeme),
                        None,
                        token.span,
                    ),
                ),
                cursor: cur,
            }
        },
        _ => Parsed {
            result: Err(
                syntax_error(
                    path,
                    ErrorCode::E0005.text(),
                    unexpected_token(token.lexeme),
                    None,
                    token.span,
                ),
            ),
            cursor: cur,
        },
    }
}

/// The expressions and diagnostics of a token sequence, each in the order of
/// the tokens.
pub struct Units {
    pub nodes: Seq<ExprView>,
    pub errors: Seq<RigErrorView>,
}

impl Units {
    /// Nothing read.
    pub open spec fn empty() -> Units {
        Units { nodes: Seq::empty(), errors: Seq::empty() }
    }

    /// These units behind the outcome of reading one.
    pub open spec fn after(self, unit: Result<ExprView, RigErrorView>) -> Units {
        match unit {
            Ok(node) => Units { nodes: seq![node] + self.nodes, errors: self.errors },
            Err(error) => Units { nodes: self.nodes, errors: seq![error] + self.errors },
        }
    }
}

/// Where the parser takes up its work after a fault at index `cur`: behind the
/// next `;`, or at the end-of-file token if none comes before it.
pub open spec fn resume_index(toks: Seq<TokenView>, cur: nat) -> nat
    decreases toks.len() - cur,
{
    if cur >= toks.len() || toks[cur as int].token_type == TokenType::EOF {
        cur
    } else if toks[cur as int].token_type == TokenType::Semicolon {
        cur + 1
    } else {
        resume_index(toks, cur + 1)
    }
}

/// Where the next unit begins once one has been read with the outcome
/// `unit`: behind the `;` that ends an expression, if there is one, and at
/// [`resume_index`] after a fault.
pub open spec fn next_unit_index(toks: Seq<TokenView>, unit: Parsed<ExprView>) -> nat {
    match unit.result {
        Ok(_) => if toks[unit.cursor as int].token_type == TokenType::Semicolon {
            unit.cursor + 1
        } else {
            unit.cursor
        },
        Err(_) => resume_index(toks, unit.cursor),
    }
}

/// The units from index `cur` to the end-of-file token: one whole expression
/// after the other.
pub open spec fn units_spec(toks: Seq<TokenView>, path: Seq<char>, cur: nat) -> Units
    decreases toks.len() - cur,
{
    if cur >= toks.len() || toks[cur as int].token_type == TokenType::EOF {
        Units::empty()
    } else {
        let unit = expr_spec(toks, path, cur);
        let next = next_unit_index(toks, unit);
        if cur < next <= toks.len() {
            units_spec(toks, path, next).after(unit.result)
        } else {
            Units::empty().after(unit.result)
        }
    }
}

} // verus!
