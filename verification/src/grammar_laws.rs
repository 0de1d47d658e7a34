//! Laws of the grammar: what holds of the reading of every token sequence.

use vstd::prelude::*;
use crate::ast::ExprView;
use crate::error::RigErrorView;
use crate::grammar::{
    arguments_spec, arguments_tail_spec, assignment_spec, binary_spec, binary_tail_spec,
    call_spec, call_tail_spec, consumed, expr_spec, index_after, invalid_assignment_code,
    invalid_assignment_message, operation, path_spec, path_tail_spec, prefix_operator,
    primary_spec, resume_index, syntax_error, token_before, unary_spec, well_formed_tokens, Level,
    Parsed,
};
use crate::span::{lemma_merge_well_formed, merged_span, SpanView};
use crate::token::{TokenType, TokenView};

verus! {

/// Taking up the work after a fault moves forward, stays among the tokens,
/// and moves past every token that is not the end-of-file token.
pub proof fn lemma_resume_index(toks: Seq<TokenView>, cur: nat)
    requires
        well_formed_tokens(toks),
        cur < toks.len(),
    ensures
        cur <= resume_index(toks, cur) < toks.len(),
        toks[cur as int].token_type != TokenType::EOF ==> cur < resume_index(toks, cur),
    decreases toks.len() - cur,
{
    if toks[cur as int].token_type != TokenType::EOF && toks[cur as int].token_type
        != TokenType::Semicolon {
        lemma_resume_index(toks, cur + 1);
    }
}

/// The parser stays among the tokens and does not move back; where it read
/// something, it moved forward.
pub open spec fn moves_on<T>(toks: Seq<TokenView>, cur: nat, parsed: Parsed<T>) -> bool {
    &&& cur <= parsed.cursor < toks.len()
    &&& parsed.result is Ok ==> cur < parsed.cursor
}

/// The parser stays among the tokens and does not move back.
pub open spec fn stays_inside<T>(toks: Seq<TokenView>, cur: nat, parsed: Parsed<T>) -> bool {
    cur <= parsed.cursor < toks.len()
}

/// On well-formed tokens, reading a whole expression keeps the parser among
/// the tokens and moves it forward if an expression was read.
pub proof fn lemma_expr_moves_on(toks: Seq<TokenView>, path: Seq<char>, cur: nat)
    requires
        well_formed_tokens(toks),
        cur < toks.len(),
    ensures
        moves_on(toks, cur, expr_spec(toks, path, cur)),
    decreases toks.len() - cur, 20int,
{
    lemma_assignment_moves_on(toks, path, cur);
}

/// On well-formed tokens, reading an assignment keeps the parser among the
/// tokens and moves it forward if an expression was read.
pub proof fn lemma_assignment_moves_on(toks: Seq<TokenView>, path: Seq<char>, cur: nat)
    requires
        well_formed_tokens(toks),
        cur < toks.len(),
    ensures
        moves_on(toks, cur, assignment_spec(toks, path, cur)),
    decreases toks.len() - cur, 19int,
{
    lemma_binary_moves_on(toks, path, cur, Level::LogicalOr);
    let lhs = binary_spec(toks, path, cur, Level::LogicalOr);
    if lhs.result is Ok && toks[lhs.cursor as int].token_type == TokenType::Equal {
        lemma_expr_moves_on(toks, path, lhs.cursor + 1);
    }
}

/// On well-formed tokens, reading an operand of `level` keeps the parser
/// among the tokens and moves it forward if an expression was read.
pub proof fn lemma_binary_moves_on(toks: Seq<TokenView>, path: Seq<char>, cur: nat, level: Level)
    requires
        well_formed_tokens(toks),
        cur < toks.len(),
    ensures
        moves_on(toks, cur, binary_spec(toks, path, cur, level)),
    decreases toks.len() - cur, 8 + level.rank(),
{
    let lhs = match level.tighter() {
        Some(next) => {
            lemma_binary_moves_on(toks, path, cur, next);
            binary_spec(toks, path, cur, next)
        },
        None => {
            lemma_unary_moves_on(toks, path, cur);
            unary_spec(toks, path, cur)
        },
    };
    if let Ok(left) = lhs.result {
        lemma_binary_tail_stays_inside(toks, path, level, toks[cur as int].span, left, lhs.cursor);
    }
}

/// On well-formed tokens, reading what stands behind an operand keeps the
/// parser among the tokens.
pub proof fn lemma_binary_tail_stays_inside(
    toks: Seq<TokenView>,
    path: Seq<char>,
    level: Level,
    start: SpanView,
    left: ExprView,
    cur: nat,
)
    requires
        well_formed_tokens(toks),
        cur < toks.len(),
    ensures
        stays_inside(toks, cur, binary_tail_spec(toks, path, level, start, left, cur)),
    decreases toks.len() - cur, 0int,
{
    if level.operator(toks[cur as int]) is Some {
        lemma_expr_moves_on(toks, path, cur + 1);
    }
}

/// On well-formed tokens, reading an operand of the unary level keeps the
/// parser among the tokens and moves it forward if an expression was read.
pub proof fn lemma_unary_moves_on(toks: Seq<TokenView>, path: Seq<char>, cur: nat)
    requires
        well_formed_tokens(toks),
        cur < toks.len(),
    ensures
        moves_on(toks, cur, unary_spec(toks, path, cur)),
    decreases toks.len() - cur, 8int,
{
    if prefix_operator(toks[cur as int]) is Some {
        lemma_expr_moves_on(toks, path, cur + 1);
    } else {
        lemma_call_moves_on(toks, path, cur);
    }
}

/// On well-formed tokens, reading an operand of the call level keeps the
/// parser among the tokens and moves it forward if an expression was read.
pub proof fn lemma_call_moves_on(toks: Seq<TokenView>, path: Seq<char>, cur: nat)
    requires
        well_formed_tokens(toks),
        cur < toks.len(),
    ensures
        moves_on(toks, cur, call_spec(toks, path, cur)),
    decreases toks.len() - cur, 7int,
{
    lemma_primary_moves_on(toks, path, cur);
    let callee = primary_spec(toks, path, cur);
    if let Ok(e) = callee.result {
        lemma_call_tail_stays_inside(toks, path, toks[cur as int].span, e, callee.cursor);
    }
}

/// On well-formed tokens, reading the argument lists and property names
/// behind an expression keeps the parser among the tokens.
pub proof fn lemma_call_tail_stays_inside(
    toks: Seq<TokenView>,
    path: Seq<char>,
    start: SpanView,
    callee: ExprView,
    cur: nat,
)
    requires
        well_formed_tokens(toks),
        cur < toks.len(),
    ensures
        stays_inside(toks, cur, call_tail_spec(toks, path, start, callee, cur)),
    decreases toks.len() - cur, 3int,
{
    if toks[cur as int].token_type == TokenType::LeftParen {
        lemma_arguments_stay_inside(toks, path, cur + 1);
        let args = arguments_spec(toks, path, cur + 1);
        if let Ok(list) = args.result {
            let close = if toks[args.cursor as int].token_type == TokenType::RightParen {
                index_after(toks, args.cursor)
            } else {
                args.cursor
            };
            let call = ExprView::CallExpr {
                name: Box::new(callee),
                args: list,
                span: merged_span(start, token_before(toks, close).span),
            };
            lemma_call_tail_stays_inside(toks, path, start, call, close);
        }
    } else if toks[cur as int].token_type == TokenType::Dot {
        let name = consumed(
            toks,
            path,
            cur + 1,
            TokenType::Identifier,
            "Expected identifier"@,
            None,
        );
        if let Ok(token) = name.result {
            lemma_call_tail_stays_inside(
                toks,
                path,
                start,
                ExprView::GetExpr {
                    object: Box::new(callee),
                    name: token.lexeme,
                    span: merged_span(start, token_before(toks, name.cursor).span),
                },
                name.cursor,
            );
        }
    }
}

/// On well-formed tokens, reading the arguments of a call keeps the parser
/// among the tokens.
pub proof fn lemma_arguments_stay_inside(toks: Seq<TokenView>, path: Seq<char>, cur: nat)
    requires
        well_formed_tokens(toks),
        cur < toks.len(),
    ensures
        stays_inside(toks, cur, arguments_spec(toks, path, cur)),
    decreases toks.len() - cur, 30int,
{
    if toks[cur as int].token_type != TokenType::RightParen {
        lemma_expr_moves_on(toks, path, cur);
        let first = expr_spec(toks, path, cur);
        if let Ok(e) = first.result {
            lemma_arguments_tail_stays_inside(toks, path, seq![e], first.cursor);
        }
    }
}

/// On well-formed tokens, reading further arguments keeps the parser among
/// the tokens.
pub proof fn lemma_arguments_tail_stays_inside(
    toks: Seq<TokenView>,
    path: Seq<char>,
    args: Seq<ExprView>,
    cur: nat,
)
    requires
        well_formed_tokens(toks),
        cur < toks.len(),
    ensures
        stays_inside(toks, cur, arguments_tail_spec(toks, path, args, cur)),
    decreases toks.len() - cur, 2int,
{
    if toks[cur as int].token_type == TokenType::Comma {
        lemma_expr_moves_on(toks, path, cur + 1);
        let next = expr_spec(toks, path, cur + 1);
        if let Ok(e) = next.result {
            lemma_arguments_tail_stays_inside(toks, path, args.push(e), next.cursor);
        }
    }
}

/// On well-formed tokens, reading a primary expression keeps the parser among
/// the tokens and moves it forward if an expression was read.
pub proof fn lemma_primary_moves_on(toks: Seq<TokenView>, path: Seq<char>, cur: nat)
    requires
        well_formed_tokens(toks),
        cur < toks.len(),
    ensures
        moves_on(toks, cur, primary_spec(toks, path, cur)),
    decreases toks.len() - cur, 6int,
{
    let token = toks[cur as int];
    if token.token_type == TokenType::Identifier {
        lemma_path_moves_on(toks, path, cur);
    } else if token.token_type == TokenType::LeftParen {
        lemma_expr_moves_on(toks, path, cur + 1);
    }
}

/// On well-formed tokens, reading the names of a path keeps the parser among
/// the tokens.
pub proof fn lemma_path_tail_stays_inside(toks: Seq<TokenView>, path: Seq<char>, cur: nat)
    requires
        well_formed_tokens(toks),
        cur < toks.len(),
    ensures
        stays_inside(toks, cur, path_tail_spec(toks, path, cur)),
    decreases toks.len() - cur,
{
    let name = consumed(toks, path, cur, TokenType::Identifier, "Expected identifier"@, None);
    if name.result is Ok && toks[name.cursor as int].token_type == TokenType::Scope {
        lemma_path_tail_stays_inside(toks, path, name.cursor + 1);
    }
}

/// On well-formed tokens, reading a variable or a path keeps the parser among
/// the tokens and moves it forward if an expression was read.
pub proof fn lemma_path_moves_on(toks: Seq<TokenView>, path: Seq<char>, cur: nat)
    requires
        well_formed_tokens(toks),
        cur < toks.len(),
    ensures
        moves_on(toks, cur, path_spec(toks, path, cur)),
{
    let first = consumed(toks, path, cur, TokenType::Identifier, "Expected identifier"@, None);
    if first.result is Ok && toks[first.cursor as int].token_type == TokenType::Scope {
        lemma_path_tail_stays_inside(toks, path, first.cursor + 1);
    }
}

/// Whether `count` identifiers stand at index `cur` and every second index
/// behind it, with `::` between them and something else behind the last.
pub open spec fn names_joined(toks: Seq<TokenView>, cur: nat, count: nat) -> bool {
    &&& count >= 1
    &&& cur + 2 * count - 1 < toks.len()
    &&& forall|k: int|
        0 <= k < count ==> (#[trigger] toks[cur + 2 * k]).token_type == TokenType::Identifier
    &&& forall|k: int|
        0 <= k < count - 1 ==> (#[trigger] toks[cur + 2 * k + 1]).token_type == TokenType::Scope
    &&& toks[cur + 2 * count - 1].token_type != TokenType::Scope
}

/// The names that stand at index `cur` and every second index behind it.
pub open spec fn joined_names(toks: Seq<TokenView>, cur: nat, count: nat) -> Seq<Seq<char>> {
    Seq::new(count, |k: int| toks[cur + 2 * k].lexeme)
}

/// The names of a path are read one after the other, up to the token behind
/// the last.
pub proof fn lemma_path_tail_reads_names(
    toks: Seq<TokenView>,
    path: Seq<char>,
    cur: nat,
    count: nat,
)
    requires
        names_joined(toks, cur, count),
    ensures
        path_tail_spec(toks, path, cur) == (Parsed {
            result: Ok(joined_names(toks, cur, count)),
            cursor: (cur + 2 * count - 1) as nat,
        }),
    decreases count,
{
    assert(toks[cur as int + 2 * 0].token_type == TokenType::Identifier);
    if count == 1 {
        assert(joined_names(toks, cur, count) =~= seq![toks[cur as int].lexeme]);
    } else {
        assert(toks[cur as int + 2 * 0 + 1].token_type == TokenType::Scope);
        assert(names_joined(toks, cur + 2, (count - 1) as nat)) by {
            assert forall|k: int| 0 <= k < count - 1 implies (#[trigger] toks[cur + 2 + 2
                * k]).token_type == TokenType::Identifier by {
                assert(toks[cur + 2 * (k + 1)].token_type == TokenType::Identifier);
            }
            assert forall|k: int| 0 <= k < count - 2 implies (#[trigger] toks[cur + 2 + 2 * k
                + 1]).token_type == TokenType::Scope by {
                assert(toks[cur + 2 * (k + 1) + 1].token_type == TokenType::Scope);
            }
        }
        lemma_path_tail_reads_names(toks, path, cur + 2, (count - 1) as nat);
        assert(joined_names(toks, cur, count) =~= seq![toks[cur as int].lexeme] + joined_names(
            toks,
            cur + 2,
            (count - 1) as nat,
        ));
    }
}

/// Variables and paths. One identifier with no `::` behind it is read as a
/// variable of that name. Two identifiers or more with `::` between them are
/// read as a path of these names, in their order.
pub proof fn lemma_variable_or_path(toks: Seq<TokenView>, path: Seq<char>, cur: nat, count: nat)
    requires
        names_joined(toks, cur, count),
    ensures
        primary_spec(toks, path, cur).cursor == cur + 2 * count - 1,
        count == 1 ==> primary_spec(toks, path, cur).result == Ok::<ExprView, RigErrorView>(
            ExprView::VariableExpr {
                name: toks[cur as int].lexeme,
                span: toks[cur as int + 1].span,
            },
        ),
        count >= 2 ==> primary_spec(toks, path, cur).result == Ok::<ExprView, RigErrorView>(
            ExprView::PathExpr {
                path: joined_names(toks, cur, count),
                span: merged_span(toks[cur as int].span, toks[cur + 2 * count - 1].span),
            },
        ),
{
    assert(toks[cur as int + 2 * 0].token_type == TokenType::Identifier);
    if count >= 2 {
        assert(toks[cur as int + 2 * 0 + 1].token_type == TokenType::Scope);
        assert(names_joined(toks, cur + 2, (count - 1) as nat)) by {
            assert forall|k: int| 0 <= k < count - 1 implies (#[trigger] toks[cur + 2 + 2
                * k]).token_type == TokenType::Identifier by {
                assert(toks[cur + 2 * (k + 1)].token_type == TokenType::Identifier);
            }
            assert forall|k: int| 0 <= k < count - 2 implies (#[trigger] toks[cur + 2 + 2 * k
                + 1]).token_type == TokenType::Scope by {
                assert(toks[cur + 2 * (k + 1) + 1].token_type == TokenType::Scope);
            }
        }
        lemma_path_tail_reads_names(toks, path, cur + 2, (count - 1) as nat);
        assert(joined_names(toks, cur, count) =~= seq![toks[cur as int].lexeme] + joined_names(
            toks,
            cur + 2,
            (count - 1) as nat,
        ));
    }
}

/// The target of an assignment. Where an operand of the logical-or level,
/// `=` and a whole expression have been read, the three are a `SetExpr` if
/// the operand is a property, an `AssignmentExpr` if it is a variable, and
/// otherwise the fault of an invalid assignment at the `=`.
pub proof fn lemma_assignment_checks_its_target(toks: Seq<TokenView>, path: Seq<char>, cur: nat)
    requires
        well_formed_tokens(toks),
        cur < toks.len(),
        binary_spec(toks, path, cur, Level::LogicalOr).result is Ok,
        toks[binary_spec(toks, path, cur, Level::LogicalOr).cursor as int].token_type
            == TokenType::Equal,
        expr_spec(
            toks,
            path,
            binary_spec(toks, path, cur, Level::LogicalOr).cursor + 1,
        ).result is Ok,
    ensures
        ({
            let lhs = binary_spec(toks, path, cur, Level::LogicalOr);
            let rhs = expr_spec(toks, path, lhs.cursor + 1);
            let value = rhs.result->Ok_0;
            let end = token_before(toks, rhs.cursor).span;
            &&& assignment_spec(toks, path, cur).cursor == rhs.cursor
            &&& assignment_spec(toks, path, cur).result == match lhs.result->Ok_0 {
                ExprView::GetExpr { object, name, span } => Ok::<ExprView, RigErrorView>(
                    ExprView::SetExpr {
                        object,
                        name,
                        value: Box::new(value),
                        span: merged_span(span, end),
                    },
                ),
                ExprView::VariableExpr { name, span } => Ok(
                    ExprView::AssignmentExpr {
                        name,
                        value: Box::new(value),
                        span: merged_span(span, end),
                    },
                ),
                _ => Err(
                    syntax_error(
                        path,
                        invalid_assignment_code(),
                        invalid_assignment_message(),
                        None,
                        toks[lhs.cursor as int].span,
                    ),
                ),
            }
        }),
{
    lemma_binary_moves_on(toks, path, cur, Level::LogicalOr);
}

/// Chains grow to the left. A `.` and an identifier behind an expression make
/// a property of all that was read before them, and the chain goes on behind
/// the identifier.
pub proof fn lemma_property_wraps_what_was_read(
    toks: Seq<TokenView>,
    path: Seq<char>,
    start: SpanView,
    callee: ExprView,
    cur: nat,
)
    requires
        cur + 2 < toks.len(),
        toks[cur as int].token_type == TokenType::Dot,
        toks[cur as int + 1].token_type == TokenType::Identifier,
    ensures
        call_tail_spec(toks, path, start, callee, cur) == call_tail_spec(
            toks,
            path,
            start,
            ExprView::GetExpr {
                object: Box::new(callee),
                name: toks[cur as int + 1].lexeme,
                span: merged_span(start, toks[cur as int + 1].span),
            },
            cur + 2,
        ),
{
}

/// Chains grow to the left. `(`, arguments and `)` behind an expression make
/// a call of all that was read before them, and the chain goes on behind the
/// `)`.
pub proof fn lemma_call_wraps_what_was_read(
    toks: Seq<TokenView>,
    path: Seq<char>,
    start: SpanView,
    callee: ExprView,
    cur: nat,
)
    requires
        well_formed_tokens(toks),
        cur < toks.len(),
        toks[cur as int].token_type == TokenType::LeftParen,
        arguments_spec(toks, path, cur + 1).result is Ok,
        toks[arguments_spec(toks, path, cur + 1).cursor as int].token_type
            == TokenType::RightParen,
    ensures
        ({
            let args = arguments_spec(toks, path, cur + 1);
            call_tail_spec(toks, path, start, callee, cur) == call_tail_spec(
                toks,
                path,
                start,
                ExprView::CallExpr {
                    name: Box::new(callee),
                    args: args.result->Ok_0,
                    span: merged_span(start, toks[args.cursor as int].span),
                },
                args.cursor + 1,
            )
        }),
{
    lemma_arguments_stay_inside(toks, path, cur + 1);
}

/// The right operand is a whole expression. Behind an operand of a level and
/// an operator of that level, whatever whole expression can be read becomes
/// the right operand, operators of looser levels and all.
pub proof fn lemma_right_operand_is_whole_expression(
    toks: Seq<TokenView>,
    path: Seq<char>,
    level: Level,
    start: SpanView,
    left: ExprView,
    cur: nat,
)
    requires
        cur < toks.len(),
        level.operator(toks[cur as int]) is Some,
        expr_spec(toks, path, cur + 1).result is Ok,
    ensures
        ({
            let rhs = expr_spec(toks, path, cur + 1);
            binary_tail_spec(toks, path, level, start, left, cur) == (Parsed {
                result: Ok(
                    operation(
                        level.operator(toks[cur as int])->0,
                        left,
                        rhs.result->Ok_0,
                        merged_span(start, token_before(toks, rhs.cursor).span),
                    ),
                ),
                cursor: rhs.cursor,
            })
        }),
{
}

/// Every token carries a span that does not end on an earlier line than it
/// starts.
pub open spec fn tokens_well_spanned(toks: Seq<TokenView>) -> bool {
    forall|i: int| 0 <= i < toks.len() ==> (#[trigger] toks[i]).span.well_formed()
}

/// What was read, if anything, is a tree whose every node carries a span
/// that does not end on an earlier line than it starts.
pub open spec fn reads_well_spanned(parsed: Parsed<ExprView>) -> bool {
    parsed.result matches Ok(e) ==> e.well_spanned()
}

/// The arguments that were read, if any, are trees whose every node carries a
/// span that does not end on an earlier line than it starts.
pub open spec fn all_well_spanned(args: Seq<ExprView>) -> bool {
    forall|i: int| 0 <= i < args.len() ==> (#[trigger] args[i]).well_spanned()
}

/// Spans of the parser. Read from well-formed tokens whose spans do not end
/// on an earlier line than they start, a whole expression is a tree whose
/// every node carries such a span.
pub proof fn lemma_expr_well_spanned(toks: Seq<TokenView>, path: Seq<char>, cur: nat)
    requires
        well_formed_tokens(toks),
        tokens_well_spanned(toks),
        cur < toks.len(),
    ensures
        reads_well_spanned(expr_spec(toks, path, cur)),
    decreases toks.len() - cur, 20int,
{
    lemma_assignment_well_spanned(toks, path, cur);
}

/// The law of [`lemma_expr_well_spanned`] at the level of assignments.
pub proof fn lemma_assignment_well_spanned(toks: Seq<TokenView>, path: Seq<char>, cur: nat)
    requires
        well_formed_tokens(toks),
        tokens_well_spanned(toks),
        cur < toks.len(),
    ensures
        reads_well_spanned(assignment_spec(toks, path, cur)),
    decreases toks.len() - cur, 19int,
{
    lemma_binary_moves_on(toks, path, cur, Level::LogicalOr);
    lemma_binary_well_spanned(toks, path, cur, Level::LogicalOr);
    let lhs = binary_spec(toks, path, cur, Level::LogicalOr);
    if lhs.result is Ok && toks[lhs.cursor as int].token_type == TokenType::Equal {
        lemma_expr_moves_on(toks, path, lhs.cursor + 1);
        lemma_expr_well_spanned(toks, path, lhs.cursor + 1);
    }
}

/// The law of [`lemma_expr_well_spanned`] at a level that reads an operator
/// between two operands.
pub proof fn lemma_binary_well_spanned(
    toks: Seq<TokenView>,
    path: Seq<char>,
    cur: nat,
    level: Level,
)
    requires
        well_formed_tokens(toks),
        tokens_well_spanned(toks),
        cur < toks.len(),
    ensures
        reads_well_spanned(binary_spec(toks, path, cur, level)),
    decreases toks.len() - cur, 8 + level.rank(),
{
    let lhs = match level.tighter() {
        Some(next) => {
            lemma_binary_moves_on(toks, path, cur, next);
            lemma_binary_well_spanned(toks, path, cur, next);
            binary_spec(toks, path, cur, next)
        },
        None => {
            lemma_unary_moves_on(toks, path, cur);
            lemma_unary_well_spanned(toks, path, cur);
            unary_spec(toks, path, cur)
        },
    };
    if let Ok(left) = lhs.result {
        let start = toks[cur as int].span;
        let tail = binary_tail_spec(toks, path, level, start, left, lhs.cursor);
        assert(binary_spec(toks, path, cur, level) == tail);
        if let Some(op) = level.operator(toks[lhs.cursor as int]) {
            lemma_expr_moves_on(toks, path, lhs.cursor + 1);
            lemma_expr_well_spanned(toks, path, lhs.cursor + 1);
            let rhs = expr_spec(toks, path, lhs.cursor + 1);
            if let Ok(right) = rhs.result {
                let end = token_before(toks, rhs.cursor).span;
                lemma_merge_well_formed(start, end);
                let node = operation(op, left, right, merged_span(start, end));
                assert(node.well_spanned());
                assert(tail.result == Ok::<ExprView, RigErrorView>(node));
            }
        }
    }
}

/// The law of [`lemma_expr_well_spanned`] at the unary level.
pub proof fn lemma_unary_well_spanned(toks: Seq<TokenView>, path: Seq<char>, cur: nat)
    requires
        well_formed_tokens(toks),
        tokens_well_spanned(toks),
        cur < toks.len(),
    ensures
        reads_well_spanned(unary_spec(toks, path, cur)),
    decreases toks.len() - cur, 8int,
{
    if prefix_operator(toks[cur as int]) is Some {
        lemma_expr_moves_on(toks, path, cur + 1);
        lemma_expr_well_spanned(toks, path, cur + 1);
    } else {
        lemma_call_well_spanned(toks, path, cur);
    }
}

/// The law of [`lemma_expr_well_spanned`] at the call level.
pub proof fn lemma_call_well_spanned(toks: Seq<TokenView>, path: Seq<char>, cur: nat)
    requires
        well_formed_tokens(toks),
        tokens_well_spanned(toks),
        cur < toks.len(),
    ensures
        reads_well_spanned(call_spec(toks, path, cur)),
    decreases toks.len() - cur, 7int,
{
    lemma_primary_moves_on(toks, path, cur);
    lemma_primary_well_spanned(toks, path, cur);
    let callee = primary_spec(toks, path, cur);
    if let Ok(e) = callee.result {
        lemma_call_tail_well_spanned(toks, path, toks[cur as int].span, e, callee.cursor);
    }
}

/// The law of [`lemma_expr_well_spanned`] for the argument lists and
/// property names behind an expression.
pub proof fn lemma_call_tail_well_spanned(
    toks: Seq<TokenView>,
    path: Seq<char>,
    start: SpanView,
    callee: ExprView,
    cur: nat,
)
    requires
        well_formed_tokens(toks),
        tokens_well_spanned(toks),
        cur < toks.len(),
        start.well_formed(),
        callee.well_spanned(),
    ensures
        reads_well_spanned(call_tail_spec(toks, path, start, callee, cur)),
    decreases toks.len() - cur, 3int,
{
    if toks[cur as int].token_type == TokenType::LeftParen {
        lemma_arguments_stay_inside(toks, path, cur + 1);
        lemma_arguments_well_spanned(toks, path, cur + 1);
        let args = arguments_spec(toks, path, cur + 1);
        if let Ok(list) = args.result {
            let close = if toks[args.cursor as int].token_type == TokenType::RightParen {
                index_after(toks, args.cursor)
            } else {
                args.cursor
            };
            let call = ExprView::CallExpr {
                name: Box::new(callee),
                args: list,
                span: merged_span(start, token_before(toks, close).span),
            };
            lemma_call_tail_well_spanned(toks, path, start, call, close);
        }
    } else if toks[cur as int].token_type == TokenType::Dot {
        let name = consumed(
            toks,
            path,
            cur + 1,
            TokenType::Identifier,
            "Expected identifier"@,
            None,
        );
        if let Ok(token) = name.result {
            lemma_call_tail_well_spanned(
                toks,
                path,
                start,
                ExprView::GetExpr {
                    object: Box::new(callee),
                    name: token.lexeme,
                    span: merged_span(start, token_before(toks, name.cursor).span),
                },
                name.cursor,
            );
        }
    }
}

/// The law of [`lemma_expr_well_spanned`] for the arguments of a call.
pub proof fn lemma_arguments_well_spanned(toks: Seq<TokenView>, path: Seq<char>, cur: nat)
    requires
        well_formed_tokens(toks),
        tokens_well_spanned(toks),
        cur < toks.len(),
    ensures
        arguments_spec(toks, path, cur).result matches Ok(args) ==> all_well_spanned(args),
    decreases toks.len() - cur, 30int,
{
    if toks[cur as int].token_type != TokenType::RightParen {
        lemma_expr_moves_on(toks, path, cur);
        lemma_expr_well_spanned(toks, path, cur);
        let first = expr_spec(toks, path, cur);
        if let Ok(e) = first.result {
            lemma_arguments_tail_well_spanned(toks, path, seq![e], first.cursor);
        }
    }
}

/// The law of [`lemma_expr_well_spanned`] for further arguments of a call.
pub proof fn lemma_arguments_tail_well_spanned(
    toks: Seq<TokenView>,
    path: Seq<char>,
    args: Seq<ExprView>,
    cur: nat,
)
    requires
        well_formed_tokens(toks),
        tokens_well_spanned(toks),
        cur < toks.len(),
        all_well_spanned(args),
    ensures
        arguments_tail_spec(toks, path, args, cur).result matches Ok(all) ==> all_well_spanned(
            all,
        ),
    decreases toks.len() - cur, 2int,
{
    if toks[cur as int].token_type == TokenType::Comma {
        lemma_expr_moves_on(toks, path, cur + 1);
        lemma_expr_well_spanned(toks, path, cur + 1);
        let next = expr_spec(toks, path, cur + 1);
        if let Ok(e) = next.result {
            lemma_arguments_tail_well_spanned(toks, path, args.push(e), next.cursor);
        }
    }
}

/// The law of [`lemma_expr_well_spanned`] for primary expressions.
pub proof fn lemma_primary_well_spanned(toks: Seq<TokenView>, path: Seq<char>, cur: nat)
    requires
        well_formed_tokens(toks),
        tokens_well_spanned(toks),
        cur < toks.len(),
    ensures
        reads_well_spanned(primary_spec(toks, path, cur)),
    decreases toks.len() - cur, 6int,
{
    let token = toks[cur as int];
    if token.token_type == TokenType::Identifier {
        lemma_path_moves_on(toks, path, cur);
        let first = consumed(toks, path, cur, TokenType::Identifier, "Expected identifier"@, None);
        if toks[first.cursor as int].token_type == TokenType::Scope {
            lemma_path_tail_stays_inside(toks, path, first.cursor + 1);
        }
    } else if token.token_type == TokenType::LeftParen {
        lemma_expr_moves_on(toks, path, cur + 1);
        lemma_expr_well_spanned(toks, path, cur + 1);
    }
}

} // verus!
