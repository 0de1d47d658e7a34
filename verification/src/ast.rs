//! Syntax trees: operators and expressions.

use vstd::prelude::*;
use crate::span::{Span, SpanView};
use crate::token::{symbol_of, symbol_type, TokenType};

verus! {

/// The operators that compare or combine truth values.
#[derive(Debug, Clone, Copy, PartialEq, Eq, Structural)]
pub enum LogicalOperator {
    Or,
    And,
    Equal,
    NotEqual,
    Less,
    LessEq,
    Greater,
    GreaterEq,
}

/// The operators of arithmetic and of bits.
#[derive(Debug, Clone, Copy, PartialEq, Eq, Structural)]
pub enum BinaryOperator {
    Or,
    Xor,
    And,
    LeftShift,
    RightShift,
    Plus,
    Minus,
    Multiply,
    Divide,
    Modulus,
}

/// The operators that stand before their one operand.
#[derive(Debug, Clone, Copy, PartialEq, Eq, Structural)]
pub enum UnaryOperator {
    Not,
    Negate,
}

impl LogicalOperator {
    /// The operator that a symbol of kind `symbol` writes, if any.
    pub open spec fn of_symbol(symbol: TokenType) -> Option<LogicalOperator> {
        match symbol {
            TokenType::Or => Some(LogicalOperator::Or),
            TokenType::And => Some(LogicalOperator::And),
            TokenType::EqualEqual => Some(LogicalOperator::Equal),
            TokenType::NotEqual => Some(LogicalOperator::NotEqual),
            TokenType::LessThan => Some(LogicalOperator::Less),
            TokenType::LessThanOrEquals => Some(LogicalOperator::LessEq),
            TokenType::GreaterThan => Some(LogicalOperator::Greater),
            TokenType::GreaterThanOrEquals => Some(LogicalOperator::GreaterEq),
            _ => None,
        }
    }

    /// The operator whose whole text is `lexeme`, if any.
    pub open spec fn of_lexeme(lexeme: Seq<char>) -> Option<LogicalOperator> {
        match symbol_type(lexeme) {
            Some(symbol) => Self::of_symbol(symbol),
            None => None,
        }
    }

    /// Reads an operator from its text.
    pub fn from_lexeme(lexeme: &str) -> (op: Option<LogicalOperator>)
        ensures
            op == Self::of_lexeme(lexeme@),
    {
        match symbol_of(lexeme) {
            Some(TokenType::Or) => Some(LogicalOperator::Or),
            Some(TokenType::And) => Some(LogicalOperator::And),
            Some(TokenType::EqualEqual) => Some(LogicalOperator::Equal),
            Some(TokenType::NotEqual) => Some(LogicalOperator::NotEqual),
            Some(TokenType::LessThan) => Some(LogicalOperator::Less),
            Some(TokenType::LessThanOrEquals) => Some(LogicalOperator::LessEq),
            Some(TokenType::GreaterThan) => Some(LogicalOperator::Greater),
            Some(TokenType::GreaterThanOrEquals) => Some(LogicalOperator::GreaterEq),
            _ => None,
        }
    }
}

impl BinaryOperator {
    /// The operator that a symbol of kind `symbol` writes, if any.
    pub open spec fn of_symbol(symbol: TokenType) -> Option<BinaryOperator> {
        match symbol {
            TokenType::OrOp => Some(BinaryOperator::Or),
            TokenType::Xor => Some(BinaryOperator::Xor),
            TokenType::AndOp => Some(BinaryOperator::And),
            TokenType::LeftShift => Some(BinaryOperator::LeftShift),
            TokenType::RightShift => Some(BinaryOperator::RightShift),
            TokenType::Plus => Some(BinaryOperator::Plus),
            TokenType::Minus => Some(BinaryOperator::Minus),
            TokenType::Multiply => Some(BinaryOperator::Multiply),
            TokenType::Divide => Some(BinaryOperator::Divide),
            TokenType::Modulus => Some(BinaryOperator::Modulus),
            _ => None,
        }
    }

    /// The operator whose whole text is `lexeme`, if any.
    pub open spec fn of_lexeme(lexeme: Seq<char>) -> Option<BinaryOperator> {
        match symbol_type(lexeme) {
            Some(symbol) => Self::of_symbol(symbol),
            None => None,
        }
    }

    /// Reads an operator from its text.
    pub fn from_lexeme(lexeme: &str) -> (op: Option<BinaryOperator>)
        ensures
            op == Self::of_lexeme(lexeme@),
    {
        match symbol_of(lexeme) {
            Some(TokenType::OrOp) => Some(BinaryOperator::Or),
            Some(TokenType::Xor) => Some(BinaryOperator::Xor),
            Some(TokenType::AndOp) => Some(BinaryOperator::And),
            Some(TokenType::LeftShift) => Some(BinaryOperator::LeftShift),
            Some(TokenType::RightShift) => Some(BinaryOperator::RightShift),
            Some(TokenType::Plus) => Some(BinaryOperator::Plus),
            Some(TokenType::Minus) => Some(BinaryOperator::Minus),
            Some(TokenType::Multiply) => Some(BinaryOperator::Multiply),
            Some(TokenType::Divide) => Some(BinaryOperator::Divide),
            Some(TokenType::Modulus) => Some(BinaryOperator::Modulus),
            _ => None,
        }
    }
}

impl UnaryOperator {
    /// The operator that a symbol of kind `symbol` writes, if any.
    pub open spec fn of_symbol(symbol: TokenType) -> Option<UnaryOperator> {
        match symbol {
            TokenType::Bang => Some(UnaryOperator::Not),
            TokenType::Minus => Some(UnaryOperator::Negate),
            _ => None,
        }
    }

    /// The operator whose whole text is `lexeme`, if any.
    pub open spec fn of_lexeme(lexeme: Seq<char>) -> Option<UnaryOperator> {
        match symbol_type(lexeme) {
            Some(symbol) => Self::of_symbol(symbol),
            None => None,
        }
    }

    /// Reads an operator from its text.
    pub fn from_lexeme(lexeme: &str) -> (op: Option<UnaryOperator>)
        ensures
            op == Self::of_lexeme(lexeme@),
    {
        match symbol_of(lexeme) {
            Some(TokenType::Bang) => Some(UnaryOperator::Not),
            Some(TokenType::Minus) => Some(UnaryOperator::Negate),
            _ => None,
        }
    }
}

/// An expression. Every node carries the span of the text it was read from
/// and owns its operands.
#[allow(inconsistent_fields)]
#[derive(Debug, PartialEq, Eq)]
pub enum Expr {
    StringLiteralExpr { value: String, span: Span },
    IntegerLiteralExpr { value: i64, span: Span },
    /// A number with a decimal point, kept as the digits that were written.
    FloatLiteralExpr { value: String, span: Span },
    BooleanLiteralExpr { value: bool, span: Span },
    NullLiteralExpr { span: Span },
    SelfExpr { span: Span },
    VariableExpr { name: String, span: Span },
    PathExpr { path: Vec<String>, span: Span },
    GetExpr { object: Box<Expr>, name: String, span: Span },
    SetExpr { object: Box<Expr>, name: String, value: Box<Expr>, span: Span },
    AssignmentExpr { name: String, value: Box<Expr>, span: Span },
    CallExpr { name: Box<Expr>, args: Vec<Box<Expr>>, span: Span },
    LogicalExpr { lhs: Box<Expr>, op: LogicalOperator, rhs: Box<Expr>, span: Span },
    BinaryExpr { lhs: Box<Expr>, op: BinaryOperator, rhs: Box<Expr>, span: Span },
    UnaryExpr { op: UnaryOperator, rhs: Box<Expr>, span: Span },
    GroupingExpr { expr: Box<Expr>, span: Span },
}

/// The mathematical value of an [`Expr`].
#[allow(inconsistent_fields)]
pub enum ExprView {
    StringLiteralExpr { value: Seq<char>, span: SpanView },
    IntegerLiteralExpr { value: int, span: SpanView },
    FloatLiteralExpr { value: Seq<char>, span: SpanView },
    BooleanLiteralExpr { value: bool, span: SpanView },
    NullLiteralExpr { span: SpanView },
    SelfExpr { span: SpanView },
    VariableExpr { name: Seq<char>, span: SpanView },
    PathExpr { path: Seq<Seq<char>>, span: SpanView },
    GetExpr { object: Box<ExprView>, name: Seq<char>, span: SpanView },
    SetExpr { object: Box<ExprView>, name: Seq<char>, value: Box<ExprView>, span: SpanView },
    AssignmentExpr { name: Seq<char>, value: Box<ExprView>, span: SpanView },
    CallExpr { name: Box<ExprView>, args: Seq<ExprView>, span: SpanView },
    LogicalExpr { lhs: Box<ExprView>, op: LogicalOperator, rhs: Box<ExprView>, span: SpanView },
    BinaryExpr { lhs: Box<ExprView>, op: BinaryOperator, rhs: Box<ExprView>, span: SpanView },
    UnaryExpr { op: UnaryOperator, rhs: Box<ExprView>, span: SpanView },
    GroupingExpr { expr: Box<ExprView>, span: SpanView },
}

/// The value of an expression.
pub open spec fn expr_view(e: Expr) -> ExprView
    decreases e,
{
    match e {
        Expr::StringLiteralExpr { value, span } => ExprView::StringLiteralExpr {
            value: value@,
            span: span@,
        },
        Expr::IntegerLiteralExpr { value, span } => ExprView::IntegerLiteralExpr {
            value: value as int,
            span: span@,
        },
        Expr::FloatLiteralExpr { value, span } => ExprView::FloatLiteralExpr {
            value: value@,
            span: span@,
        },
        Expr::BooleanLiteralExpr { value, span } => ExprView::BooleanLiteralExpr {
            value,
            span: span@,
        },
        Expr::NullLiteralExpr { span } => ExprView::NullLiteralExpr { span: span@ },
        Expr::SelfExpr { span } => ExprView::SelfExpr { span: span@ },
        Expr::VariableExpr { name, span } => ExprView::VariableExpr { name: name@, span: span@ },
        Expr::PathExpr { path, span } => ExprView::PathExpr {
            path: path@.map_values(|s: String| s@),
            span: span@,
        },
        Expr::GetExpr { object, name, span } => ExprView::GetExpr {
            object: Box::new(expr_view(*object)),
            name: name@,
            span: span@,
        },
        Expr::SetExpr { object, name, value, span } => ExprView::SetExpr {
            object: Box::new(expr_view(*object)),
            name: name@,
            value: Box::new(expr_view(*value)),
            span: span@,
        },
        Expr::AssignmentExpr { name, value, span } => ExprView::AssignmentExpr {
            name: name@,
            value: Box::new(expr_view(*value)),
            span: span@,
        },
        Expr::CallExpr { name, args, span } => ExprView::CallExpr {
            name: Box::new(expr_view(*name)),
            args: expr_views(args@),
            span: span@,
        },
        Expr::LogicalExpr { lhs, op, rhs, span } => ExprView::LogicalExpr {
            lhs: Box::new(expr_view(*lhs)),
            op,
            rhs: Box::new(expr_view(*rhs)),
            span: span@,
        },
        Expr::BinaryExpr { lhs, op, rhs, span } => ExprView::BinaryExpr {
            lhs: Box::new(expr_view(*lhs)),
            op,
            rhs: Box::new(expr_view(*rhs)),
            span: span@,
        },
        Expr::UnaryExpr { op, rhs, span } => ExprView::UnaryExpr {
            op,
            rhs: Box::new(expr_view(*rhs)),
            span: span@,
        },
        Expr::GroupingExpr { expr, span } => ExprView::GroupingExpr {
            expr: Box::new(expr_view(*expr)),
            span: span@,
        },
    }
}

/// The values of a sequence of expressions, in order.
pub open spec fn expr_views(es: Seq<Box<Expr>>) -> Seq<ExprView>
    decreases es,
{
    if es.len() == 0 {
        Seq::empty()
    } else {
        expr_views(es.drop_last()).push(expr_view(*es.last()))
    }
}

/// The values of a sequence with one more expression at its end are the
/// values of the sequence with the value of that expression at their end.
pub proof fn lemma_expr_views_push(es: Seq<Box<Expr>>, e: Box<Expr>)
    ensures
        expr_views(es.push(e)) == expr_views(es).push(expr_view(*e)),
{
    assert(es.push(e).drop_last() =~= es);
}

impl View for Expr {
    type V = ExprView;

    open spec fn view(&self) -> ExprView {
        expr_view(*self)
    }
}

impl ExprView {
    /// Every node of the tree carries a span that does not end on an earlier
    /// line than it starts.
    pub open spec fn well_spanned(self) -> bool
        decreases self,
    {
        &&& self.span().well_formed()
        &&& match self {
            ExprView::GetExpr { object, .. } => object.well_spanned(),
            ExprView::SetExpr { object, value, .. } => object.well_spanned()
                && value.well_spanned(),
            ExprView::AssignmentExpr { value, .. } => value.well_spanned(),
            ExprView::CallExpr { name, args, .. } => name.well_spanned() && forall|i: int|
                0 <= i < args.len() ==> (#[trigger] args[i]).well_spanned(),
            ExprView::LogicalExpr { lhs, rhs, .. } => lhs.well_spanned() && rhs.well_spanned(),
            ExprView::BinaryExpr { lhs, rhs, .. } => lhs.well_spanned() && rhs.well_spanned(),
            ExprView::UnaryExpr { rhs, .. } => rhs.well_spanned(),
            ExprView::GroupingExpr { expr, .. } => expr.well_spanned(),
            _ => true,
        }
    }

    /// The span of the node.
    pub open spec fn span(self) -> SpanView {
        match self {
            ExprView::StringLiteralExpr { span, .. } => span,
            ExprView::IntegerLiteralExpr { span, .. } => span,
            ExprView::FloatLiteralExpr { span, .. } => span,
            ExprView::BooleanLiteralExpr { span, .. } => span,
            ExprView::NullLiteralExpr { span } => span,
            ExprView::SelfExpr { span } => span,
            ExprView::VariableExpr { span, .. } => span,
            ExprView::PathExpr { span, .. } => span,
            ExprView::GetExpr { span, .. } => span,
            ExprView::SetExpr { span, .. } => span,
            ExprView::AssignmentExpr { span, .. } => span,
            ExprView::CallExpr { span, .. } => span,
            ExprView::LogicalExpr { span, .. } => span,
            ExprView::BinaryExpr { span, .. } => span,
            ExprView::UnaryExpr { span, .. } => span,
            ExprView::GroupingExpr { span, .. } => span,
        }
    }
}

/// A copy of a list of names.
fn clone_names(names: &Vec<String>) -> (copy: Vec<String>)
    ensures
        copy@ == names@,
{
    let mut copy: Vec<String> = Vec::new();
    let mut i: usize = 0;
    while i < names.len()
        invariant
            i <= names.len(),
            copy@ == names@.subrange(0, i as int),
        decreases names.len() - i,
    {
        copy.push(names[i].clone());
        i += 1;
        assert(copy@ =~= names@.subrange(0, i as int));
    }
    assert(names@.subrange(0, names.len() as int) =~= names@);
    copy
}

impl Clone for Expr {
    fn clone(&self) -> (copy: Expr)
        ensures
            copy@ == self@,
        decreases self,
    {
        match self {
            Expr::StringLiteralExpr { value, span } => Expr::StringLiteralExpr {
                value: value.clone(),
                span: span.clone(),
            },
            Expr::IntegerLiteralExpr { value, span } => Expr::IntegerLiteralExpr {
                value: *value,
                span: span.clone(),
            },
            Expr::FloatLiteralExpr { value, span } => Expr::FloatLiteralExpr {
                value: value.clone(),
                span: span.clone(),
            },
            Expr::BooleanLiteralExpr { value, span } => Expr::BooleanLiteralExpr {
                value: *value,
                span: span.clone(),
            },
            Expr::NullLiteralExpr { span } => Expr::NullLiteralExpr { span: span.clone() },
            Expr::SelfExpr { span } => Expr::SelfExpr { span: span.clone() },
            Expr::VariableExpr { name, span } => Expr::VariableExpr {
                name: name.clone(),
                span: span.clone(),
            },
            Expr::PathExpr { path, span } => Expr::PathExpr {
                path: clone_names(path),
                span: span.clone(),
            },
            Expr::GetExpr { object, name, span } => Expr::GetExpr {
                object: Box::new((**object).clone()),
                name: name.clone(),
                span: span.clone(),
            },
            Expr::SetExpr { object, name, value, span } => Expr::SetExpr {
                object: Box::new((**object).clone()),
                name: name.clone(),
                value: Box::new((**value).clone()),
                span: span.clone(),
            },
            Expr::AssignmentExpr { name, value, span } => Expr::AssignmentExpr {
                name: name.clone(),
                value: Box::new((**value).clone()),
                span: span.clone(),
            },
            Expr::CallExpr { name, args, span } => {
                let mut copies: Vec<Box<Expr>> = Vec::new();
                let mut i: usize = 0;
                while i < args.len()
                    invariant
                        i <= args.len(),
                        self == (Expr::CallExpr { name: *name, args: *args, span: *span }),
                        expr_views(copies@) == expr_views(args@.subrange(0, i as int)),
                    decreases args.len() - i,
                {
                    proof {
                        vstd::std_specs::vec::axiom_vec_index_decreases(*args, i as int);
                        assert(decreases_to!(*self => self->args));
                        assert(decreases_to!(self->args => args[i as int]));
                    }
                    let copy = Box::new((*args[i]).clone());
                    proof {
                        lemma_expr_views_push(copies@, copy);
                        lemma_expr_views_push(args@.subrange(0, i as int), args@[i as int]);
                        assert(args@.subrange(0, i as int).push(args@[i as int]) =~= args@.subrange(
                            0,
                            i + 1,
                        ));
                    }
                    copies.push(copy);
                    i += 1;
                }
                assert(args@.subrange(0, args.len() as int) =~= args@);
                Expr::CallExpr {
                    name: Box::new((**name).clone()),
                    args: copies,
                    span: span.clone(),
                }
            },
            Expr::LogicalExpr { lhs, op, rhs, span } => Expr::LogicalExpr {
                lhs: Box::new((**lhs).clone()),
                op: *op,
                rhs: Box::new((**rhs).clone()),
                span: span.clone(),
            },
            Expr::BinaryExpr { lhs, op, rhs, span } => Expr::BinaryExpr {
                lhs: Box::new((**lhs).clone()),
                op: *op,
                rhs: Box::new((**rhs).clone()),
                span: span.clone(),
            },
            Expr::UnaryExpr { op, rhs, span } => Expr::UnaryExpr {
                op: *op,
                rhs: Box::new((**rhs).clone()),
                span: span.clone(),
            },
            Expr::GroupingExpr { expr, span } => Expr::GroupingExpr {
                expr: Box::new((**expr).clone()),
                span: span.clone(),
            },
        }
    }
}

impl Expr {
    /// The span of the node.
    pub fn span(&self) -> (span: &Span)
        ensures
            span@ == self@.span(),
    {
        match self {
            Expr::StringLiteralExpr { span, .. } => span,
            Expr::IntegerLiteralExpr { span, .. } => span,
            Expr::FloatLiteralExpr { span, .. } => span,
            Expr::BooleanLiteralExpr { span, .. } => span,
            Expr::NullLiteralExpr { span } => span,
            Expr::SelfExpr { span } => span,
            Expr::VariableExpr { span, .. } => span,
            Expr::PathExpr { span, .. } => span,
            Expr::GetExpr { span, .. } => span,
            Expr::SetExpr { span, .. } => span,
            Expr::AssignmentExpr { span, .. } => span,
            Expr::CallExpr { span, .. } => span,
            Expr::LogicalExpr { span, .. } => span,
            Expr::BinaryExpr { span, .. } => span,
            Expr::UnaryExpr { span, .. } => span,
            Expr::GroupingExpr { span, .. } => span,
        }
    }
}

} // verus!
