//! Operators of assignment, unary and binary expressions.
use vstd::prelude::*;

use super::span::Span;

verus! {

/// An assignment operator together with the source range it occupies.
#[derive(Debug, Clone, Copy, PartialEq, Eq, Structural)]
pub struct AssignOperation {
    pub node: AssignOperationEnum,
    pub span: Span,
}

/// The assignment operators `=`, `+=`, `-=`, `*=`, `/=`, `%=`, `&=`, `|=`, `^=`, `<<=`, `>>=`.
#[derive(Debug, Clone, Copy, PartialEq, Eq, Structural)]
pub enum AssignOperationEnum {
    Naive,
    Addition,
    Subtraction,
    Multiplication,
    Division,
    Modulo,
    BitwiseAnd,
    BitwiseOr,
    BitwiseXor,
    LeftShift,
    RightShift,
}

/// A unary operator together with the source range it occupies.
#[derive(Debug, Clone, Copy, PartialEq, Eq, Structural)]
pub struct UnaryOperation {
    pub node: UnaryOperationEnum,
    pub span: Span,
}

/// The unary operators.
#[derive(Debug, Clone, Copy, PartialEq, Eq, Structural)]
pub enum UnaryOperationEnum {
    PrefixIncrement,
    PrefixDecrement,
    PostfixIncrement,
    PostfixDecrement,
    UnaryPlus,
    UnaryMinus,
    BitwiseNot,
    LogicalNot,
    Reference,
    Dereference,
    SizeofExpr,
}

/// A binary operator together with the source range it occupies.
#[derive(Debug, Clone, Copy, PartialEq, Eq, Structural)]
pub struct BinaryOperation {
    pub node: BinaryOperationEnum,
    pub span: Span,
}

/// The binary operators.
#[derive(Debug, Clone, Copy, PartialEq, Eq, Structural)]
pub enum BinaryOperationEnum {
    Addition,
    Subtraction,
    Multiplication,
    Division,
    Modulo,
    BitwiseAnd,
    BitwiseOr,
    BitwiseXor,
    LeftShift,
    RightShift,
    LogicalAnd,
    LogicalOr,
    Equal,
    NotEqual,
    LessThan,
    LessThanOrEqual,
    GreaterThan,
    GreaterThanOrEqual,
    Comma,
}

impl Default for AssignOperation {
    /// Plain assignment `=` at the empty span.
    fn default() -> (op: Self)
        ensures
            op.node == AssignOperationEnum::Naive,
            op.span == Span::empty_spec(),
    {
        AssignOperation { node: AssignOperationEnum::Naive, span: Span::empty() }
    }
}

impl Default for UnaryOperation {
    /// Prefix increment at the empty span.
    fn default() -> (op: Self)
        ensures
            op.node == UnaryOperationEnum::PrefixIncrement,
            op.span == Span::empty_spec(),
    {
        UnaryOperation { node: UnaryOperationEnum::PrefixIncrement, span: Span::empty() }
    }
}

impl Default for BinaryOperation {
    /// The comma operator at the empty span.
    fn default() -> (op: Self)
        ensures
            op.node == BinaryOperationEnum::Comma,
            op.span == Span::empty_spec(),
    {
        BinaryOperation { node: BinaryOperationEnum::Comma, span: Span::empty() }
    }
}

} // verus!
