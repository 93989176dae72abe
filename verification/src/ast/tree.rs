//! The abstract syntax tree produced by the parser.
use vstd::prelude::*;

use super::operations::{AssignOperation, BinaryOperation, UnaryOperation};
use super::span::Span;
use super::types::{BasicType, FunctionSpecifier, StorageClassSpecifier, Type};

verus! {

/// A translation unit: the global declarations in source order.
#[derive(Debug, PartialEq)]
pub enum AST {
    GlobalDeclaration(Vec<Declaration>),
}

/// A declaration with the source range it was built from.
#[derive(Debug, PartialEq)]
pub struct Declaration {
    pub node: DeclarationEnum,
    pub span: Span,
}

/// A declaration of one name, or a function definition.
#[derive(Debug, PartialEq)]
pub enum DeclarationEnum {
    /// type, identifier (absent for a bare struct/union declaration), initializer
    Declaration(Type, Option<String>, Option<Box<Expression>>),
    /// function specifiers, storage class, return type, name, parameters with
    /// their names, whether it is variadic, body
    FunctionDefinition(
        Vec<FunctionSpecifier>,
        StorageClassSpecifier,
        Box<BasicType>,
        String,
        Vec<(BasicType, Option<String>)>,
        bool,
        Statement,
    ),
}

/// A statement with its source range.
#[derive(Debug, PartialEq)]
pub struct Statement {
    pub node: StatementEnum,
    pub span: Span,
}

/// The statements of C.
#[derive(Debug, PartialEq)]
pub enum StatementEnum {
    Labeled(String, Box<Statement>),
    /// `case expr:` (or `default:` when the expression is absent)
    Case(Option<Box<Expression>>, Box<Statement>),
    Compound(Vec<StatementOrDeclaration>),
    Expression(Box<Expression>),
    /// condition, then-branch, optional else-branch
    If(Box<Expression>, Box<Statement>, Option<Box<Statement>>),
    Switch(Box<Expression>, Box<Statement>),
    While(Box<Expression>, Box<Statement>),
    DoWhile(Box<Statement>, Box<Expression>),
    /// init clause, condition, iteration expression, body
    For(
        Option<Box<ForInitClause>>,
        Option<Box<Expression>>,
        Option<Box<Expression>>,
        Box<Statement>,
    ),
    Break,
    Continue,
    Return(Option<Box<Expression>>),
    Goto(String),
}

/// An expression with its source range.
#[derive(Debug, PartialEq)]
pub struct Expression {
    pub node: ExpressionEnum,
    pub span: Span,
}

/// The expressions of C. Floating constants keep the digits of their literal
/// (without suffix); their numeric value is computed where floating point is
/// available.
#[derive(Debug, PartialEq)]
pub enum ExpressionEnum {
    Assignment(AssignOperation, Box<Expression>, Box<Expression>),
    Unary(UnaryOperation, Box<Expression>),
    Binary(BinaryOperation, Box<Expression>, Box<Expression>),
    /// callee, arguments
    FunctionCall(Box<Expression>, Vec<Expression>),
    TypeCast(BasicType, Box<Expression>),
    /// condition, true expression, false expression
    Conditional(Box<Expression>, Box<Expression>, Box<Expression>),
    SizeofType(BasicType),
    MemberOfObject(Box<Expression>, String),
    MemberOfPointer(Box<Expression>, String),
    /// array, subscripts from the outermost dimension inwards
    ArraySubscript(Box<Expression>, Vec<Expression>),
    Identifier(String),
    IntegerConstant(i32),
    UnsignedIntegerConstant(u32),
    LongConstant(i64),
    UnsignedLongConstant(u64),
    LongLongConstant(i64),
    UnsignedLongLongConstant(u64),
    CharacterConstant(char),
    FloatConstant(String),
    DoubleConstant(String),
    StringLiteral(String),
    Empty,
}

/// The first clause of a `for` statement.
#[derive(Debug, PartialEq)]
pub struct ForInitClause {
    pub node: ForInitClauseEnum,
    pub span: Span,
}

/// An expression or a list of declarations.
#[derive(Debug, PartialEq)]
pub enum ForInitClauseEnum {
    Expression(Expression),
    ForDeclaration(Vec<Declaration>),
}

/// One element of a compound statement.
#[derive(Debug, PartialEq)]
pub struct StatementOrDeclaration {
    pub node: StatementOrDeclarationEnum,
    pub span: Span,
}

/// A statement or a local declaration.
#[derive(Debug, PartialEq)]
pub enum StatementOrDeclarationEnum {
    Statement(Statement),
    LocalDeclaration(Declaration),
}

impl Default for Expression {
    /// The empty expression at the empty span.
    fn default() -> (e: Expression)
        ensures
            e.node is Empty,
            e.span == Span::empty_spec(),
    {
        Expression { node: ExpressionEnum::Empty, span: Span::empty() }
    }
}

impl Default for Statement {
    /// An expression statement holding the empty expression, at the empty span.
    fn default() -> (s: Statement)
        ensures
            s.node matches StatementEnum::Expression(e) && e.node is Empty && e.span
                == Span::empty_spec(),
            s.span == Span::empty_spec(),
    {
        Statement {
            node: StatementEnum::Expression(Box::new(Expression::default())),
            span: Span::empty(),
        }
    }
}

} // verus!
