pub mod copy;
pub mod equality;
pub mod operations;
pub mod span;
pub mod tree;
pub mod typedefs;
pub mod typing;
pub mod types;

pub use operations::{
    AssignOperation, AssignOperationEnum, BinaryOperation, BinaryOperationEnum, UnaryOperation,
    UnaryOperationEnum,
};
pub use span::Span;
pub use tree::{
    Declaration, DeclarationEnum, Expression, ExpressionEnum, ForInitClause, ForInitClauseEnum,
    Statement, StatementEnum, StatementOrDeclaration, StatementOrDeclarationEnum, AST,
};
pub use types::{
    BaseType, BasicType, FunctionSpecifier, IntegerType, StorageClassSpecifier, StructMember,
    Type, TypeQualifier,
};
