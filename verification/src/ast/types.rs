//! C types as they appear in declarations.
use vstd::prelude::*;

use super::tree::Expression;

verus! {

/// The full type of a declaration: function specifiers, storage class and the
/// qualified type.
#[derive(Debug, PartialEq)]
pub struct Type {
    pub function_specifier: Vec<FunctionSpecifier>,
    pub storage_class_specifier: StorageClassSpecifier,
    pub basic_type: BasicType,
}

#[derive(Debug, Clone, Copy, PartialEq, Eq, Structural)]
pub enum StorageClassSpecifier {
    Typedef,
    Extern,
    Static,
    ThreadLocal,
    Auto,
    Register,
}

#[derive(Debug, Clone, Copy, PartialEq, Eq, Structural)]
pub enum TypeQualifier {
    Const,
    Volatile,
    Restrict,
    Atomic,
}

#[derive(Debug, Clone, Copy, PartialEq, Eq, Structural)]
pub enum FunctionSpecifier {
    Inline,
    Noreturn,
}

/// A type with its qualifiers.
#[derive(Debug, PartialEq)]
pub struct BasicType {
    pub qualifier: Vec<TypeQualifier>,
    pub base_type: BaseType,
}

/// An unqualified type.
#[derive(Debug, PartialEq)]
pub enum BaseType {
    Void,
    SignedInteger(IntegerType),
    UnsignedInteger(IntegerType),
    Bool,
    Float,
    Double,
    Pointer(Box<BasicType>),
    /// element type, lengths from the outermost dimension inwards
    Array(Box<BasicType>, Vec<Expression>),
    /// return type, parameter types, whether it is variadic
    Function(Box<BasicType>, Vec<BasicType>, bool),
    /// name, members (absent when only named)
    Struct(Option<String>, Option<Vec<StructMember>>),
    Union(Option<String>, Option<Vec<StructMember>>),
    /// a name introduced by `typedef`
    Identifier(String),
}

#[derive(Debug, Clone, Copy, PartialEq, Eq, Structural)]
pub enum IntegerType {
    Short,
    Char,
    Int,
    Long,
    LongLong,
}

/// A member of a struct or union.
#[derive(Debug, PartialEq)]
pub struct StructMember {
    pub member_name: String,
    pub member_type: BasicType,
}

impl Default for StorageClassSpecifier {
    /// `auto`.
    fn default() -> (s: Self)
        ensures
            s == StorageClassSpecifier::Auto,
    {
        StorageClassSpecifier::Auto
    }
}

impl Default for BaseType {
    /// `int`, the type a declaration has when no type specifier is given.
    fn default() -> (t: BaseType)
        ensures
            t == BaseType::SignedInteger(IntegerType::Int),
    {
        BaseType::SignedInteger(IntegerType::Int)
    }
}

impl Default for BasicType {
    /// Unqualified `int`.
    fn default() -> (t: BasicType)
        ensures
            t.qualifier@.len() == 0,
            t.base_type == BaseType::SignedInteger(IntegerType::Int),
    {
        BasicType { qualifier: Vec::new(), base_type: BaseType::default() }
    }
}

impl BasicType {

    /// Whether `const` is among the qualifiers.
    pub fn is_const(&self) -> (b: bool)
        ensures
            b == self.qualifier@.contains(TypeQualifier::Const),
    {
        let mut i: usize = 0;
        while i < self.qualifier.len()
            invariant
                i <= self.qualifier@.len(),
                forall|j: int| 0 <= j < i ==> self.qualifier@[j] != TypeQualifier::Const,
            decreases self.qualifier@.len() - i,
        {
            if self.qualifier[i] == TypeQualifier::Const {
                return true;
            }
            i = i + 1;
        }
        false
    }
}

impl Default for Type {
    /// No function specifier, storage class `auto`, unqualified `int`.
    fn default() -> (t: Type)
        ensures
            t.function_specifier@.len() == 0,
            t.storage_class_specifier == StorageClassSpecifier::Auto,
            t.basic_type.qualifier@.len() == 0,
            t.basic_type.base_type == BaseType::SignedInteger(IntegerType::Int),
    {
        Type {
            function_specifier: Vec::new(),
            storage_class_specifier: StorageClassSpecifier::Auto,
            basic_type: BasicType::default(),
        }
    }
}

} // verus!
