//! Errors of lexing and parsing, each at a character offset of the source.
use vstd::prelude::*;

use super::lexer::LexError;

verus! {

#[derive(Debug, Clone, Copy, PartialEq, Eq, Structural)]
pub enum ParseError {
    /// the text could not be split into tokens
    Lex(LexError),
    /// a token that no rule of the grammar accepts here
    UnexpectedToken(usize),
    /// the tokens ended in the middle of a construct
    UnexpectedEnd,
    /// an integer constant too large for its type
    IntegerOverflow(usize),
    /// a malformed integer or floating constant
    InvalidConstant(usize),
    /// an escape sequence this front end does not support
    UnsupportedEscape(usize),
    /// a hexadecimal floating constant, which this front end does not support
    UnsupportedFloat(usize),
    /// more than one storage class in one declaration
    MultipleStorageClasses(usize),
    /// a combination of type specifiers that names no type
    InvalidTypeSpecifier(usize),
    /// the type of a cast or `sizeof` with a storage class
    StorageClassInTypeName(usize),
    /// a struct member without a name, or with an initializer
    InvalidStructMember(usize),
}

} // verus!
