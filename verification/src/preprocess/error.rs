//! Errors of the preprocessing phases. Each carries a character offset: in
//! the text the phase was given for the comment and literal errors, within
//! the line for the macro errors, and of the directive's line for the
//! directive errors.
use vstd::prelude::*;

verus! {

#[derive(Debug, Clone, Copy, PartialEq, Eq, Structural)]
pub enum PreprocessError {
    /// a `/*` comment without its `*/`
    UnterminatedComment(usize),
    /// a string or character literal without its closing quote on the same line
    UnterminatedLiteral(usize),
    /// a function-like macro whose name is not followed by `(`
    MacroCallExpected(usize),
    /// the arguments of a function-like macro run past the end of the line
    UnexpectedEnd(usize),
    /// a call with a number of arguments its macro does not take
    ArgumentCountMismatch(usize),
    /// `#__VA_ARGS__` in a macro that is not variadic
    VaArgsNotAllowed(usize),
    /// `#` before a name that is not a parameter
    UnknownParameter(usize),
    /// a `#pragma` directive
    UnsupportedPragma(usize),
    /// a `#line` directive
    UnsupportedLineDirective(usize),
    /// a directive this preprocessor does not know, or one that is malformed
    InvalidDirective(usize),
    /// `#elif`, `#else` or `#endif` without its `#if`, or an `#if` without its `#endif`
    UnbalancedConditional(usize),
    /// an `#include` of a header that was not supplied
    MissingHeader(usize),
    /// headers that include each other too deeply
    IncludeTooDeep(usize),
    /// a line whose macros keep expanding
    ExpansionTooDeep(usize),
}

impl PreprocessError {
    /// A one-line description of the error.
    pub fn message(&self) -> (s: String)
        ensures
            s@ == self.message_spec(),
    {
        match self {
            PreprocessError::UnterminatedComment(_) => String::from_str("unterminated comment"),
            PreprocessError::UnterminatedLiteral(_) => String::from_str("unterminated literal"),
            PreprocessError::MacroCallExpected(_) => String::from_str("expected macro function call"),
            PreprocessError::UnexpectedEnd(_) => String::from_str("unexpected end of file"),
            PreprocessError::ArgumentCountMismatch(_) => String::from_str("number of arguments mismatch"),
            PreprocessError::VaArgsNotAllowed(_) => String::from_str("__VA_ARGS__ is not allowed in this macro"),
            PreprocessError::UnknownParameter(_) => String::from_str("unknown parameter"),
            PreprocessError::UnsupportedPragma(_) => String::from_str("unsupported pragma macro"),
            PreprocessError::UnsupportedLineDirective(_) => String::from_str("unsupported line directive"),
            PreprocessError::InvalidDirective(_) => String::from_str("invalid preprocessing directive"),
            PreprocessError::UnbalancedConditional(_) => String::from_str("unbalanced conditional directive"),
            PreprocessError::MissingHeader(_) => String::from_str("couldn't find such a header file"),
            PreprocessError::IncludeTooDeep(_) => String::from_str("headers nested too deeply"),
            PreprocessError::ExpansionTooDeep(_) => String::from_str("macro expansion does not end"),
        }
    }

    pub open spec fn message_spec(&self) -> Seq<char> {
        match self {
            PreprocessError::UnterminatedComment(_) => "unterminated comment"@,
            PreprocessError::UnterminatedLiteral(_) => "unterminated literal"@,
            PreprocessError::MacroCallExpected(_) => "expected macro function call"@,
            PreprocessError::UnexpectedEnd(_) => "unexpected end of file"@,
            PreprocessError::ArgumentCountMismatch(_) => "number of arguments mismatch"@,
            PreprocessError::VaArgsNotAllowed(_) => "__VA_ARGS__ is not allowed in this macro"@,
            PreprocessError::UnknownParameter(_) => "unknown parameter"@,
            PreprocessError::UnsupportedPragma(_) => "unsupported pragma macro"@,
            PreprocessError::UnsupportedLineDirective(_) => "unsupported line directive"@,
            PreprocessError::InvalidDirective(_) => "invalid preprocessing directive"@,
            PreprocessError::UnbalancedConditional(_) => "unbalanced conditional directive"@,
            PreprocessError::MissingHeader(_) => "couldn't find such a header file"@,
            PreprocessError::IncludeTooDeep(_) => "headers nested too deeply"@,
            PreprocessError::ExpansionTooDeep(_) => "macro expansion does not end"@,
        }
    }

    /// The character offset the error carries.
    pub fn offset(&self) -> (o: usize)
        ensures
            o == self.offset_spec(),
    {
        match self {
            PreprocessError::UnterminatedComment(o) | PreprocessError::UnterminatedLiteral(o)
            | PreprocessError::MacroCallExpected(o) | PreprocessError::UnexpectedEnd(o)
            | PreprocessError::ArgumentCountMismatch(o) | PreprocessError::VaArgsNotAllowed(o)
            | PreprocessError::UnknownParameter(o) | PreprocessError::UnsupportedPragma(o)
            | PreprocessError::UnsupportedLineDirective(o) | PreprocessError::InvalidDirective(o)
            | PreprocessError::UnbalancedConditional(o) | PreprocessError::MissingHeader(o)
            | PreprocessError::IncludeTooDeep(o) | PreprocessError::ExpansionTooDeep(o) => *o,
        }
    }

    pub open spec fn offset_spec(&self) -> usize {
        match self {
            PreprocessError::UnterminatedComment(o) | PreprocessError::UnterminatedLiteral(o)
            | PreprocessError::MacroCallExpected(o) | PreprocessError::UnexpectedEnd(o)
            | PreprocessError::ArgumentCountMismatch(o) | PreprocessError::VaArgsNotAllowed(o)
            | PreprocessError::UnknownParameter(o) | PreprocessError::UnsupportedPragma(o)
            | PreprocessError::UnsupportedLineDirective(o) | PreprocessError::InvalidDirective(o)
            | PreprocessError::UnbalancedConditional(o) | PreprocessError::MissingHeader(o)
            | PreprocessError::IncludeTooDeep(o) | PreprocessError::ExpansionTooDeep(o) => *o,
        }
    }
}

} // verus!
