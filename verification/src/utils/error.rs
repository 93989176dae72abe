//! Diagnostics raised while checking and lowering a program.
use vstd::prelude::*;

use crate::ast::Span;
use crate::text::{decimal, usize_to_decimal};

verus! {

/// A diagnostic: an error code, a one-line message, a label for the source
/// range it points at, that range, and optional notes.
#[derive(Debug)]
pub struct CompileErr {
    pub code: String,
    pub message: String,
    pub label: String,
    pub span: Span,
    pub notes: Option<String>,
}

/// Whether `e` is the diagnostic built by `CompileErr::plain_error`.
pub open spec fn is_plain_error(e: CompileErr, message: Seq<char>, span: Span) -> bool {
    &&& e.code@ == "E000"@
    &&& e.message@ == message
    &&& e.label@ == "error here"@
    &&& e.span == span
    &&& e.notes is None
}

/// Whether `e` is the diagnostic built by `CompileErr::duplicated_global_variable`.
pub open spec fn is_duplicated_global_variable(e: CompileErr, name: Seq<char>, span: Span) -> bool {
    &&& e.code@ == "E001"@
    &&& e.message@ == "duplicated global variable `"@ + name + "`"@
    &&& e.label@ == "global variable duplicated here"@
    &&& e.span == span
    &&& e.notes is None
}

/// Whether `e` is the diagnostic built by `CompileErr::duplicated_symbol`.
pub open spec fn is_duplicated_symbol(e: CompileErr, name: Seq<char>, span: Span) -> bool {
    &&& e.code@ == "E002"@
    &&& e.message@ == "duplicated symbol `"@ + name + "`"@
    &&& e.label@ == "symbol duplicated here"@
    &&& e.span == span
    &&& e.notes is None
}

/// Whether `e` is the diagnostic built by `CompileErr::unknown_expression`.
pub open spec fn is_unknown_expression(e: CompileErr, span: Span) -> bool {
    &&& e.code@ == "E003"@
    &&& e.message@ == "unknown expression"@
    &&& e.label@ == "unknown expression here"@
    &&& e.span == span
    &&& e.notes is None
}

/// Whether `e` is the diagnostic built by `CompileErr::invalid_default_cast`.
pub open spec fn is_invalid_default_cast(e: CompileErr, from: Seq<char>, to: Seq<char>, span: Span) -> bool {
    &&& e.code@ == "E004"@
    &&& e.message@ == "invalid default cast"@
    &&& e.label@ == "type invalid here, which cannot be cast into `"@ + to + "`"@
    &&& e.span == span
    &&& e.notes matches Some(n) && n@ == "invalid default cast from `"@ + from + "` to `"@ + to + "`"@
}

/// Whether `e` is the diagnostic built by `CompileErr::invalid_cast`.
pub open spec fn is_invalid_cast(e: CompileErr, from: Seq<char>, to: Seq<char>, span: Span) -> bool {
    &&& e.code@ == "E005"@
    &&& e.message@ == "invalid cast"@
    &&& e.label@ == "invalid cast here"@
    &&& e.span == span
    &&& e.notes matches Some(n) && n@ == "invalid cast from `"@ + from + "` to `"@ + to + "`"@
}

/// Whether `e` is the diagnostic built by `CompileErr::invalid_unary`.
pub open spec fn is_invalid_unary(e: CompileErr, span: Span) -> bool {
    &&& e.code@ == "E006"@
    &&& e.message@ == "invalid unary operator"@
    &&& e.label@ == "invalid unary operator here"@
    &&& e.span == span
    &&& e.notes is None
}

/// Whether `e` is the diagnostic built by `CompileErr::invalid_binary`.
pub open spec fn is_invalid_binary(e: CompileErr, span: Span) -> bool {
    &&& e.code@ == "E007"@
    &&& e.message@ == "invalid binary operator"@
    &&& e.label@ == "invalid binary operator here"@
    &&& e.span == span
    &&& e.notes is None
}

/// Whether `e` is the diagnostic built by `CompileErr::duplicated_function`.
pub open spec fn is_duplicated_function(e: CompileErr, name: Seq<char>, span: Span) -> bool {
    &&& e.code@ == "E008"@
    &&& e.message@ == "duplicated function `"@ + name + "`"@
    &&& e.label@ == "function duplicated here"@
    &&& e.span == span
    &&& e.notes is None
}

/// Whether `e` is the diagnostic built by `CompileErr::redefinition_symbol`.
pub open spec fn is_redefinition_symbol(e: CompileErr, name: Seq<char>, span: Span) -> bool {
    &&& e.code@ == "E009"@
    &&& e.message@ == "redefinition of symbol `"@ + name + "`"@
    &&& e.label@ == "symbol redefined here"@
    &&& e.span == span
    &&& e.notes is None
}

/// Whether `e` is the diagnostic built by `CompileErr::missing_variable`.
pub open spec fn is_missing_variable(e: CompileErr, name: Seq<char>, span: Span) -> bool {
    &&& e.code@ == "E010"@
    &&& e.message@ == "missing variable `"@ + name + "`"@
    &&& e.label@ == "variable missing here"@
    &&& e.span == span
    &&& e.notes is None
}

/// Whether `e` is the diagnostic built by `CompileErr::duplicated_variable`.
pub open spec fn is_duplicated_variable(e: CompileErr, name: Seq<char>, span: Span) -> bool {
    &&& e.code@ == "E011"@
    &&& e.message@ == "duplicated variable `"@ + name + "`"@
    &&& e.label@ == "variable duplicated here"@
    &&& e.span == span
    &&& e.notes is None
}

/// Whether `e` is the diagnostic built by `CompileErr::keyword_not_in_a_loop`.
pub open spec fn is_keyword_not_in_a_loop(e: CompileErr, keyword: Seq<char>, span: Span) -> bool {
    &&& e.code@ == "E012"@
    &&& e.message@ == "keyword `"@ + keyword + "` is not in a loop"@
    &&& e.label@ == "keyword here, which is not in a loop"@
    &&& e.span == span
    &&& e.notes is None
}

/// Whether `e` is the diagnostic built by `CompileErr::array_dimension_mismatch`.
pub open spec fn is_array_dimension_mismatch(e: CompileErr, expect: nat, found: nat, span: Span) -> bool {
    &&& e.code@ == "E013"@
    &&& e.message@ == "array dimension mismatch"@
    &&& e.label@ == "this array subscript is invalid"@
    &&& e.span == span
    &&& e.notes matches Some(n) && n@ == "array has `"@ + decimal(expect) + "` dimension, but found `"@ + decimal(found) + "` subscript"@
}

/// Whether `e` is the diagnostic built by `CompileErr::pointer_dimension_mismatch`.
pub open spec fn is_pointer_dimension_mismatch(e: CompileErr, expect: nat, found: nat, span: Span) -> bool {
    &&& e.code@ == "E014"@
    &&& e.message@ == "pointer dimension mismatch"@
    &&& e.label@ == "pointer dimension mismatch here"@
    &&& e.span == span
    &&& e.notes matches Some(n) && n@ == "pointer dimension mismatch, expect "@ + decimal(expect) + ", found "@ + decimal(found)
}

/// Whether `e` is the diagnostic built by `CompileErr::invalid_left_value`.
pub open spec fn is_invalid_left_value(e: CompileErr, name: Seq<char>, span: Span) -> bool {
    &&& e.code@ == "E015"@
    &&& e.message@ == "invalid left value for a not addressable variable `"@ + name + "`"@
    &&& e.label@ == "invalid left value here"@
    &&& e.span == span
    &&& e.notes is None
}

/// Whether `e` is the diagnostic built by `CompileErr::invalid_dereference`.
pub open spec fn is_invalid_dereference(e: CompileErr, name: Seq<char>, span: Span) -> bool {
    &&& e.code@ == "E016"@
    &&& e.message@ == "invalid dereference for a no pointer variable `"@ + name + "`"@
    &&& e.label@ == "invalid dereference here"@
    &&& e.span == span
    &&& e.notes is None
}

/// Whether `e` is the diagnostic built by `CompileErr::parameter_count_mismatch`.
pub open spec fn is_parameter_count_mismatch(e: CompileErr, name: Seq<char>, expect: nat, found: nat, span: Span) -> bool {
    &&& e.code@ == "E017"@
    &&& e.message@ == "parameter count mismatch"@
    &&& e.label@ == "function call here"@
    &&& e.span == span
    &&& e.notes matches Some(n) && n@ == "parameter count of function `"@ + name + "` is incorrect, expect "@ + decimal(expect) + ", found "@ + decimal(found)
}

impl CompileErr {
    /// An error with the given message and no further details.
    pub fn plain_error(message: String, span: Span) -> (e: CompileErr)
        ensures
            is_plain_error(e, message@, span),
    {
        let message = message;
        let mut label = String::from_str("error here");
        CompileErr { code: String::from_str("E000"), message, label, span, notes: None }
    }

    /// A global variable is declared twice.
    pub fn duplicated_global_variable(name: String, span: Span) -> (e: CompileErr)
        ensures
            is_duplicated_global_variable(e, name@, span),
    {
        let mut message = String::from_str("duplicated global variable `");
        message.append(name.as_str());
        message.append("`");
        let mut label = String::from_str("global variable duplicated here");
        CompileErr { code: String::from_str("E001"), message, label, span, notes: None }
    }

    /// A global variable takes a name already used by a function.
    pub fn duplicated_symbol(name: String, span: Span) -> (e: CompileErr)
        ensures
            is_duplicated_symbol(e, name@, span),
    {
        let mut message = String::from_str("duplicated symbol `");
        message.append(name.as_str());
        message.append("`");
        let mut label = String::from_str("symbol duplicated here");
        CompileErr { code: String::from_str("E002"), message, label, span, notes: None }
    }

    /// An expression that code generation does not handle.
    pub fn unknown_expression(span: Span) -> (e: CompileErr)
        ensures
            is_unknown_expression(e, span),
    {
        let mut message = String::from_str("unknown expression");
        let mut label = String::from_str("unknown expression here");
        CompileErr { code: String::from_str("E003"), message, label, span, notes: None }
    }

    /// A value whose type cannot be converted implicitly to the expected type.
    pub fn invalid_default_cast(from: String, to: String, span: Span) -> (e: CompileErr)
        ensures
            is_invalid_default_cast(e, from@, to@, span),
    {
        let mut message = String::from_str("invalid default cast");
        let mut label = String::from_str("type invalid here, which cannot be cast into `");
        label.append(to.as_str());
        label.append("`");
        let mut note = String::from_str("invalid default cast from `");
        note.append(from.as_str());
        note.append("` to `");
        note.append(to.as_str());
        note.append("`");
        CompileErr { code: String::from_str("E004"), message, label, span, notes: Some(note) }
    }

    /// A conversion between two types that has no machine instruction.
    pub fn invalid_cast(from: String, to: String, span: Span) -> (e: CompileErr)
        ensures
            is_invalid_cast(e, from@, to@, span),
    {
        let mut message = String::from_str("invalid cast");
        let mut label = String::from_str("invalid cast here");
        let mut note = String::from_str("invalid cast from `");
        note.append(from.as_str());
        note.append("` to `");
        note.append(to.as_str());
        note.append("`");
        CompileErr { code: String::from_str("E005"), message, label, span, notes: Some(note) }
    }

    /// A unary operator applied to an operand of the wrong type.
    pub fn invalid_unary(span: Span) -> (e: CompileErr)
        ensures
            is_invalid_unary(e, span),
    {
        let mut message = String::from_str("invalid unary operator");
        let mut label = String::from_str("invalid unary operator here");
        CompileErr { code: String::from_str("E006"), message, label, span, notes: None }
    }

    /// A binary operator applied to operands of the wrong type.
    pub fn invalid_binary(span: Span) -> (e: CompileErr)
        ensures
            is_invalid_binary(e, span),
    {
        let mut message = String::from_str("invalid binary operator");
        let mut label = String::from_str("invalid binary operator here");
        CompileErr { code: String::from_str("E007"), message, label, span, notes: None }
    }

    /// A function declared twice.
    pub fn duplicated_function(name: String, span: Span) -> (e: CompileErr)
        ensures
            is_duplicated_function(e, name@, span),
    {
        let mut message = String::from_str("duplicated function `");
        message.append(name.as_str());
        message.append("`");
        let mut label = String::from_str("function duplicated here");
        CompileErr { code: String::from_str("E008"), message, label, span, notes: None }
    }

    /// A function takes a name already used by a global variable.
    pub fn redefinition_symbol(name: String, span: Span) -> (e: CompileErr)
        ensures
            is_redefinition_symbol(e, name@, span),
    {
        let mut message = String::from_str("redefinition of symbol `");
        message.append(name.as_str());
        message.append("`");
        let mut label = String::from_str("symbol redefined here");
        CompileErr { code: String::from_str("E009"), message, label, span, notes: None }
    }

    /// A use of a name that no scope declares.
    pub fn missing_variable(name: String, span: Span) -> (e: CompileErr)
        ensures
            is_missing_variable(e, name@, span),
    {
        let mut message = String::from_str("missing variable `");
        message.append(name.as_str());
        message.append("`");
        let mut label = String::from_str("variable missing here");
        CompileErr { code: String::from_str("E010"), message, label, span, notes: None }
    }

    /// A local variable declared twice in one scope.
    pub fn duplicated_variable(name: String, span: Span) -> (e: CompileErr)
        ensures
            is_duplicated_variable(e, name@, span),
    {
        let mut message = String::from_str("duplicated variable `");
        message.append(name.as_str());
        message.append("`");
        let mut label = String::from_str("variable duplicated here");
        CompileErr { code: String::from_str("E011"), message, label, span, notes: None }
    }

    /// `break` or `continue` outside of any loop.
    pub fn keyword_not_in_a_loop(keyword: String, span: Span) -> (e: CompileErr)
        ensures
            is_keyword_not_in_a_loop(e, keyword@, span),
    {
        let mut message = String::from_str("keyword `");
        message.append(keyword.as_str());
        message.append("` is not in a loop");
        let mut label = String::from_str("keyword here, which is not in a loop");
        CompileErr { code: String::from_str("E012"), message, label, span, notes: None }
    }

    /// More subscripts than the array has dimensions.
    pub fn array_dimension_mismatch(expect: usize, found: usize, span: Span) -> (e: CompileErr)
        ensures
            is_array_dimension_mismatch(e, expect as nat, found as nat, span),
    {
        let mut message = String::from_str("array dimension mismatch");
        let mut label = String::from_str("this array subscript is invalid");
        let mut note = String::from_str("array has `");
        let digits_expect = usize_to_decimal(expect);
        note.append(digits_expect.as_str());
        note.append("` dimension, but found `");
        let digits_found = usize_to_decimal(found);
        note.append(digits_found.as_str());
        note.append("` subscript");
        CompileErr { code: String::from_str("E013"), message, label, span, notes: Some(note) }
    }

    /// More subscripts than levels of indirection of the pointer.
    pub fn pointer_dimension_mismatch(expect: usize, found: usize, span: Span) -> (e: CompileErr)
        ensures
            is_pointer_dimension_mismatch(e, expect as nat, found as nat, span),
    {
        let mut message = String::from_str("pointer dimension mismatch");
        let mut label = String::from_str("pointer dimension mismatch here");
        let mut note = String::from_str("pointer dimension mismatch, expect ");
        let digits_expect = usize_to_decimal(expect);
        note.append(digits_expect.as_str());
        note.append(", found ");
        let digits_found = usize_to_decimal(found);
        note.append(digits_found.as_str());
        CompileErr { code: String::from_str("E014"), message, label, span, notes: Some(note) }
    }

    /// An assignment to an expression that has no address.
    pub fn invalid_left_value(name: String, span: Span) -> (e: CompileErr)
        ensures
            is_invalid_left_value(e, name@, span),
    {
        let mut message = String::from_str("invalid left value for a not addressable variable `");
        message.append(name.as_str());
        message.append("`");
        let mut label = String::from_str("invalid left value here");
        CompileErr { code: String::from_str("E015"), message, label, span, notes: None }
    }

    /// A dereference of a value that is not a pointer.
    pub fn invalid_dereference(name: String, span: Span) -> (e: CompileErr)
        ensures
            is_invalid_dereference(e, name@, span),
    {
        let mut message = String::from_str("invalid dereference for a no pointer variable `");
        message.append(name.as_str());
        message.append("`");
        let mut label = String::from_str("invalid dereference here");
        CompileErr { code: String::from_str("E016"), message, label, span, notes: None }
    }

    /// A call with the wrong number of arguments.
    pub fn parameter_count_mismatch(name: String, expect: usize, found: usize, span: Span) -> (e: CompileErr)
        ensures
            is_parameter_count_mismatch(e, name@, expect as nat, found as nat, span),
    {
        let mut message = String::from_str("parameter count mismatch");
        let mut label = String::from_str("function call here");
        let mut note = String::from_str("parameter count of function `");
        note.append(name.as_str());
        note.append("` is incorrect, expect ");
        let digits_expect = usize_to_decimal(expect);
        note.append(digits_expect.as_str());
        note.append(", found ");
        let digits_found = usize_to_decimal(found);
        note.append(digits_found.as_str());
        CompileErr { code: String::from_str("E017"), message, label, span, notes: Some(note) }
    }

    /// The text shown for this error: its message.
    pub fn to_string(&self) -> (s: String)
        ensures
            s@ == self.message@,
    {
        self.message.clone()
    }
}

} // verus!
