//! The decisions of code generation for expressions: which instructions an
//! operator lowers to on operands of given types, the type of the result,
//! and the errors the operands are refused with. Emitting the instructions
//! is left to the code that owns the LLVM builder.
use vstd::prelude::*;

use super::cast_inst::{cast_opcode, gen_cast_llvm_instruction, CastOpcode};
use crate::ast::copy::copy_base_type;
use crate::ast::equality::same_base_type;
use crate::ast::typedefs::TypedefMap;
use crate::ast::equality::eq_base_type;
use crate::ast::typing::{discarding_defined, equal_discarding, has_rank, rank, rank_of, type_text};
use crate::ast::{
    AssignOperationEnum, BaseType, BasicType, BinaryOperationEnum, IntegerType, Span, UnaryOperation, UnaryOperationEnum,
};
use crate::utils::error::{
    is_array_dimension_mismatch, is_invalid_binary, is_invalid_cast, is_invalid_unary, is_plain_error, CompileErr,
};

verus! {

/// An integer type of either signedness.
pub open spec fn is_integer(t: BaseType) -> bool {
    t is SignedInteger || t is UnsignedInteger
}

fn is_integer_exec(t: &BaseType) -> (b: bool)
    ensures
        b == is_integer(*t),
{
    match t {
        BaseType::SignedInteger(_) | BaseType::UnsignedInteger(_) => true,
        _ => false,
    }
}

/// What a unary operator lowers to.
#[derive(Debug, Clone, Copy, PartialEq, Eq, Structural)]
pub enum UnaryPlan {
    /// the operand's value, unchanged
    Keep,
    /// integer negation
    IntNeg,
    /// floating negation
    FloatNeg,
    /// bitwise complement
    Not,
    /// comparison of the operand with zero, giving a `_Bool`
    LogicalNot,
    /// the address of the operand, which must be an lvalue
    Reference,
    /// a load through the pointer operand
    Dereference,
    /// the operand assigned with `op` and the constant 1; a postfix update
    /// gives the value from before the assignment
    Update { op: AssignOperationEnum, postfix: bool },
    /// the size in bytes of the operand's type, of type `size_type_spec()`
    Sizeof,
}

/// The type `sizeof` gives: `unsigned long`.
pub open spec fn size_type_spec() -> BaseType {
    BaseType::UnsignedInteger(IntegerType::Long)
}

/// The type `sizeof` gives (`size_type_spec`).
pub fn size_type() -> (t: BaseType)
    ensures
        t == size_type_spec(),
{
    BaseType::UnsignedInteger(IntegerType::Long)
}

/// The plan of unary operator `op` on an operand of type `t`, if it accepts
/// that operand. `-` takes booleans, integers and floating types, `~`
/// integers, `!` signed integers only, `*` pointers, and the increments and
/// decrements integers, floating types and pointers: an increment assigns
/// with addition, a decrement with subtraction. `sizeof` takes any operand
/// and gives its size.
pub open spec fn unary_plan_spec(op: UnaryOperationEnum, t: BaseType) -> Option<UnaryPlan> {
    match op {
        UnaryOperationEnum::UnaryPlus => if t is Bool || is_integer(t) || t is Float || t is Double {
            Some(UnaryPlan::Keep)
        } else {
            None
        },
        UnaryOperationEnum::UnaryMinus => if t is Bool || is_integer(t) {
            Some(UnaryPlan::IntNeg)
        } else if t is Float || t is Double {
            Some(UnaryPlan::FloatNeg)
        } else {
            None
        },
        UnaryOperationEnum::BitwiseNot => if is_integer(t) {
            Some(UnaryPlan::Not)
        } else {
            None
        },
        UnaryOperationEnum::LogicalNot => if t is SignedInteger {
            Some(UnaryPlan::LogicalNot)
        } else {
            None
        },
        UnaryOperationEnum::Reference => Some(UnaryPlan::Reference),
        UnaryOperationEnum::Dereference => if t is Pointer {
            Some(UnaryPlan::Dereference)
        } else {
            None
        },
        UnaryOperationEnum::PostfixIncrement | UnaryOperationEnum::PostfixDecrement => if is_integer(t)
            || t is Float || t is Double || t is Pointer {
            Some(
                UnaryPlan::Update {
                    op: if op is PostfixIncrement {
                        AssignOperationEnum::Addition
                    } else {
                        AssignOperationEnum::Subtraction
                    },
                    postfix: true,
                },
            )
        } else {
            None
        },
        UnaryOperationEnum::PrefixIncrement | UnaryOperationEnum::PrefixDecrement => if is_integer(t)
            || t is Float || t is Double || t is Pointer {
            Some(
                UnaryPlan::Update {
                    op: if op is PrefixIncrement {
                        AssignOperationEnum::Addition
                    } else {
                        AssignOperationEnum::Subtraction
                    },
                    postfix: false,
                },
            )
        } else {
            None
        },
        UnaryOperationEnum::SizeofExpr => Some(UnaryPlan::Sizeof),
    }
}

/// The type of the value a unary plan gives on an operand of type `t`:
/// the operand's type for `+`, `-`, `~` and the increments and decrements,
/// `_Bool` for `!`, the pointee's type for `*`, `size_type_spec()` for
/// `sizeof`. For `&` it is a pointer to the type of the operand's lvalue,
/// which the operand's type does not give (`None`).
pub open spec fn unary_result_spec(p: UnaryPlan, t: BaseType) -> Option<BaseType> {
    match p {
        UnaryPlan::Keep | UnaryPlan::IntNeg | UnaryPlan::FloatNeg | UnaryPlan::Not | UnaryPlan::Update { .. } => Some(t),
        UnaryPlan::LogicalNot => Some(BaseType::Bool),
        UnaryPlan::Dereference => match t {
            BaseType::Pointer(q) => Some(q.base_type),
            _ => None,
        },
        UnaryPlan::Sizeof => Some(size_type_spec()),
        UnaryPlan::Reference => None,
    }
}

/// The type of the value of unary plan `p` on an operand of type `t`
/// (`unary_result_spec`), each type up to `same_base_type`.
pub fn unary_result_type(p: UnaryPlan, t: &BaseType) -> (r: Option<BaseType>)
    ensures
        r is Some <==> unary_result_spec(p, *t) is Some,
        r matches Some(x) ==> same_base_type(x, unary_result_spec(p, *t)->0),
{
    match p {
        UnaryPlan::Keep | UnaryPlan::IntNeg | UnaryPlan::FloatNeg | UnaryPlan::Not | UnaryPlan::Update { .. } => Some(
            copy_base_type(t),
        ),
        UnaryPlan::LogicalNot => Some(BaseType::Bool),
        UnaryPlan::Dereference => match t {
            BaseType::Pointer(q) => Some(copy_base_type(&q.base_type)),
            _ => None,
        },
        UnaryPlan::Sizeof => Some(size_type()),
        UnaryPlan::Reference => None,
    }
}

/// The plan of a unary operation on an operand of type `t`, or the
/// invalid-unary error at `span`.
pub fn unary_plan(op: &UnaryOperation, t: &BaseType, span: Span) -> (r: Result<UnaryPlan, CompileErr>)
    ensures
        match r {
            Ok(p) => unary_plan_spec(op.node, *t) == Some(p),
            Err(e) => unary_plan_spec(op.node, *t) is None && is_invalid_unary(e, span),
        },
{
    let numeric = is_integer_exec(t) || matches!(t, BaseType::Float) || matches!(t, BaseType::Double);
    let plan = match op.node {
        UnaryOperationEnum::UnaryPlus => if numeric || matches!(t, BaseType::Bool) {
            Some(UnaryPlan::Keep)
        } else {
            None
        },
        UnaryOperationEnum::UnaryMinus => if matches!(t, BaseType::Bool) || is_integer_exec(t) {
            Some(UnaryPlan::IntNeg)
        } else if matches!(t, BaseType::Float) || matches!(t, BaseType::Double) {
            Some(UnaryPlan::FloatNeg)
        } else {
            None
        },
        UnaryOperationEnum::BitwiseNot => if is_integer_exec(t) {
            Some(UnaryPlan::Not)
        } else {
            None
        },
        UnaryOperationEnum::LogicalNot => if matches!(t, BaseType::SignedInteger(_)) {
            Some(UnaryPlan::LogicalNot)
        } else {
            None
        },
        UnaryOperationEnum::Reference => Some(UnaryPlan::Reference),
        UnaryOperationEnum::Dereference => if matches!(t, BaseType::Pointer(_)) {
            Some(UnaryPlan::Dereference)
        } else {
            None
        },
        UnaryOperationEnum::PostfixIncrement | UnaryOperationEnum::PostfixDecrement => if numeric || matches!(
            t,
            BaseType::Pointer(_)
        ) {
            Some(
                UnaryPlan::Update {
                    op: if op.node == UnaryOperationEnum::PostfixIncrement {
                        AssignOperationEnum::Addition
                    } else {
                        AssignOperationEnum::Subtraction
                    },
                    postfix: true,
                },
            )
        } else {
            None
        },
        UnaryOperationEnum::PrefixIncrement | UnaryOperationEnum::PrefixDecrement => if numeric || matches!(
            t,
            BaseType::Pointer(_)
        ) {
            Some(
                UnaryPlan::Update {
                    op: if op.node == UnaryOperationEnum::PrefixIncrement {
                        AssignOperationEnum::Addition
                    } else {
                        AssignOperationEnum::Subtraction
                    },
                    postfix: false,
                },
            )
        } else {
            None
        },
        UnaryOperationEnum::SizeofExpr => Some(UnaryPlan::Sizeof),
    };
    match plan {
        Some(p) => Ok(p),
        None => Err(CompileErr::invalid_unary(span)),
    }
}

/// The comparison an integer comparison uses. All are signed.
#[derive(Debug, Clone, Copy, PartialEq, Eq, Structural)]
pub enum IntPredicateKind {
    SignedLess,
    SignedLessOrEqual,
    SignedGreater,
    SignedGreaterOrEqual,
    Equal,
    NotEqual,
}

/// The instruction a binary operation on integers lowers to.
#[derive(Debug, Clone, Copy, PartialEq, Eq, Structural)]
pub enum IntInstruction {
    Add,
    Sub,
    Mul,
    SignedDiv,
    SignedRem,
    And,
    Or,
    Xor,
    Shl,
    ArithmeticShr,
    Compare(IntPredicateKind),
    /// both operands cut to one bit, then `and`
    LogicalAnd,
    /// both operands cut to one bit, then `or`
    LogicalOr,
}

/// The ordered comparison a floating comparison uses.
#[derive(Debug, Clone, Copy, PartialEq, Eq, Structural)]
pub enum FloatPredicateKind {
    OrderedLess,
    OrderedLessOrEqual,
    OrderedGreater,
    OrderedGreaterOrEqual,
    OrderedEqual,
    OrderedNotEqual,
}

/// The instruction a binary operation on floating values lowers to.
#[derive(Debug, Clone, Copy, PartialEq, Eq, Structural)]
pub enum FloatInstruction {
    Add,
    Sub,
    Mul,
    Div,
    Rem,
    Compare(FloatPredicateKind),
    /// both operands converted to `int` with the given conversion and cut to
    /// one bit, then `and`
    LogicalAnd(CastOpcode),
    /// as `LogicalAnd`, then `or`
    LogicalOr(CastOpcode),
}

/// The integer instruction of `op`; the comma operator has none.
pub open spec fn int_instruction(op: BinaryOperationEnum) -> Option<IntInstruction> {
    match op {
        BinaryOperationEnum::Addition => Some(IntInstruction::Add),
        BinaryOperationEnum::Subtraction => Some(IntInstruction::Sub),
        BinaryOperationEnum::Multiplication => Some(IntInstruction::Mul),
        BinaryOperationEnum::Division => Some(IntInstruction::SignedDiv),
        BinaryOperationEnum::Modulo => Some(IntInstruction::SignedRem),
        BinaryOperationEnum::BitwiseAnd => Some(IntInstruction::And),
        BinaryOperationEnum::BitwiseOr => Some(IntInstruction::Or),
        BinaryOperationEnum::BitwiseXor => Some(IntInstruction::Xor),
        BinaryOperationEnum::LeftShift => Some(IntInstruction::Shl),
        BinaryOperationEnum::RightShift => Some(IntInstruction::ArithmeticShr),
        BinaryOperationEnum::LessThan => Some(IntInstruction::Compare(IntPredicateKind::SignedLess)),
        BinaryOperationEnum::LessThanOrEqual => Some(IntInstruction::Compare(IntPredicateKind::SignedLessOrEqual)),
        BinaryOperationEnum::GreaterThan => Some(IntInstruction::Compare(IntPredicateKind::SignedGreater)),
        BinaryOperationEnum::GreaterThanOrEqual => Some(
            IntInstruction::Compare(IntPredicateKind::SignedGreaterOrEqual),
        ),
        BinaryOperationEnum::Equal => Some(IntInstruction::Compare(IntPredicateKind::Equal)),
        BinaryOperationEnum::NotEqual => Some(IntInstruction::Compare(IntPredicateKind::NotEqual)),
        BinaryOperationEnum::LogicalAnd => Some(IntInstruction::LogicalAnd),
        BinaryOperationEnum::LogicalOr => Some(IntInstruction::LogicalOr),
        BinaryOperationEnum::Comma => None,
    }
}

/// The floating instruction of `op`; bitwise operators, shifts and the comma
/// operator have none. The logical operators convert with `conv`.
pub open spec fn float_instruction(op: BinaryOperationEnum, conv: CastOpcode) -> Option<FloatInstruction> {
    match op {
        BinaryOperationEnum::Addition => Some(FloatInstruction::Add),
        BinaryOperationEnum::Subtraction => Some(FloatInstruction::Sub),
        BinaryOperationEnum::Multiplication => Some(FloatInstruction::Mul),
        BinaryOperationEnum::Division => Some(FloatInstruction::Div),
        BinaryOperationEnum::Modulo => Some(FloatInstruction::Rem),
        BinaryOperationEnum::LessThan => Some(FloatInstruction::Compare(FloatPredicateKind::OrderedLess)),
        BinaryOperationEnum::LessThanOrEqual => Some(
            FloatInstruction::Compare(FloatPredicateKind::OrderedLessOrEqual),
        ),
        BinaryOperationEnum::GreaterThan => Some(FloatInstruction::Compare(FloatPredicateKind::OrderedGreater)),
        BinaryOperationEnum::GreaterThanOrEqual => Some(
            FloatInstruction::Compare(FloatPredicateKind::OrderedGreaterOrEqual),
        ),
        BinaryOperationEnum::Equal => Some(FloatInstruction::Compare(FloatPredicateKind::OrderedEqual)),
        BinaryOperationEnum::NotEqual => Some(FloatInstruction::Compare(FloatPredicateKind::OrderedNotEqual)),
        BinaryOperationEnum::LogicalAnd => Some(FloatInstruction::LogicalAnd(conv)),
        BinaryOperationEnum::LogicalOr => Some(FloatInstruction::LogicalOr(conv)),
        _ => None,
    }
}

/// Whether `op` compares or is a logical operator, so that its result is a
/// `_Bool`.
pub open spec fn gives_bool(op: BinaryOperationEnum) -> bool {
    op is LessThan || op is LessThanOrEqual || op is GreaterThan || op is GreaterThanOrEqual || op is Equal
        || op is NotEqual || op is LogicalAnd || op is LogicalOr
}

fn int_instruction_exec(op: BinaryOperationEnum) -> (r: Option<IntInstruction>)
    ensures
        r == int_instruction(op),
{
    match op {
        BinaryOperationEnum::Addition => Some(IntInstruction::Add),
        BinaryOperationEnum::Subtraction => Some(IntInstruction::Sub),
        BinaryOperationEnum::Multiplication => Some(IntInstruction::Mul),
        BinaryOperationEnum::Division => Some(IntInstruction::SignedDiv),
        BinaryOperationEnum::Modulo => Some(IntInstruction::SignedRem),
        BinaryOperationEnum::BitwiseAnd => Some(IntInstruction::And),
        BinaryOperationEnum::BitwiseOr => Some(IntInstruction::Or),
        BinaryOperationEnum::BitwiseXor => Some(IntInstruction::Xor),
        BinaryOperationEnum::LeftShift => Some(IntInstruction::Shl),
        BinaryOperationEnum::RightShift => Some(IntInstruction::ArithmeticShr),
        BinaryOperationEnum::LessThan => Some(IntInstruction::Compare(IntPredicateKind::SignedLess)),
        BinaryOperationEnum::LessThanOrEqual => Some(IntInstruction::Compare(IntPredicateKind::SignedLessOrEqual)),
        BinaryOperationEnum::GreaterThan => Some(IntInstruction::Compare(IntPredicateKind::SignedGreater)),
        BinaryOperationEnum::GreaterThanOrEqual => Some(
            IntInstruction::Compare(IntPredicateKind::SignedGreaterOrEqual),
        ),
        BinaryOperationEnum::Equal => Some(IntInstruction::Compare(IntPredicateKind::Equal)),
        BinaryOperationEnum::NotEqual => Some(IntInstruction::Compare(IntPredicateKind::NotEqual)),
        BinaryOperationEnum::LogicalAnd => Some(IntInstruction::LogicalAnd),
        BinaryOperationEnum::LogicalOr => Some(IntInstruction::LogicalOr),
        BinaryOperationEnum::Comma => None,
    }
}

fn float_instruction_exec(op: BinaryOperationEnum, conv: CastOpcode) -> (r: Option<FloatInstruction>)
    ensures
        r == float_instruction(op, conv),
{
    match op {
        BinaryOperationEnum::Addition => Some(FloatInstruction::Add),
        BinaryOperationEnum::Subtraction => Some(FloatInstruction::Sub),
        BinaryOperationEnum::Multiplication => Some(FloatInstruction::Mul),
        BinaryOperationEnum::Division => Some(FloatInstruction::Div),
        BinaryOperationEnum::Modulo => Some(FloatInstruction::Rem),
        BinaryOperationEnum::LessThan => Some(FloatInstruction::Compare(FloatPredicateKind::OrderedLess)),
        BinaryOperationEnum::LessThanOrEqual => Some(
            FloatInstruction::Compare(FloatPredicateKind::OrderedLessOrEqual),
        ),
        BinaryOperationEnum::GreaterThan => Some(FloatInstruction::Compare(FloatPredicateKind::OrderedGreater)),
        BinaryOperationEnum::GreaterThanOrEqual => Some(
            FloatInstruction::Compare(FloatPredicateKind::OrderedGreaterOrEqual),
        ),
        BinaryOperationEnum::Equal => Some(FloatInstruction::Compare(FloatPredicateKind::OrderedEqual)),
        BinaryOperationEnum::NotEqual => Some(FloatInstruction::Compare(FloatPredicateKind::OrderedNotEqual)),
        BinaryOperationEnum::LogicalAnd => Some(FloatInstruction::LogicalAnd(conv)),
        BinaryOperationEnum::LogicalOr => Some(FloatInstruction::LogicalOr(conv)),
        _ => None,
    }
}

fn gives_bool_exec(op: BinaryOperationEnum) -> (b: bool)
    ensures
        b == gives_bool(op),
{
    match op {
        BinaryOperationEnum::LessThan | BinaryOperationEnum::LessThanOrEqual | BinaryOperationEnum::GreaterThan
        | BinaryOperationEnum::GreaterThanOrEqual | BinaryOperationEnum::Equal | BinaryOperationEnum::NotEqual
        | BinaryOperationEnum::LogicalAnd | BinaryOperationEnum::LogicalOr => true,
        _ => false,
    }
}

/// The conversion a value of type `curr` needs to become a `dest`: none when
/// the two are the same type (typedef names resolved), else the instruction
/// `cast_opcode` gives, if any.
pub open spec fn cast_step(curr: BaseType, dest: BaseType, m: TypedefMap) -> Option<Option<CastOpcode>> {
    if equal_discarding(curr, dest, m, 0) {
        Some(None)
    } else {
        match cast_opcode(curr, dest) {
            Some(op) => Some(Some(op)),
            None => None,
        }
    }
}

/// The conversion of a value of arithmetic type `curr` to arithmetic type
/// `dest`: `None` when none is needed, or the invalid-cast error at `span`.
pub fn cast_value_plan(curr: &BaseType, dest: &BaseType, span: Span, m: &TypedefMap) -> (r: Result<
    Option<CastOpcode>,
    CompileErr,
>)
    requires
        rank(*curr, *m) is Some,
        rank(*dest, *m) is Some,
    ensures
        match r {
            Ok(c) => cast_step(*curr, *dest, *m) == Some(c),
            Err(e) => cast_step(*curr, *dest, *m) is None && is_invalid_cast(e, type_text(*curr), type_text(*dest), span),
        },
{
    assert(discarding_defined(*curr, *dest, *m, 0));
    if curr.equal_discarding_qualifiers(dest, m) {
        Ok(None)
    } else {
        match gen_cast_llvm_instruction(curr, dest, span) {
            Ok(op) => Ok(Some(op)),
            Err(e) => Err(e),
        }
    }
}

/// What a binary operator lowers to.
#[derive(Debug)]
pub enum BinaryPlan {
    /// pointer arithmetic: the pointer operand is the left one when
    /// `pointer_left`; `decay` tells that it is an array of one dimension,
    /// first cast (`BitCast`) to a pointer to its elements; `negate` that the
    /// integer operand is subtracted; the result has the type `result`
    Pointer { pointer_left: bool, decay: bool, negate: bool, result: BaseType },
    /// both operands cast to `operand` (by the given conversions, if any) and
    /// combined by an integer instruction
    Int {
        operand: BaseType,
        lhs_cast: Option<CastOpcode>,
        rhs_cast: Option<CastOpcode>,
        int_inst: IntInstruction,
        result: BaseType,
    },
    /// the comma operator: the value of the right operand, of type `result`
    Comma { result: BaseType },
    /// as `Int`, with a floating instruction
    Float {
        operand: BaseType,
        lhs_cast: Option<CastOpcode>,
        rhs_cast: Option<CastOpcode>,
        float_inst: FloatInstruction,
        result: BaseType,
    },
}

/// Whether the operands take pointer arithmetic: an integer and a pointer or
/// an array, a pointer and an integer, or an array on the left.
pub open spec fn pointer_operands(l: BaseType, r: BaseType) -> bool {
    (is_integer(l) && (r is Pointer || r is Array)) || (l is Pointer && is_integer(r)) || l is Array
}

/// The common type of arithmetic operands: the one of higher rank, the left
/// one on a tie.
pub open spec fn common_type(l: BaseType, r: BaseType, m: TypedefMap) -> BaseType {
    if rank(l, m).unwrap() >= rank(r, m).unwrap() {
        l
    } else {
        r
    }
}

/// The common type of two arithmetic operands has the higher of their ranks,
/// and does not depend on their order when the ranks differ.
pub proof fn law_common_type_rank(l: BaseType, r: BaseType, m: TypedefMap)
    requires
        rank(l, m) is Some,
        rank(r, m) is Some,
    ensures
        rank(common_type(l, r, m), m).unwrap() >= rank(l, m).unwrap(),
        rank(common_type(l, r, m), m).unwrap() >= rank(r, m).unwrap(),
        rank(l, m) != rank(r, m) ==> common_type(l, r, m) == common_type(r, l, m),
{
}

/// The inputs on which lowering a binary operation runs to an end: the
/// comma operator on any operands; otherwise pointer
/// arithmetic only adds or subtracts (and an array on the left meets an
/// integer), other operands have ranks, and their common type, when both
/// operands cast to it, is an arithmetic type or `void` as written.
pub open spec fn binary_defined(op: BinaryOperationEnum, l: BaseType, r: BaseType, m: TypedefMap) -> bool {
    if op is Comma {
        true
    } else if pointer_operands(l, r) {
        let dims_ok = (l is Array ==> l->Array_1@.len() == 1) && (!(l is Array) && r is Array ==> r->Array_1@.len()
            == 1);
        dims_ok ==> ((op is Addition || op is Subtraction) && (l is Array ==> is_integer(r)))
    } else {
        &&& rank(l, m) is Some
        &&& rank(r, m) is Some
        &&& (cast_step(l, common_type(l, r, m), m) is Some && cast_step(r, common_type(l, r, m), m) is Some)
            ==> rank_of(common_type(l, r, m)) is Some
    }
}

/// Whether lowering a binary operation is defined (`binary_defined`).
pub fn is_binary_defined(op: BinaryOperationEnum, l: &BaseType, r: &BaseType, m: &TypedefMap) -> (b: bool)
    ensures
        b == binary_defined(op, *l, *r, *m),
{
    if op == BinaryOperationEnum::Comma {
        return true;
    }
    let l_int = is_integer_exec(l);
    let r_int = is_integer_exec(r);
    let l_array = matches!(l, BaseType::Array(_, _));
    let pointer = (l_int && (matches!(r, BaseType::Pointer(_)) || matches!(r, BaseType::Array(_, _))))
        || (matches!(l, BaseType::Pointer(_)) && r_int) || l_array;
    if pointer {
        let dims_ok = match l {
            BaseType::Array(_, d) => d.len() == 1,
            _ => match r {
                BaseType::Array(_, d) => d.len() == 1,
                _ => true,
            },
        };
        let op_ok = op == BinaryOperationEnum::Addition || op == BinaryOperationEnum::Subtraction;
        return !dims_ok || (op_ok && (!l_array || r_int));
    }
    if !crate::ast::typing::has_rank(l, m) || !crate::ast::typing::has_rank(r, m) {
        return false;
    }
    let c: &BaseType = if l.cast_rank(m) >= r.cast_rank(m) {
        l
    } else {
        r
    };
    let casts_ok = cast_value_plan(l, c, Span::new(0, 0), m).is_ok() && cast_value_plan(
        r,
        c,
        Span::new(0, 0),
        m,
    ).is_ok();
    let arithmetic = match c {
        BaseType::Void | BaseType::Bool | BaseType::SignedInteger(_) | BaseType::UnsignedInteger(_)
        | BaseType::Float | BaseType::Double => true,
        _ => false,
    };
    !casts_ok || arithmetic
}

/// The plan of binary operator `op` with operand types `l` and `r` (the
/// operands at `lspan` and `rspan`, the operation at `span` and its operator
/// at `op_span`), or the error it is refused with.
pub fn binary_plan(
    op: BinaryOperationEnum,
    op_span: Span,
    l: &BaseType,
    r: &BaseType,
    lspan: Span,
    span: Span,
    m: &TypedefMap,
) -> (res: Result<BinaryPlan, CompileErr>)
    requires
        binary_defined(op, *l, *r, *m),
    ensures
        op is Comma ==> (res matches Ok(BinaryPlan::Comma { result }) && same_base_type(result, *r)),
        !(op is Comma) && pointer_operands(*l, *r) ==> {
            let left = !(is_integer(*l));
            let arr = if left {
                *l
            } else {
                *r
            };
            match res {
                Ok(p) => p matches BinaryPlan::Pointer { pointer_left, decay, negate, result } && pointer_left == left
                    && decay == arr is Array && negate == op is Subtraction && same_base_type(result, arr),
                Err(e) => arr is Array && arr->Array_1@.len() != 1 && is_array_dimension_mismatch(
                    e,
                    1,
                    arr->Array_1@.len(),
                    span,
                ),
            }
        },
        !(op is Comma) && !pointer_operands(*l, *r) ==> {
            let c = common_type(*l, *r, *m);
            match res {
                Ok(p) => cast_step(*l, c, *m) is Some && cast_step(*r, c, *m) is Some && match p {
                    BinaryPlan::Int { operand, lhs_cast, rhs_cast, int_inst, result } => (c is SignedInteger
                        || c is UnsignedInteger || c is Bool) && same_base_type(operand, c) && Some(lhs_cast)
                        == cast_step(*l, c, *m) && Some(rhs_cast) == cast_step(*r, c, *m) && int_instruction(op)
                        == Some(int_inst) && same_base_type(
                        result,
                        if gives_bool(op) {
                            BaseType::Bool
                        } else {
                            c
                        },
                    ),
                    BinaryPlan::Float { operand, lhs_cast, rhs_cast, float_inst, result } => (c is Float || c is Double)
                        && same_base_type(operand, c) && Some(lhs_cast) == cast_step(*l, c, *m) && Some(rhs_cast)
                        == cast_step(*r, c, *m) && float_instruction(op, CastOpcode::FPToSI) == Some(float_inst)
                        && same_base_type(
                        result,
                        if gives_bool(op) {
                            BaseType::Bool
                        } else {
                            c
                        },
                    ),
                    _ => false,
                },
                Err(e) => if cast_step(*l, c, *m) is None {
                    is_invalid_cast(e, type_text(*l), type_text(c), lspan)
                } else if cast_step(*r, c, *m) is None {
                    is_invalid_cast(e, type_text(*r), type_text(c), lspan)
                } else if c is Void {
                    is_plain_error(e, "Invalid void type for binary operation"@, span)
                } else if c is Float || c is Double {
                    float_instruction(op, CastOpcode::FPToSI) is None && is_invalid_binary(e, op_span)
                } else {
                    int_instruction(op) is None && is_invalid_binary(e, span)
                },
            }
        },
{
    if op == BinaryOperationEnum::Comma {
        return Ok(BinaryPlan::Comma { result: copy_base_type(r) });
    }
    let negate = op == BinaryOperationEnum::Subtraction;
    // pointer arithmetic
    if is_integer_exec(l) {
        match r {
            BaseType::Pointer(_) => {
                return Ok(BinaryPlan::Pointer { pointer_left: false, decay: false, negate, result: copy_base_type(r) });
            },
            BaseType::Array(_, dims) => {
                if dims.len() != 1 {
                    return Err(CompileErr::array_dimension_mismatch(1, dims.len(), span));
                }
                return Ok(BinaryPlan::Pointer { pointer_left: false, decay: true, negate, result: copy_base_type(r) });
            },
            _ => {},
        }
    }
    match l {
        BaseType::Pointer(_) => {
            if is_integer_exec(r) {
                return Ok(BinaryPlan::Pointer { pointer_left: true, decay: false, negate, result: copy_base_type(l) });
            }
        },
        BaseType::Array(_, dims) => {
            if dims.len() != 1 {
                return Err(CompileErr::array_dimension_mismatch(1, dims.len(), span));
            }
            return Ok(BinaryPlan::Pointer { pointer_left: true, decay: true, negate, result: copy_base_type(l) });
        },
        _ => {},
    }
    // arithmetic on the common type
    let c: &BaseType = if l.cast_rank(m) >= r.cast_rank(m) {
        l
    } else {
        r
    };
    let lhs_cast = cast_value_plan(l, c, lspan, m)?;
    let rhs_cast = cast_value_plan(r, c, lspan, m)?;
    match c {
        BaseType::Void => Err(CompileErr::plain_error(String::from_str("Invalid void type for binary operation"), span)),
        BaseType::SignedInteger(_) | BaseType::UnsignedInteger(_) | BaseType::Bool => {
            match int_instruction_exec(op) {
                Some(inst) => {
                    let result = if gives_bool_exec(op) {
                        BaseType::Bool
                    } else {
                        copy_base_type(c)
                    };
                    Ok(BinaryPlan::Int { operand: copy_base_type(c), lhs_cast, rhs_cast, int_inst: inst, result })
                },
                None => Err(CompileErr::invalid_binary(span)),
            }
        },
        _ => {
            let conv = match gen_cast_llvm_instruction(
                &BaseType::Double,
                &BaseType::SignedInteger(IntegerType::Int),
                op_span,
            ) {
                Ok(conv) => conv,
                Err(e) => {
                    return Err(e);
                },
            };
            match float_instruction_exec(op, conv) {
                Some(inst) => {
                    let result = if gives_bool_exec(op) {
                        BaseType::Bool
                    } else {
                        copy_base_type(c)
                    };
                    Ok(BinaryPlan::Float { operand: copy_base_type(c), lhs_cast, rhs_cast, float_inst: inst, result })
                },
                None => Err(CompileErr::invalid_binary(op_span)),
            }
        },
    }
}

/// The conversion an explicit cast `as` of a value of type `from` to type
/// `to` needs: between arithmetic types as an implicit conversion does
/// (`cast_step`), otherwise none between the same types and else the
/// instruction `cast_opcode` gives, if any.
pub open spec fn explicit_cast_step(from: BaseType, to: BaseType, m: TypedefMap) -> Option<Option<CastOpcode>> {
    if rank(from, m) is Some && rank(to, m) is Some {
        cast_step(from, to, m)
    } else if same_base_type(from, to) {
        Some(None)
    } else {
        match cast_opcode(from, to) {
            Some(op) => Some(Some(op)),
            None => None,
        }
    }
}

/// The plan of the cast `e as to` of an operand of type `from`: the type of
/// the result, which is the type cast to, and the conversion the value
/// needs; or the invalid-cast error at `span`.
pub fn type_cast_plan(from: &BaseType, to: &BasicType, span: Span, m: &TypedefMap) -> (r: Result<
    (BaseType, Option<CastOpcode>),
    CompileErr,
>)
    ensures
        match r {
            Ok((t, c)) => same_base_type(t, to.base_type) && explicit_cast_step(*from, to.base_type, *m) == Some(c),
            Err(e) => explicit_cast_step(*from, to.base_type, *m) is None && is_invalid_cast(
                e,
                type_text(*from),
                type_text(to.base_type),
                span,
            ),
        },
{
    let dest = &to.base_type;
    let c = if has_rank(from, m) && has_rank(dest, m) {
        cast_value_plan(from, dest, span, m)?
    } else if eq_base_type(from, dest) {
        None
    } else {
        Some(gen_cast_llvm_instruction(from, dest, span)?)
    };
    Ok((copy_base_type(dest), c))
}

/// The plan of a conditional expression `c ? a : b` whose branches have
/// types `a` and `b`: both arithmetic, they are converted to their common
/// type (`common_type`), which the expression has. Other branches are
/// refused at `span`, as are branches that do not convert.
pub fn conditional_plan(a: &BaseType, b: &BaseType, span: Span, m: &TypedefMap) -> (r: Result<
    (BaseType, Option<CastOpcode>, Option<CastOpcode>),
    CompileErr,
>)
    ensures
        rank(*a, *m) is Some && rank(*b, *m) is Some ==> match r {
            Ok((t, ca, cb)) => same_base_type(t, common_type(*a, *b, *m)) && cast_step(*a, common_type(*a, *b, *m), *m)
                == Some(ca) && cast_step(*b, common_type(*a, *b, *m), *m) == Some(cb),
            Err(e) => (cast_step(*a, common_type(*a, *b, *m), *m) is None && is_invalid_cast(
                e,
                type_text(*a),
                type_text(common_type(*a, *b, *m)),
                span,
            )) || (cast_step(*a, common_type(*a, *b, *m), *m) is Some && cast_step(*b, common_type(*a, *b, *m), *m) is None
                && is_invalid_cast(e, type_text(*b), type_text(common_type(*a, *b, *m)), span)),
        },
        !(rank(*a, *m) is Some && rank(*b, *m) is Some) ==> (r matches Err(e) && is_plain_error(
            e,
            "Invalid operands for conditional expression"@,
            span,
        )),
{
    if !has_rank(a, m) || !has_rank(b, m) {
        return Err(CompileErr::plain_error(String::from_str("Invalid operands for conditional expression"), span));
    }
    let c: &BaseType = if a.cast_rank(m) >= b.cast_rank(m) {
        a
    } else {
        b
    };
    let ca = cast_value_plan(a, c, span, m)?;
    let cb = cast_value_plan(b, c, span, m)?;
    Ok((copy_base_type(c), ca, cb))
}

} // verus!
