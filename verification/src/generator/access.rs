//! Decisions of code generation around values: the types that subscripts
//! and constants have, the expressions the generator handles, and the
//! arity of calls.
use vstd::prelude::*;

use crate::ast::copy::{copy_basic_type, copy_base_type, copy_expr, copy_string};
use crate::ast::equality::{lemma_same_exprs_pointwise, same_base_type, same_basic_type, same_expr, same_exprs};
use crate::ast::typedefs::TypedefMap;
use crate::ast::typing::{implicit_cast_defined, implicitly_castable, type_text};
use crate::ast::{
    AssignOperationEnum, BaseType, BasicType, BinaryOperationEnum, Expression, ExpressionEnum, IntegerType, Span,
};
use crate::utils::error::{
    is_invalid_default_cast,
    is_array_dimension_mismatch, is_parameter_count_mismatch, is_pointer_dimension_mismatch, is_unknown_expression,
    CompileErr,
};

verus! {

/// `t` with a typedef name replaced by the type it was declared with,
/// qualifiers included.
pub open spec fn resolve_basic(t: BasicType, m: TypedefMap) -> BasicType {
    match t.base_type {
        BaseType::Identifier(n) => m.lookup(n@).unwrap(),
        _ => t,
    }
}

/// The type `n` levels of pointers below `t`, if `t` has that many.
pub open spec fn peel_pointers(t: BaseType, n: nat) -> Option<BaseType>
    decreases n,
{
    if n == 0 {
        Some(t)
    } else {
        match t {
            BaseType::Pointer(p) => peel_pointers(p.base_type, (n - 1) as nat),
            _ => None,
        }
    }
}

/// Whether subscripting a value of type `t` is defined: a typedef name it
/// names is bound, and it is an array or a pointer.
pub open spec fn subscriptable(t: BasicType, m: TypedefMap) -> bool {
    (t.base_type matches BaseType::Identifier(n) ==> m.lookup(n@) is Some) && (resolve_basic(t, m).base_type is Array
        || resolve_basic(t, m).base_type is Pointer)
}

/// Whether subscripting a value of type `t` is defined (`subscriptable`).
pub fn is_subscriptable(t: &BasicType, m: &TypedefMap) -> (b: bool)
    ensures
        b == subscriptable(*t, *m),
{
    match &t.base_type {
        BaseType::Identifier(name) => match m.get(name) {
            Some(bound) => {
                assert(resolve_basic(*t, *m) == *bound);
                match &bound.base_type {
                    BaseType::Array(_, _) => true,
                    BaseType::Pointer(_) => true,
                    _ => false,
                }
            },
            None => false,
        },
        BaseType::Array(_, _) => true,
        BaseType::Pointer(_) => true,
        _ => false,
    }
}

fn copy_exprs_from(v: &Vec<Expression>, from: usize) -> (r: Vec<Expression>)
    requires
        from <= v@.len(),
    ensures
        same_exprs(r@, v@.skip(from as int)),
{
    let mut r: Vec<Expression> = Vec::new();
    let mut i = from;
    while i < v.len()
        invariant
            from <= i <= v@.len(),
            r@.len() == i - from,
            forall|j: int| 0 <= j < r@.len() ==> #[trigger] same_expr(r@[j], v@[j + from]),
        decreases v@.len() - i,
    {
        r.push(copy_expr(&v[i]));
        i = i + 1;
    }
    proof {
        assert forall|j: int| 0 <= j < r@.len() implies #[trigger] same_expr(r@[j], v@.skip(from as int)[j]) by {
            assert(v@.skip(from as int)[j] == v@[j + from]);
        }
        lemma_same_exprs_pointwise(r@, v@.skip(from as int));
    }
    r
}

/// The type of a value of type `t` subscripted by `n` indices (the
/// subscript at `span`): an array with more dimensions keeps the rest, an
/// array with exactly `n` gives its element type, and a pointer loses `n`
/// levels; the result keeps the qualifiers of `t`. Too many indices are an
/// array dimension mismatch, or a pointer dimension mismatch (expecting 0).
pub fn subscript_type(t: &BasicType, n: usize, span: Span, m: &TypedefMap) -> (r: Result<BasicType, CompileErr>)
    requires
        subscriptable(*t, *m),
    ensures
        ({
            let rt = resolve_basic(*t, *m);
            match rt.base_type {
                BaseType::Array(elem, dims) => match r {
                    Ok(res) => n <= dims@.len() && res.qualifier@ == rt.qualifier@ && if n < dims@.len() {
                        (res.base_type matches BaseType::Array(e2, d2) && same_basic_type(*e2, *elem) && same_exprs(
                            d2@,
                            dims@.skip(n as int),
                        ))
                    } else {
                        same_base_type(res.base_type, elem.base_type)
                    },
                    Err(e) => n > dims@.len() && is_array_dimension_mismatch(e, dims@.len(), n as nat, span),
                },
                _ => match r {
                    Ok(res) => res.qualifier@ == rt.qualifier@ && (peel_pointers(rt.base_type, n as nat) matches Some(
                        b,
                    ) && same_base_type(res.base_type, b)),
                    Err(e) => peel_pointers(rt.base_type, n as nat) is None && is_pointer_dimension_mismatch(
                        e,
                        0,
                        n as nat,
                        span,
                    ),
                },
            }
        }),
{
    let rt: &BasicType = match &t.base_type {
        BaseType::Identifier(name) => m.get(name).unwrap(),
        _ => t,
    };
    match &rt.base_type {
        BaseType::Array(elem, dims) => {
            if n < dims.len() {
                Ok(
                    BasicType {
                        qualifier: crate::ast::copy::copy_qualifiers(&rt.qualifier),
                        base_type: BaseType::Array(Box::new(copy_basic_type(elem)), copy_exprs_from(dims, n)),
                    },
                )
            } else if n == dims.len() {
                Ok(
                    BasicType {
                        qualifier: crate::ast::copy::copy_qualifiers(&rt.qualifier),
                        base_type: copy_base_type(&elem.base_type),
                    },
                )
            } else {
                Err(CompileErr::array_dimension_mismatch(dims.len(), n, span))
            }
        },
        _ => {
            let mut cur: &BaseType = &rt.base_type;
            let mut k: usize = 0;
            while k < n
                invariant
                    k <= n,
                    *rt == resolve_basic(*t, *m),
                    !(rt.base_type is Array),
                    peel_pointers(rt.base_type, n as nat) == peel_pointers(*cur, (n - k) as nat),
                decreases n - k,
            {
                match cur {
                    BaseType::Pointer(p) => {
                        cur = &p.base_type;
                    },
                    _ => {
                        return Err(CompileErr::pointer_dimension_mismatch(0, n, span));
                    },
                }
                k = k + 1;
            }
            Ok(BasicType { qualifier: crate::ast::copy::copy_qualifiers(&rt.qualifier), base_type: copy_base_type(cur) })
        },
    }
}

/// Checks the number of arguments `found` of a call of function `name`,
/// which takes `expect` parameters: a variadic function takes more too.
pub fn check_arity(name: &String, expect: usize, variadic: bool, found: usize, span: Span) -> (r: Result<(), CompileErr>)
    ensures
        r is Ok <==> (found == expect || (variadic && found > expect)),
        r matches Err(e) ==> is_parameter_count_mismatch(e, name@, expect as nat, found as nat, span),
{
    if found != expect && !(variadic && found > expect) {
        return Err(CompileErr::parameter_count_mismatch(copy_string(name), expect, found, span));
    }
    Ok(())
}

/// The type that argument `i` of a call, of type `arg`, is converted to
/// before the call, where the function takes the parameters `params`: the
/// type of parameter `i`, once the argument is implicitly castable to it
/// (else the invalid-cast error at `span`). An argument past the declared
/// parameters, of a variadic function, is passed as it is (`None`).
pub fn call_argument_target(params: &Vec<BasicType>, i: usize, arg: &BaseType, span: Span, m: &TypedefMap) -> (r:
    Result<Option<BaseType>, CompileErr>)
    requires
        i < params.len() ==> implicit_cast_defined(*arg, params@[i as int].base_type, *m),
    ensures
        i >= params.len() ==> r == Ok::<Option<BaseType>, CompileErr>(None),
        i < params.len() ==> (r is Ok <==> implicitly_castable(*arg, params@[i as int].base_type, *m)),
        i < params.len() ==> (r is Err || (r matches Ok(Some(d)) && same_base_type(d, params@[i as int].base_type))),
        r matches Err(e) ==> i < params.len() && is_invalid_default_cast(
            e,
            type_text(*arg),
            type_text(params@[i as int].base_type),
            span,
        ),
{
    if i >= params.len() {
        return Ok(None);
    }
    let dest = &params[i].base_type;
    match arg.test_cast(dest, span, m) {
        Ok(()) => Ok(Some(copy_base_type(dest))),
        Err(e) => Err(e),
    }
}

/// The type of a call's value: the base type of the function's return type.
pub fn call_result_type(ret: &BasicType) -> (t: BaseType)
    ensures
        same_base_type(t, ret.base_type),
{
    copy_base_type(&ret.base_type)
}

/// The expressions the generator lowers: the empty expression, assignments,
/// unary and binary operations (`sizeof` among them), casts, conditional
/// expressions, `sizeof` of a type, calls, members of objects, constants,
/// identifiers, string literals and subscripts; not members through a
/// pointer.
pub open spec fn generated(e: ExpressionEnum) -> bool {
    !(e is MemberOfPointer)
}

/// Checks that the generator lowers expression `e`; others are unknown
/// expressions.
pub fn check_generated(e: &Expression) -> (r: Result<(), CompileErr>)
    ensures
        r is Ok <==> generated(e.node),
        r matches Err(x) ==> is_unknown_expression(x, e.span),
{
    match &e.node {
        ExpressionEnum::MemberOfPointer(_, _) => Err(CompileErr::unknown_expression(e.span)),
        _ => Ok(()),
    }
}

/// A constant as the generator emits it: its type, the width in bits of the
/// machine value, and, for integers and characters, the bits of the value.
#[derive(Debug)]
pub struct ConstantPlan {
    pub t: BaseType,
    pub bits: u32,
    pub value: u64,
}

/// The type and width a constant is emitted with: characters as 8-bit
/// `char`, `int` constants as 32-bit `int` or `unsigned int`, long and long
/// long constants as 64-bit `long` or `unsigned long`, and both floating
/// constants with type `float`, 32 or 64 bits wide.
pub open spec fn constant_shape(e: ExpressionEnum) -> Option<(BaseType, u32)> {
    match e {
        ExpressionEnum::CharacterConstant(_) => Some((BaseType::SignedInteger(IntegerType::Char), 8)),
        ExpressionEnum::IntegerConstant(_) => Some((BaseType::SignedInteger(IntegerType::Int), 32)),
        ExpressionEnum::UnsignedIntegerConstant(_) => Some((BaseType::UnsignedInteger(IntegerType::Int), 32)),
        ExpressionEnum::LongConstant(_) | ExpressionEnum::LongLongConstant(_) => Some(
            (BaseType::SignedInteger(IntegerType::Long), 64),
        ),
        ExpressionEnum::UnsignedLongConstant(_) | ExpressionEnum::UnsignedLongLongConstant(_) => Some(
            (BaseType::UnsignedInteger(IntegerType::Long), 64),
        ),
        ExpressionEnum::FloatConstant(_) => Some((BaseType::Float, 32)),
        ExpressionEnum::DoubleConstant(_) => Some((BaseType::Float, 64)),
        _ => None,
    }
}

/// The bits of an integer or character constant, as a 64-bit pattern
/// (negative values in two's complement).
pub open spec fn constant_bits(e: ExpressionEnum) -> u64 {
    match e {
        ExpressionEnum::CharacterConstant(c) => c as u64,
        ExpressionEnum::IntegerConstant(v) => v as u64,
        ExpressionEnum::UnsignedIntegerConstant(v) => v as u64,
        ExpressionEnum::LongConstant(v) | ExpressionEnum::LongLongConstant(v) => v as u64,
        ExpressionEnum::UnsignedLongConstant(v) | ExpressionEnum::UnsignedLongLongConstant(v) => v,
        _ => 0,
    }
}

/// How a constant expression is emitted, or `None` for other expressions.
pub fn constant_plan(e: &ExpressionEnum) -> (r: Option<ConstantPlan>)
    ensures
        match r {
            Some(p) => (constant_shape(*e) matches Some((t, b)) && p.t == t && p.bits == b && p.value
                == constant_bits(*e)),
            None => constant_shape(*e) is None,
        },
{
    match e {
        ExpressionEnum::CharacterConstant(c) => Some(
            ConstantPlan { t: BaseType::SignedInteger(IntegerType::Char), bits: 8, value: *c as u64 },
        ),
        ExpressionEnum::IntegerConstant(v) => Some(
            ConstantPlan { t: BaseType::SignedInteger(IntegerType::Int), bits: 32, value: *v as u64 },
        ),
        ExpressionEnum::UnsignedIntegerConstant(v) => Some(
            ConstantPlan { t: BaseType::UnsignedInteger(IntegerType::Int), bits: 32, value: *v as u64 },
        ),
        ExpressionEnum::LongConstant(v) | ExpressionEnum::LongLongConstant(v) => Some(
            ConstantPlan { t: BaseType::SignedInteger(IntegerType::Long), bits: 64, value: *v as u64 },
        ),
        ExpressionEnum::UnsignedLongConstant(v) | ExpressionEnum::UnsignedLongLongConstant(v) => Some(
            ConstantPlan { t: BaseType::UnsignedInteger(IntegerType::Long), bits: 64, value: *v },
        ),
        ExpressionEnum::FloatConstant(_) => Some(ConstantPlan { t: BaseType::Float, bits: 32, value: 0 }),
        ExpressionEnum::DoubleConstant(_) => Some(ConstantPlan { t: BaseType::Float, bits: 64, value: 0 }),
        _ => None,
    }
}

/// The binary operator a compound assignment applies; `=` applies none.
pub open spec fn compound_operator(op: AssignOperationEnum) -> Option<BinaryOperationEnum> {
    match op {
        AssignOperationEnum::Naive => None,
        AssignOperationEnum::Addition => Some(BinaryOperationEnum::Addition),
        AssignOperationEnum::Subtraction => Some(BinaryOperationEnum::Subtraction),
        AssignOperationEnum::Multiplication => Some(BinaryOperationEnum::Multiplication),
        AssignOperationEnum::Division => Some(BinaryOperationEnum::Division),
        AssignOperationEnum::Modulo => Some(BinaryOperationEnum::Modulo),
        AssignOperationEnum::BitwiseAnd => Some(BinaryOperationEnum::BitwiseAnd),
        AssignOperationEnum::BitwiseOr => Some(BinaryOperationEnum::BitwiseOr),
        AssignOperationEnum::BitwiseXor => Some(BinaryOperationEnum::BitwiseXor),
        AssignOperationEnum::LeftShift => Some(BinaryOperationEnum::LeftShift),
        AssignOperationEnum::RightShift => Some(BinaryOperationEnum::RightShift),
    }
}

/// `compound_operator(op)`.
pub fn compound_operator_exec(op: AssignOperationEnum) -> (r: Option<BinaryOperationEnum>)
    ensures
        r == compound_operator(op),
{
    match op {
        AssignOperationEnum::Naive => None,
        AssignOperationEnum::Addition => Some(BinaryOperationEnum::Addition),
        AssignOperationEnum::Subtraction => Some(BinaryOperationEnum::Subtraction),
        AssignOperationEnum::Multiplication => Some(BinaryOperationEnum::Multiplication),
        AssignOperationEnum::Division => Some(BinaryOperationEnum::Division),
        AssignOperationEnum::Modulo => Some(BinaryOperationEnum::Modulo),
        AssignOperationEnum::BitwiseAnd => Some(BinaryOperationEnum::BitwiseAnd),
        AssignOperationEnum::BitwiseOr => Some(BinaryOperationEnum::BitwiseOr),
        AssignOperationEnum::BitwiseXor => Some(BinaryOperationEnum::BitwiseXor),
        AssignOperationEnum::LeftShift => Some(BinaryOperationEnum::LeftShift),
        AssignOperationEnum::RightShift => Some(BinaryOperationEnum::RightShift),
    }
}

/// The shape of the machine type a C type is lowered to.
#[derive(Debug, PartialEq, Eq)]
pub enum LlvmType {
    /// an integer of the given width in bits
    Int(u32),
    Float,
    Double,
    Pointer(Box<LlvmType>),
    /// an array of the given length
    Array(Box<LlvmType>, u32),
    /// a struct of the given member types, not packed
    Struct(Vec<LlvmType>),
}

/// The length an array dimension gets from its constant: the constant's
/// bits at its width, as a 32-bit number.
pub open spec fn dimension_length(e: ExpressionEnum) -> Option<u32> {
    match e {
        ExpressionEnum::CharacterConstant(c) => Some(((c as u32) % 256) as u32),
        ExpressionEnum::IntegerConstant(v) => Some(v as u32),
        ExpressionEnum::UnsignedIntegerConstant(v) => Some(v),
        ExpressionEnum::LongConstant(v) | ExpressionEnum::LongLongConstant(v) => Some(v as u32),
        ExpressionEnum::UnsignedLongConstant(v) | ExpressionEnum::UnsignedLongLongConstant(v) => Some(v as u32),
        _ => None,
    }
}

fn dimension_length_exec(e: &ExpressionEnum) -> (r: Option<u32>)
    ensures
        r == dimension_length(*e),
{
    match e {
        ExpressionEnum::CharacterConstant(c) => Some((*c as u32) % 256),
        ExpressionEnum::IntegerConstant(v) => Some(*v as u32),
        ExpressionEnum::UnsignedIntegerConstant(v) => Some(*v),
        ExpressionEnum::LongConstant(v) | ExpressionEnum::LongLongConstant(v) => Some(*v as u32),
        ExpressionEnum::UnsignedLongConstant(v) | ExpressionEnum::UnsignedLongLongConstant(v) => Some(*v as u32),
        _ => None,
    }
}

/// Whether a type can be lowered (`lowerable`).
pub fn is_lowerable(t: &BaseType) -> (b: bool)
    ensures
        b == lowerable(*t),
    decreases t,
{
    match t {
        BaseType::Bool | BaseType::SignedInteger(_) | BaseType::UnsignedInteger(_) | BaseType::Float
        | BaseType::Double => true,
        BaseType::Pointer(p) => is_lowerable(&p.base_type),
        BaseType::Array(e, d) => {
            if !is_lowerable(&e.base_type) {
                return false;
            }
            let mut i: usize = 0;
            while i < d.len()
                invariant
                    i <= d@.len(),
                    *t == BaseType::Array(*e, *d),
                    forall|j: int| 0 <= j < i ==> dimension_length(#[trigger] d@[j].node) is Some,
                decreases d@.len() - i,
            {
                if dimension_length_exec(&d[i].node).is_none() {
                    return false;
                }
                i = i + 1;
            }
            true
        },
        BaseType::Struct(name, Some(ms)) => {
            let mut i: usize = 0;
            while i < ms.len()
                invariant
                    i <= ms@.len(),
                    *t == BaseType::Struct(*name, Some(*ms)),
                    forall|j: int| 0 <= j < i ==> lowerable(#[trigger] ms@[j].member_type.base_type),
                decreases ms@.len() - i,
            {
                proof {
                    assert(decreases_to!(*t => ms@[i as int].member_type.base_type)) by {
                        assert(decreases_to!(*t => t->Struct_1));
                        assert(decreases_to!(t->Struct_1 => t->Struct_1->0));
                        assert(decreases_to!(*ms => ms@));
                        assert(decreases_to!(ms@ => ms@[i as int]));
                        assert(decreases_to!(ms@[i as int] => ms@[i as int].member_type));
                    }
                }
                if !is_lowerable(&ms[i].member_type.base_type) {
                    return false;
                }
                i = i + 1;
            }
            true
        },
        _ => false,
    }
}

/// Whether a type can be lowered: `_Bool`, integers, floating types, and
/// pointers, arrays with constant lengths and structs with members of such
/// types.
pub open spec fn lowerable(t: BaseType) -> bool
    decreases t,
{
    match t {
        BaseType::Bool | BaseType::SignedInteger(_) | BaseType::UnsignedInteger(_) | BaseType::Float
        | BaseType::Double => true,
        BaseType::Pointer(p) => lowerable(p.base_type),
        BaseType::Array(e, d) => lowerable(e.base_type) && forall|i: int|
            0 <= i < d@.len() ==> dimension_length(#[trigger] d@[i].node) is Some,
        BaseType::Struct(_, Some(ms)) => forall|i: int|
            0 <= i < ms@.len() ==> lowerable(#[trigger] ms@[i].member_type.base_type),
        _ => false,
    }
}

/// The width in bits of an integer type.
pub open spec fn integer_width(i: IntegerType) -> u32 {
    match i {
        IntegerType::Char => 8,
        IntegerType::Short => 16,
        IntegerType::Int => 32,
        IntegerType::Long | IntegerType::LongLong => 64,
    }
}

/// What is left of `r` once the arrays of the lengths of `dims` (the
/// first dimension outermost) are taken off, if `r` has them.
pub open spec fn unwrap_arrays(r: LlvmType, dims: Seq<Expression>) -> Option<LlvmType>
    decreases dims.len(),
{
    if dims.len() == 0 {
        Some(r)
    } else {
        match r {
            LlvmType::Array(inner, len) => if Some(len) == dimension_length(dims[0].node) {
                unwrap_arrays(*inner, dims.drop_first())
            } else {
                None
            },
            _ => None,
        }
    }
}

/// Whether `r` is the machine type of `t`: `_Bool` a 1-bit integer, integers
/// of their width, pointers to the machine type of what they point to,
/// arrays nested outermost dimension first, structs of their members' types.
pub open spec fn is_llvm_type_of(r: LlvmType, t: BaseType) -> bool
    decreases t,
{
    match t {
        BaseType::Bool => r == LlvmType::Int(1),
        BaseType::SignedInteger(i) | BaseType::UnsignedInteger(i) => r == LlvmType::Int(integer_width(i)),
        BaseType::Float => r == LlvmType::Float,
        BaseType::Double => r == LlvmType::Double,
        BaseType::Pointer(p) => match r {
            LlvmType::Pointer(q) => is_llvm_type_of(*q, p.base_type),
            _ => false,
        },
        BaseType::Array(e, d) => match unwrap_arrays(r, d@) {
            Some(inner) => is_llvm_type_of(inner, e.base_type),
            None => false,
        },
        BaseType::Struct(_, Some(ms)) => match r {
            LlvmType::Struct(v) => v@.len() == ms@.len() && forall|i: int|
                0 <= i < ms@.len() ==> is_llvm_type_of(#[trigger] v@[i], ms@[i].member_type.base_type),
            _ => false,
        },
        _ => false,
    }
}

/// The machine type a value of type `t` is lowered to.
pub fn llvm_type_of(t: &BaseType) -> (r: LlvmType)
    requires
        lowerable(*t),
    ensures
        is_llvm_type_of(r, *t),
    decreases t,
{
    match t {
        BaseType::Bool => LlvmType::Int(1),
        BaseType::SignedInteger(i) | BaseType::UnsignedInteger(i) => LlvmType::Int(
            match i {
                IntegerType::Char => 8,
                IntegerType::Short => 16,
                IntegerType::Int => 32,
                IntegerType::Long | IntegerType::LongLong => 64,
            },
        ),
        BaseType::Float => LlvmType::Float,
        BaseType::Double => LlvmType::Double,
        BaseType::Pointer(p) => LlvmType::Pointer(Box::new(llvm_type_of(&p.base_type))),
        BaseType::Array(e, d) => {
            let mut acc = llvm_type_of(&e.base_type);
            let ghost inner = acc;
            let mut i = d.len();
            proof {
                assert(d@.skip(i as int) =~= Seq::<Expression>::empty());
            }
            while i > 0
                invariant
                    i <= d@.len(),
                    forall|j: int| 0 <= j < d@.len() ==> dimension_length(#[trigger] d@[j].node) is Some,
                    unwrap_arrays(acc, d@.skip(i as int)) == Some(inner),
                decreases i,
            {
                i = i - 1;
                let len = dimension_length_exec(&d[i].node).unwrap();
                proof {
                    assert(d@.skip(i as int).drop_first() =~= d@.skip(i + 1));
                    assert(d@.skip(i as int)[0] == d@[i as int]);
                }
                acc = LlvmType::Array(Box::new(acc), len);
            }
            assert(d@.skip(0) =~= d@);
            acc
        },
        BaseType::Struct(name, Some(ms)) => {
            let mut v: Vec<LlvmType> = Vec::new();
            let mut i: usize = 0;
            while i < ms.len()
                invariant
                    i <= ms@.len(),
                    *t == BaseType::Struct(*name, Some(*ms)),
                    v@.len() == i,
                    forall|j: int| 0 <= j < ms@.len() ==> lowerable(#[trigger] ms@[j].member_type.base_type),
                    forall|j: int| 0 <= j < i ==> is_llvm_type_of(#[trigger] v@[j], ms@[j].member_type.base_type),
                decreases ms@.len() - i,
            {
                proof {
                    assert(decreases_to!(*t => ms@[i as int].member_type.base_type)) by {
                        assert(decreases_to!(*t => t->Struct_1));
                        assert(decreases_to!(t->Struct_1 => t->Struct_1->0));
                        assert(decreases_to!(*ms => ms@));
                        assert(decreases_to!(ms@ => ms@[i as int]));
                        assert(decreases_to!(ms@[i as int] => ms@[i as int].member_type));
                    }
                }
                let x = llvm_type_of(&ms[i].member_type.base_type);
                v.push(x);
                i = i + 1;
            }
            LlvmType::Struct(v)
        },
        _ => LlvmType::Int(0),
    }
}

} // verus!
