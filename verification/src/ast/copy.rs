//! Deep copies of types and expressions.
use vstd::prelude::*;

use super::equality::{
    lemma_same_basic_types_pointwise, lemma_same_exprs_pointwise, lemma_same_members_pointwise,
    same_base_type, same_basic_type, same_basic_types, same_expr, same_exprs, same_member,
    same_members, same_opt_members, same_opt_string,
};
use super::tree::{Expression, ExpressionEnum};
use super::types::{BaseType, BasicType, StructMember, TypeQualifier};

verus! {

pub fn copy_string(s: &String) -> (r: String)
    ensures
        r@ == s@,
{
    s.clone()
}

fn copy_opt_string(s: &Option<String>) -> (r: Option<String>)
    ensures
        same_opt_string(r, *s),
{
    match s {
        None => None,
        Some(x) => Some(copy_string(x)),
    }
}

pub fn copy_qualifiers(q: &Vec<TypeQualifier>) -> (r: Vec<TypeQualifier>)
    ensures
        r@ == q@,
{
    let mut r: Vec<TypeQualifier> = Vec::new();
    let mut i: usize = 0;
    while i < q.len()
        invariant
            i <= q@.len(),
            r@ == q@.take(i as int),
        decreases q@.len() - i,
    {
        r.push(q[i]);
        i = i + 1;
        assert(r@ =~= q@.take(i as int));
    }
    assert(q@.take(q@.len() as int) =~= q@);
    r
}

/// A copy of a qualified type.
pub fn copy_basic_type(t: &BasicType) -> (r: BasicType)
    ensures
        same_basic_type(r, *t),
    decreases t,
{
    BasicType { qualifier: copy_qualifiers(&t.qualifier), base_type: copy_base_type(&t.base_type) }
}

fn copy_basic_types(v: &Vec<BasicType>) -> (r: Vec<BasicType>)
    ensures
        same_basic_types(r@, v@),
    decreases v,
{
    let mut r: Vec<BasicType> = Vec::new();
    let mut i: usize = 0;
    while i < v.len()
        invariant
            i <= v@.len(),
            r@.len() == i,
            forall|j: int| 0 <= j < i ==> #[trigger] same_basic_type(r@[j], v@[j]),
        decreases v@.len() - i,
    {
        let c = copy_basic_type(&v[i]);
        r.push(c);
        i = i + 1;
    }
    proof {
        lemma_same_basic_types_pointwise(r@, v@);
    }
    r
}

fn copy_members(v: &Vec<StructMember>) -> (r: Vec<StructMember>)
    ensures
        same_members(r@, v@),
    decreases v,
{
    let mut r: Vec<StructMember> = Vec::new();
    let mut i: usize = 0;
    while i < v.len()
        invariant
            i <= v@.len(),
            r@.len() == i,
            forall|j: int| 0 <= j < i ==> #[trigger] same_member(r@[j], v@[j]),
        decreases v@.len() - i,
    {
        let m = StructMember {
            member_name: copy_string(&v[i].member_name),
            member_type: copy_basic_type(&v[i].member_type),
        };
        r.push(m);
        i = i + 1;
    }
    proof {
        lemma_same_members_pointwise(r@, v@);
    }
    r
}

fn copy_opt_members(m: &Option<Vec<StructMember>>) -> (r: Option<Vec<StructMember>>)
    ensures
        same_opt_members(r, *m),
    decreases m,
{
    match m {
        None => None,
        Some(v) => Some(copy_members(v)),
    }
}

/// A copy of an unqualified type.
pub fn copy_base_type(t: &BaseType) -> (r: BaseType)
    ensures
        same_base_type(r, *t),
    decreases t,
{
    match t {
        BaseType::Void => BaseType::Void,
        BaseType::SignedInteger(x) => BaseType::SignedInteger(*x),
        BaseType::UnsignedInteger(x) => BaseType::UnsignedInteger(*x),
        BaseType::Bool => BaseType::Bool,
        BaseType::Float => BaseType::Float,
        BaseType::Double => BaseType::Double,
        BaseType::Pointer(x) => BaseType::Pointer(Box::new(copy_basic_type(x))),
        BaseType::Array(x, d) => BaseType::Array(Box::new(copy_basic_type(x)), copy_exprs(d)),
        BaseType::Function(rt, ps, v) => BaseType::Function(
            Box::new(copy_basic_type(rt)),
            copy_basic_types(ps),
            *v,
        ),
        BaseType::Struct(n, m) => BaseType::Struct(copy_opt_string(n), copy_opt_members(m)),
        BaseType::Union(n, m) => BaseType::Union(copy_opt_string(n), copy_opt_members(m)),
        BaseType::Identifier(s) => BaseType::Identifier(copy_string(s)),
    }
}

/// A copy of a list of expressions.
pub fn copy_exprs(v: &Vec<Expression>) -> (r: Vec<Expression>)
    ensures
        same_exprs(r@, v@),
    decreases v,
{
    let mut r: Vec<Expression> = Vec::new();
    let mut i: usize = 0;
    while i < v.len()
        invariant
            i <= v@.len(),
            r@.len() == i,
            forall|j: int| 0 <= j < i ==> #[trigger] same_expr(r@[j], v@[j]),
        decreases v@.len() - i,
    {
        let c = copy_expr(&v[i]);
        r.push(c);
        i = i + 1;
    }
    proof {
        lemma_same_exprs_pointwise(r@, v@);
    }
    r
}

/// A copy of an expression.
pub fn copy_expr(e: &Expression) -> (r: Expression)
    ensures
        same_expr(r, *e),
    decreases e,
{
    let node = match &e.node {
        ExpressionEnum::Assignment(o, l, rh) => ExpressionEnum::Assignment(
            *o,
            Box::new(copy_expr(l)),
            Box::new(copy_expr(rh)),
        ),
        ExpressionEnum::Unary(o, x) => ExpressionEnum::Unary(*o, Box::new(copy_expr(x))),
        ExpressionEnum::Binary(o, l, rh) => ExpressionEnum::Binary(
            *o,
            Box::new(copy_expr(l)),
            Box::new(copy_expr(rh)),
        ),
        ExpressionEnum::FunctionCall(f, a) => ExpressionEnum::FunctionCall(
            Box::new(copy_expr(f)),
            copy_exprs(a),
        ),
        ExpressionEnum::TypeCast(t, x) => ExpressionEnum::TypeCast(
            copy_basic_type(t),
            Box::new(copy_expr(x)),
        ),
        ExpressionEnum::Conditional(c, t, f) => ExpressionEnum::Conditional(
            Box::new(copy_expr(c)),
            Box::new(copy_expr(t)),
            Box::new(copy_expr(f)),
        ),
        ExpressionEnum::SizeofType(t) => ExpressionEnum::SizeofType(copy_basic_type(t)),
        ExpressionEnum::MemberOfObject(x, m) => ExpressionEnum::MemberOfObject(
            Box::new(copy_expr(x)),
            copy_string(m),
        ),
        ExpressionEnum::MemberOfPointer(x, m) => ExpressionEnum::MemberOfPointer(
            Box::new(copy_expr(x)),
            copy_string(m),
        ),
        ExpressionEnum::ArraySubscript(x, i) => ExpressionEnum::ArraySubscript(
            Box::new(copy_expr(x)),
            copy_exprs(i),
        ),
        ExpressionEnum::Identifier(s) => ExpressionEnum::Identifier(copy_string(s)),
        ExpressionEnum::IntegerConstant(x) => ExpressionEnum::IntegerConstant(*x),
        ExpressionEnum::UnsignedIntegerConstant(x) => ExpressionEnum::UnsignedIntegerConstant(*x),
        ExpressionEnum::LongConstant(x) => ExpressionEnum::LongConstant(*x),
        ExpressionEnum::UnsignedLongConstant(x) => ExpressionEnum::UnsignedLongConstant(*x),
        ExpressionEnum::LongLongConstant(x) => ExpressionEnum::LongLongConstant(*x),
        ExpressionEnum::UnsignedLongLongConstant(x) => ExpressionEnum::UnsignedLongLongConstant(*x),
        ExpressionEnum::CharacterConstant(x) => ExpressionEnum::CharacterConstant(*x),
        ExpressionEnum::FloatConstant(s) => ExpressionEnum::FloatConstant(copy_string(s)),
        ExpressionEnum::DoubleConstant(s) => ExpressionEnum::DoubleConstant(copy_string(s)),
        ExpressionEnum::StringLiteral(s) => ExpressionEnum::StringLiteral(copy_string(s)),
        ExpressionEnum::Empty => ExpressionEnum::Empty,
    };
    Expression { node, span: e.span }
}

} // verus!
