//! Structural equality of types and expressions: two values are the same when
//! they have the same shape, the same spans, and strings with the same characters.
use vstd::prelude::*;

use super::tree::{Expression, ExpressionEnum};
use super::types::{BaseType, BasicType, StructMember, TypeQualifier};

verus! {

pub open spec fn same_opt_string(a: Option<String>, b: Option<String>) -> bool {
    match (a, b) {
        (None, None) => true,
        (Some(x), Some(y)) => x@ == y@,
        _ => false,
    }
}

pub open spec fn same_basic_type(a: BasicType, b: BasicType) -> bool
    decreases a,
{
    a.qualifier@ == b.qualifier@ && same_base_type(a.base_type, b.base_type)
}

pub open spec fn same_basic_types(a: Seq<BasicType>, b: Seq<BasicType>) -> bool
    decreases a,
{
    if a.len() == 0 {
        b.len() == 0
    } else {
        b.len() > 0 && same_basic_type(a[0], b[0]) && same_basic_types(a.drop_first(), b.drop_first())
    }
}

pub open spec fn same_members(a: Seq<StructMember>, b: Seq<StructMember>) -> bool
    decreases a,
{
    if a.len() == 0 {
        b.len() == 0
    } else {
        b.len() > 0 && a[0].member_name@ == b[0].member_name@ && same_basic_type(
            a[0].member_type,
            b[0].member_type,
        ) && same_members(a.drop_first(), b.drop_first())
    }
}

pub open spec fn same_opt_members(a: Option<Vec<StructMember>>, b: Option<Vec<StructMember>>) -> bool
    decreases a,
{
    match (a, b) {
        (None, None) => true,
        (Some(x), Some(y)) => same_members(x@, y@),
        _ => false,
    }
}

pub open spec fn same_base_type(a: BaseType, b: BaseType) -> bool
    decreases a,
{
    match (a, b) {
        (BaseType::Void, BaseType::Void) => true,
        (BaseType::SignedInteger(x), BaseType::SignedInteger(y)) => x == y,
        (BaseType::UnsignedInteger(x), BaseType::UnsignedInteger(y)) => x == y,
        (BaseType::Bool, BaseType::Bool) => true,
        (BaseType::Float, BaseType::Float) => true,
        (BaseType::Double, BaseType::Double) => true,
        (BaseType::Pointer(x), BaseType::Pointer(y)) => same_basic_type(*x, *y),
        (BaseType::Array(x, dx), BaseType::Array(y, dy)) => same_basic_type(*x, *y) && same_exprs(dx@, dy@),
        (BaseType::Function(rx, px, vx), BaseType::Function(ry, py, vy)) => same_basic_type(*rx, *ry)
            && same_basic_types(px@, py@) && vx == vy,
        (BaseType::Struct(nx, mx), BaseType::Struct(ny, my)) => same_opt_string(nx, ny) && same_opt_members(mx, my),
        (BaseType::Union(nx, mx), BaseType::Union(ny, my)) => same_opt_string(nx, ny) && same_opt_members(mx, my),
        (BaseType::Identifier(x), BaseType::Identifier(y)) => x@ == y@,
        _ => false,
    }
}

pub open spec fn same_exprs(a: Seq<Expression>, b: Seq<Expression>) -> bool
    decreases a,
{
    if a.len() == 0 {
        b.len() == 0
    } else {
        b.len() > 0 && same_expr(a[0], b[0]) && same_exprs(a.drop_first(), b.drop_first())
    }
}

pub open spec fn same_expr(a: Expression, b: Expression) -> bool
    decreases a,
{
    a.span == b.span && match (a.node, b.node) {
        (ExpressionEnum::Assignment(o1, l1, r1), ExpressionEnum::Assignment(o2, l2, r2)) => o1 == o2
            && same_expr(*l1, *l2) && same_expr(*r1, *r2),
        (ExpressionEnum::Unary(o1, e1), ExpressionEnum::Unary(o2, e2)) => o1 == o2 && same_expr(*e1, *e2),
        (ExpressionEnum::Binary(o1, l1, r1), ExpressionEnum::Binary(o2, l2, r2)) => o1 == o2 && same_expr(*l1, *l2)
            && same_expr(*r1, *r2),
        (ExpressionEnum::FunctionCall(f1, a1), ExpressionEnum::FunctionCall(f2, a2)) => same_expr(*f1, *f2)
            && same_exprs(a1@, a2@),
        (ExpressionEnum::TypeCast(t1, e1), ExpressionEnum::TypeCast(t2, e2)) => same_basic_type(t1, t2)
            && same_expr(*e1, *e2),
        (ExpressionEnum::Conditional(c1, t1, f1), ExpressionEnum::Conditional(c2, t2, f2)) => same_expr(*c1, *c2)
            && same_expr(*t1, *t2) && same_expr(*f1, *f2),
        (ExpressionEnum::SizeofType(t1), ExpressionEnum::SizeofType(t2)) => same_basic_type(t1, t2),
        (ExpressionEnum::MemberOfObject(e1, m1), ExpressionEnum::MemberOfObject(e2, m2)) => same_expr(*e1, *e2)
            && m1@ == m2@,
        (ExpressionEnum::MemberOfPointer(e1, m1), ExpressionEnum::MemberOfPointer(e2, m2)) => same_expr(*e1, *e2)
            && m1@ == m2@,
        (ExpressionEnum::ArraySubscript(e1, i1), ExpressionEnum::ArraySubscript(e2, i2)) => same_expr(*e1, *e2)
            && same_exprs(i1@, i2@),
        (ExpressionEnum::Identifier(x), ExpressionEnum::Identifier(y)) => x@ == y@,
        (ExpressionEnum::IntegerConstant(x), ExpressionEnum::IntegerConstant(y)) => x == y,
        (ExpressionEnum::UnsignedIntegerConstant(x), ExpressionEnum::UnsignedIntegerConstant(y)) => x == y,
        (ExpressionEnum::LongConstant(x), ExpressionEnum::LongConstant(y)) => x == y,
        (ExpressionEnum::UnsignedLongConstant(x), ExpressionEnum::UnsignedLongConstant(y)) => x == y,
        (ExpressionEnum::LongLongConstant(x), ExpressionEnum::LongLongConstant(y)) => x == y,
        (ExpressionEnum::UnsignedLongLongConstant(x), ExpressionEnum::UnsignedLongLongConstant(y)) => x == y,
        (ExpressionEnum::CharacterConstant(x), ExpressionEnum::CharacterConstant(y)) => x == y,
        (ExpressionEnum::FloatConstant(x), ExpressionEnum::FloatConstant(y)) => x@ == y@,
        (ExpressionEnum::DoubleConstant(x), ExpressionEnum::DoubleConstant(y)) => x@ == y@,
        (ExpressionEnum::StringLiteral(x), ExpressionEnum::StringLiteral(y)) => x@ == y@,
        (ExpressionEnum::Empty, ExpressionEnum::Empty) => true,
        _ => false,
    }
}

pub proof fn lemma_same_exprs_pointwise(a: Seq<Expression>, b: Seq<Expression>)
    ensures
        same_exprs(a, b) <==> (a.len() == b.len() && forall|i: int|
            0 <= i < a.len() ==> #[trigger] same_expr(a[i], b[i])),
    decreases a.len(),
{
    if a.len() > 0 && b.len() > 0 {
        lemma_same_exprs_pointwise(a.drop_first(), b.drop_first());
        assert(same_exprs(a, b) == (same_expr(a[0], b[0]) && same_exprs(a.drop_first(), b.drop_first())));
        if a.len() == b.len() && (forall|i: int| 0 <= i < a.len() ==> #[trigger] same_expr(a[i], b[i])) {
            assert(same_expr(a[0], b[0]));
        }
        if a.len() == b.len() && (forall|i: int| 0 <= i < a.len() ==> #[trigger] same_expr(a[i], b[i])) {
            assert forall|i: int| 0 <= i < a.len() - 1 implies #[trigger] same_expr(a.drop_first()[i], b.drop_first()[i]) by {
                assert(same_expr(a[i + 1], b[i + 1]));
            }
        }
        if same_exprs(a, b) {
            assert forall|i: int| 0 <= i < a.len() implies #[trigger] same_expr(a[i], b[i]) by {
                if i > 0 {
                    assert(same_expr(a.drop_first()[i - 1], b.drop_first()[i - 1]));
                }
            }
        }
    }
}

pub proof fn lemma_same_basic_types_pointwise(a: Seq<BasicType>, b: Seq<BasicType>)
    ensures
        same_basic_types(a, b) <==> (a.len() == b.len() && forall|i: int|
            0 <= i < a.len() ==> #[trigger] same_basic_type(a[i], b[i])),
    decreases a.len(),
{
    if a.len() > 0 && b.len() > 0 {
        lemma_same_basic_types_pointwise(a.drop_first(), b.drop_first());
        assert(same_basic_types(a, b) == (same_basic_type(a[0], b[0]) && same_basic_types(a.drop_first(), b.drop_first())));
        if a.len() == b.len() && (forall|i: int| 0 <= i < a.len() ==> #[trigger] same_basic_type(a[i], b[i])) {
            assert(same_basic_type(a[0], b[0]));
        }
        if a.len() == b.len() && (forall|i: int| 0 <= i < a.len() ==> #[trigger] same_basic_type(a[i], b[i])) {
            assert forall|i: int| 0 <= i < a.len() - 1 implies #[trigger] same_basic_type(a.drop_first()[i], b.drop_first()[i]) by {
                assert(same_basic_type(a[i + 1], b[i + 1]));
            }
        }
        if same_basic_types(a, b) {
            assert forall|i: int| 0 <= i < a.len() implies #[trigger] same_basic_type(a[i], b[i]) by {
                if i > 0 {
                    assert(same_basic_type(a.drop_first()[i - 1], b.drop_first()[i - 1]));
                }
            }
        }
    }
}

pub open spec fn same_member(a: StructMember, b: StructMember) -> bool {
    a.member_name@ == b.member_name@ && same_basic_type(a.member_type, b.member_type)
}

pub proof fn lemma_same_members_pointwise(a: Seq<StructMember>, b: Seq<StructMember>)
    ensures
        same_members(a, b) <==> (a.len() == b.len() && forall|i: int|
            0 <= i < a.len() ==> #[trigger] same_member(a[i], b[i])),
    decreases a.len(),
{
    if a.len() > 0 && b.len() > 0 {
        lemma_same_members_pointwise(a.drop_first(), b.drop_first());
        assert(same_members(a, b) == (same_member(a[0], b[0]) && same_members(a.drop_first(), b.drop_first())));
        if a.len() == b.len() && (forall|i: int| 0 <= i < a.len() ==> #[trigger] same_member(a[i], b[i])) {
            assert(same_member(a[0], b[0]));
        }
        if a.len() == b.len() && (forall|i: int| 0 <= i < a.len() ==> #[trigger] same_member(a[i], b[i])) {
            assert forall|i: int| 0 <= i < a.len() - 1 implies #[trigger] same_member(a.drop_first()[i], b.drop_first()[i]) by {
                assert(same_member(a[i + 1], b[i + 1]));
            }
        }
        if same_members(a, b) {
            assert forall|i: int| 0 <= i < a.len() implies #[trigger] same_member(a[i], b[i]) by {
                if i > 0 {
                    assert(same_member(a.drop_first()[i - 1], b.drop_first()[i - 1]));
                }
            }
        }
    }
}

/// Every type is the same as itself.
pub proof fn lemma_same_base_type_refl(t: BaseType)
    ensures
        same_base_type(t, t),
    decreases t,
{
    match t {
        BaseType::Pointer(x) => {
            lemma_same_basic_type_refl(*x);
        },
        BaseType::Array(x, d) => {
            lemma_same_basic_type_refl(*x);
            lemma_same_exprs_refl(d@);
        },
        BaseType::Function(r, ps, _) => {
            lemma_same_basic_type_refl(*r);
            lemma_same_basic_types_refl(ps@);
        },
        BaseType::Struct(_, m) | BaseType::Union(_, m) => {
            match m {
                Some(v) => {
                    lemma_same_members_refl(v@);
                },
                None => {},
            }
        },
        _ => {},
    }
}

pub proof fn lemma_same_basic_type_refl(t: BasicType)
    ensures
        same_basic_type(t, t),
    decreases t,
{
    lemma_same_base_type_refl(t.base_type);
}

pub proof fn lemma_same_basic_types_refl(s: Seq<BasicType>)
    ensures
        same_basic_types(s, s),
    decreases s,
{
    if s.len() > 0 {
        lemma_same_basic_type_refl(s[0]);
        lemma_same_basic_types_refl(s.drop_first());
    }
}

pub proof fn lemma_same_members_refl(s: Seq<StructMember>)
    ensures
        same_members(s, s),
    decreases s,
{
    if s.len() > 0 {
        lemma_same_basic_type_refl(s[0].member_type);
        lemma_same_members_refl(s.drop_first());
    }
}

pub proof fn lemma_same_exprs_refl(s: Seq<Expression>)
    ensures
        same_exprs(s, s),
    decreases s,
{
    if s.len() > 0 {
        lemma_same_expr_refl(s[0]);
        lemma_same_exprs_refl(s.drop_first());
    }
}

pub proof fn lemma_same_expr_refl(e: Expression)
    ensures
        same_expr(e, e),
    decreases e,
{
    match e.node {
        ExpressionEnum::Assignment(_, l, r) | ExpressionEnum::Binary(_, l, r) => {
            lemma_same_expr_refl(*l);
            lemma_same_expr_refl(*r);
        },
        ExpressionEnum::Unary(_, x) | ExpressionEnum::MemberOfObject(x, _) | ExpressionEnum::MemberOfPointer(x, _) => {
            lemma_same_expr_refl(*x);
        },
        ExpressionEnum::FunctionCall(f, a) | ExpressionEnum::ArraySubscript(f, a) => {
            lemma_same_expr_refl(*f);
            lemma_same_exprs_refl(a@);
        },
        ExpressionEnum::TypeCast(t, x) => {
            lemma_same_basic_type_refl(t);
            lemma_same_expr_refl(*x);
        },
        ExpressionEnum::Conditional(c, t, f) => {
            lemma_same_expr_refl(*c);
            lemma_same_expr_refl(*t);
            lemma_same_expr_refl(*f);
        },
        ExpressionEnum::SizeofType(t) => {
            lemma_same_basic_type_refl(t);
        },
        _ => {},
    }
}

fn eq_string(a: &String, b: &String) -> (r: bool)
    ensures
        r == (a@ == b@),
{
    a.eq(b)
}

fn eq_opt_string(a: &Option<String>, b: &Option<String>) -> (r: bool)
    ensures
        r == same_opt_string(*a, *b),
{
    match (a, b) {
        (None, None) => true,
        (Some(x), Some(y)) => eq_string(x, y),
        _ => false,
    }
}

fn eq_qualifiers(a: &Vec<TypeQualifier>, b: &Vec<TypeQualifier>) -> (r: bool)
    ensures
        r == (a@ == b@),
{
    if a.len() != b.len() {
        return false;
    }
    let mut i: usize = 0;
    while i < a.len()
        invariant
            a@.len() == b@.len(),
            i <= a@.len(),
            forall|j: int| 0 <= j < i ==> a@[j] == b@[j],
        decreases a@.len() - i,
    {
        if a[i] != b[i] {
            return false;
        }
        i = i + 1;
    }
    assert(a@ =~= b@);
    true
}

/// Whether two qualified types are the same.
pub fn eq_basic_type(a: &BasicType, b: &BasicType) -> (r: bool)
    ensures
        r == same_basic_type(*a, *b),
    decreases a,
{
    eq_qualifiers(&a.qualifier, &b.qualifier) && eq_base_type(&a.base_type, &b.base_type)
}

fn eq_basic_types(a: &Vec<BasicType>, b: &Vec<BasicType>) -> (r: bool)
    ensures
        r == same_basic_types(a@, b@),
    decreases a,
{
    proof {
        lemma_same_basic_types_pointwise(a@, b@);
    }
    if a.len() != b.len() {
        return false;
    }
    let mut i: usize = 0;
    while i < a.len()
        invariant
            a@.len() == b@.len(),
            i <= a@.len(),
            forall|j: int| 0 <= j < i ==> #[trigger] same_basic_type(a@[j], b@[j]),
            same_basic_types(a@, b@) <==> (a@.len() == b@.len() && forall|k: int|
                0 <= k < a@.len() ==> #[trigger] same_basic_type(a@[k], b@[k])),
        decreases a@.len() - i,
    {
        if !eq_basic_type(&a[i], &b[i]) {
            return false;
        }
        i = i + 1;
    }
    true
}

fn eq_members(a: &Vec<StructMember>, b: &Vec<StructMember>) -> (r: bool)
    ensures
        r == same_members(a@, b@),
    decreases a,
{
    proof {
        lemma_same_members_pointwise(a@, b@);
    }
    if a.len() != b.len() {
        return false;
    }
    let mut i: usize = 0;
    while i < a.len()
        invariant
            a@.len() == b@.len(),
            i <= a@.len(),
            forall|j: int| 0 <= j < i ==> #[trigger] same_member(a@[j], b@[j]),
            same_members(a@, b@) <==> (a@.len() == b@.len() && forall|k: int|
                0 <= k < a@.len() ==> #[trigger] same_member(a@[k], b@[k])),
        decreases a@.len() - i,
    {
        if !eq_string(&a[i].member_name, &b[i].member_name) {
            assert(!same_member(a@[i as int], b@[i as int]));
            return false;
        }
        if !eq_basic_type(&a[i].member_type, &b[i].member_type) {
            assert(!same_member(a@[i as int], b@[i as int]));
            return false;
        }
        i = i + 1;
    }
    true
}

fn eq_opt_members(a: &Option<Vec<StructMember>>, b: &Option<Vec<StructMember>>) -> (r: bool)
    ensures
        r == same_opt_members(*a, *b),
    decreases a,
{
    match (a, b) {
        (None, None) => true,
        (Some(x), Some(y)) => eq_members(x, y),
        _ => false,
    }
}

/// Whether two unqualified types are the same.
pub fn eq_base_type(a: &BaseType, b: &BaseType) -> (r: bool)
    ensures
        r == same_base_type(*a, *b),
    decreases a,
{
    match (a, b) {
        (BaseType::Void, BaseType::Void) => true,
        (BaseType::SignedInteger(x), BaseType::SignedInteger(y)) => *x == *y,
        (BaseType::UnsignedInteger(x), BaseType::UnsignedInteger(y)) => *x == *y,
        (BaseType::Bool, BaseType::Bool) => true,
        (BaseType::Float, BaseType::Float) => true,
        (BaseType::Double, BaseType::Double) => true,
        (BaseType::Pointer(x), BaseType::Pointer(y)) => eq_basic_type(x, y),
        (BaseType::Array(x, dx), BaseType::Array(y, dy)) => eq_basic_type(x, y) && eq_exprs(dx, dy),
        (BaseType::Function(rx, px, vx), BaseType::Function(ry, py, vy)) => eq_basic_type(rx, ry)
            && eq_basic_types(px, py) && *vx == *vy,
        (BaseType::Struct(nx, mx), BaseType::Struct(ny, my)) => eq_opt_string(nx, ny) && eq_opt_members(mx, my),
        (BaseType::Union(nx, mx), BaseType::Union(ny, my)) => eq_opt_string(nx, ny) && eq_opt_members(mx, my),
        (BaseType::Identifier(x), BaseType::Identifier(y)) => eq_string(x, y),
        _ => false,
    }
}

fn eq_exprs(a: &Vec<Expression>, b: &Vec<Expression>) -> (r: bool)
    ensures
        r == same_exprs(a@, b@),
    decreases a,
{
    proof {
        lemma_same_exprs_pointwise(a@, b@);
    }
    if a.len() != b.len() {
        return false;
    }
    let mut i: usize = 0;
    while i < a.len()
        invariant
            a@.len() == b@.len(),
            i <= a@.len(),
            forall|j: int| 0 <= j < i ==> #[trigger] same_expr(a@[j], b@[j]),
            same_exprs(a@, b@) <==> (a@.len() == b@.len() && forall|k: int|
                0 <= k < a@.len() ==> #[trigger] same_expr(a@[k], b@[k])),
        decreases a@.len() - i,
    {
        if !eq_expr(&a[i], &b[i]) {
            return false;
        }
        i = i + 1;
    }
    true
}

/// Whether two expressions are the same.
pub fn eq_expr(a: &Expression, b: &Expression) -> (r: bool)
    ensures
        r == same_expr(*a, *b),
    decreases a,
{
    if a.span != b.span {
        return false;
    }
    match (&a.node, &b.node) {
        (ExpressionEnum::Assignment(o1, l1, r1), ExpressionEnum::Assignment(o2, l2, r2)) => *o1 == *o2
            && eq_expr(l1, l2) && eq_expr(r1, r2),
        (ExpressionEnum::Unary(o1, e1), ExpressionEnum::Unary(o2, e2)) => *o1 == *o2 && eq_expr(e1, e2),
        (ExpressionEnum::Binary(o1, l1, r1), ExpressionEnum::Binary(o2, l2, r2)) => *o1 == *o2 && eq_expr(l1, l2)
            && eq_expr(r1, r2),
        (ExpressionEnum::FunctionCall(f1, a1), ExpressionEnum::FunctionCall(f2, a2)) => eq_expr(f1, f2)
            && eq_exprs(a1, a2),
        (ExpressionEnum::TypeCast(t1, e1), ExpressionEnum::TypeCast(t2, e2)) => eq_basic_type(t1, t2)
            && eq_expr(e1, e2),
        (ExpressionEnum::Conditional(c1, t1, f1), ExpressionEnum::Conditional(c2, t2, f2)) => eq_expr(c1, c2)
            && eq_expr(t1, t2) && eq_expr(f1, f2),
        (ExpressionEnum::SizeofType(t1), ExpressionEnum::SizeofType(t2)) => eq_basic_type(t1, t2),
        (ExpressionEnum::MemberOfObject(e1, m1), ExpressionEnum::MemberOfObject(e2, m2)) => eq_expr(e1, e2)
            && eq_string(m1, m2),
        (ExpressionEnum::MemberOfPointer(e1, m1), ExpressionEnum::MemberOfPointer(e2, m2)) => eq_expr(e1, e2)
            && eq_string(m1, m2),
        (ExpressionEnum::ArraySubscript(e1, i1), ExpressionEnum::ArraySubscript(e2, i2)) => eq_expr(e1, e2)
            && eq_exprs(i1, i2),
        (ExpressionEnum::Identifier(x), ExpressionEnum::Identifier(y)) => eq_string(x, y),
        (ExpressionEnum::IntegerConstant(x), ExpressionEnum::IntegerConstant(y)) => *x == *y,
        (ExpressionEnum::UnsignedIntegerConstant(x), ExpressionEnum::UnsignedIntegerConstant(y)) => *x == *y,
        (ExpressionEnum::LongConstant(x), ExpressionEnum::LongConstant(y)) => *x == *y,
        (ExpressionEnum::UnsignedLongConstant(x), ExpressionEnum::UnsignedLongConstant(y)) => *x == *y,
        (ExpressionEnum::LongLongConstant(x), ExpressionEnum::LongLongConstant(y)) => *x == *y,
        (ExpressionEnum::UnsignedLongLongConstant(x), ExpressionEnum::UnsignedLongLongConstant(y)) => *x == *y,
        (ExpressionEnum::CharacterConstant(x), ExpressionEnum::CharacterConstant(y)) => *x == *y,
        (ExpressionEnum::FloatConstant(x), ExpressionEnum::FloatConstant(y)) => eq_string(x, y),
        (ExpressionEnum::DoubleConstant(x), ExpressionEnum::DoubleConstant(y)) => eq_string(x, y),
        (ExpressionEnum::StringLiteral(x), ExpressionEnum::StringLiteral(y)) => eq_string(x, y),
        (ExpressionEnum::Empty, ExpressionEnum::Empty) => true,
        _ => false,
    }
}

} // verus!
