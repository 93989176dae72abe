//! Typing rules: the rank of arithmetic types, implicit conversions, and the
//! text that names a type in diagnostics.
use vstd::prelude::*;

use super::copy::copy_base_type;
use super::equality::{eq_base_type, same_base_type};
use super::span::Span;
use super::typedefs::TypedefMap;
use super::types::{BaseType, IntegerType};
use crate::utils::error::{is_invalid_default_cast, CompileErr};

verus! {

/// The text that `{:?}` produces for a type.
pub uninterp spec fn base_type_debug_text(t: BaseType) -> Seq<char>;

/// Formats a type with its derived `Debug` implementation (`format!("{:?}")`).
#[verifier::external_body]
fn debug_text(t: &BaseType) -> (s: String)
    ensures
        s@ == base_type_debug_text(*t),
{
    format!("{:?}", t)
}

/// The name of a type as diagnostics print it.
pub open spec fn type_text(t: BaseType) -> Seq<char>
    decreases t,
{
    match t {
        BaseType::Void => "void"@,
        BaseType::SignedInteger(IntegerType::Char) => "char"@,
        BaseType::UnsignedInteger(IntegerType::Char) => "unsigned char"@,
        BaseType::SignedInteger(IntegerType::Short) => "short"@,
        BaseType::UnsignedInteger(IntegerType::Short) => "unsigned short"@,
        BaseType::SignedInteger(IntegerType::Int) => "int"@,
        BaseType::UnsignedInteger(IntegerType::Int) => "unsigned int"@,
        BaseType::SignedInteger(IntegerType::Long) => "long"@,
        BaseType::UnsignedInteger(IntegerType::Long) => "unsigned long"@,
        BaseType::SignedInteger(IntegerType::LongLong) => "long long"@,
        BaseType::UnsignedInteger(IntegerType::LongLong) => "unsigned long long"@,
        BaseType::Bool => "_Bool"@,
        BaseType::Float => "float"@,
        BaseType::Double => "double"@,
        BaseType::Pointer(inner) => type_text(inner.base_type) + "*"@,
        _ => base_type_debug_text(t),
    }
}

/// Whether a typedef name, if `t` is one, is bound.
pub open spec fn resolvable(t: BaseType, m: TypedefMap) -> bool {
    t matches BaseType::Identifier(n) ==> m.lookup(n@) is Some
}

/// `t` with one typedef name replaced by the type it stands for.
pub open spec fn resolve(t: BaseType, m: TypedefMap) -> BaseType {
    match t {
        BaseType::Identifier(n) => m.lookup(n@).unwrap().base_type,
        _ => t,
    }
}

/// The conversion rank of an arithmetic type: `void` < `_Bool` < `char` <
/// `short` < `int` < `long` < `long long` < `float` < `double`; signed and
/// unsigned integers of one width share a rank. Other types have none.
pub open spec fn rank_of(t: BaseType) -> Option<int> {
    match t {
        BaseType::Void => Some(0),
        BaseType::Bool => Some(1),
        BaseType::SignedInteger(IntegerType::Char) | BaseType::UnsignedInteger(IntegerType::Char) => Some(2),
        BaseType::SignedInteger(IntegerType::Short) | BaseType::UnsignedInteger(IntegerType::Short) => Some(3),
        BaseType::SignedInteger(IntegerType::Int) | BaseType::UnsignedInteger(IntegerType::Int) => Some(4),
        BaseType::SignedInteger(IntegerType::Long) | BaseType::UnsignedInteger(IntegerType::Long) => Some(5),
        BaseType::SignedInteger(IntegerType::LongLong) | BaseType::UnsignedInteger(IntegerType::LongLong) => Some(6),
        BaseType::Float => Some(7),
        BaseType::Double => Some(8),
        _ => None,
    }
}

/// The rank of `t` after resolving a typedef name.
pub open spec fn rank(t: BaseType, m: TypedefMap) -> Option<int> {
    if resolvable(t, m) {
        rank_of(resolve(t, m))
    } else {
        None
    }
}

/// Whether comparing `a` and `b` while discarding qualifiers terminates in at
/// most `n` levels of pointers, every typedef name met being bound.
pub open spec fn discarding_defined(a: BaseType, b: BaseType, m: TypedefMap, n: nat) -> bool
    decreases n,
{
    resolvable(a, m) && resolvable(b, m) && {
        let ra = resolve(a, m);
        let rb = resolve(b, m);
        same_base_type(ra, rb) || !(ra is Pointer && rb is Pointer) || (n > 0 && discarding_defined(
            ra->Pointer_0.base_type,
            rb->Pointer_0.base_type,
            m,
            (n - 1) as nat,
        ))
    }
}

/// `a` and `b` are the same type once typedef names are resolved and the
/// qualifiers of pointed-to types are ignored.
pub open spec fn equal_discarding(a: BaseType, b: BaseType, m: TypedefMap, n: nat) -> bool
    decreases n,
{
    let ra = resolve(a, m);
    let rb = resolve(b, m);
    same_base_type(ra, rb) || (ra is Pointer && rb is Pointer && n > 0 && equal_discarding(
        ra->Pointer_0.base_type,
        rb->Pointer_0.base_type,
        m,
        (n - 1) as nat,
    ))
}

/// Whether the implicit conversion check runs to completion: every typedef
/// name met is bound and every rank it compares exists.
pub open spec fn implicit_cast_defined(s: BaseType, d: BaseType, m: TypedefMap) -> bool {
    resolvable(s, m) && resolvable(d, m) && {
        let rs = resolve(s, m);
        let rd = resolve(d, m);
        ||| same_base_type(rs, rd)
        ||| rs is Pointer && rd is Pointer
        ||| rs is Array && rd is Pointer && (rs->Array_1@.len() != 1 || (rank(
            rs->Array_0.base_type,
            m,
        ) is Some && rank(rd->Pointer_0.base_type, m) is Some))
        ||| !(rs is Array && rd is Pointer) && (rs is Pointer || rd is Pointer)
        ||| rank(s, m) is Some && rank(d, m) is Some
    }
}

/// Whether a value of type `s` converts implicitly to type `d`: the same type,
/// pointer to pointer, a one-dimensional array to a pointer, or an arithmetic
/// type of strictly lower rank to one of higher rank.
pub open spec fn implicitly_castable(s: BaseType, d: BaseType, m: TypedefMap) -> bool {
    let rs = resolve(s, m);
    let rd = resolve(d, m);
    ||| same_base_type(rs, rd)
    ||| rs is Pointer && rd is Pointer
    ||| rs is Array && rd is Pointer && rs->Array_1@.len() == 1
    ||| !(rs is Array && rd is Pointer) && !(rs is Pointer) && !(rd is Pointer) && rank(s, m).unwrap()
        < rank(d, m).unwrap()
}

/// A value converts implicitly to its own type.
pub proof fn law_cast_to_same_type(t: BaseType, m: TypedefMap)
    requires
        resolvable(t, m),
    ensures
        implicit_cast_defined(t, t, m),
        implicitly_castable(t, t, m),
{
    crate::ast::equality::lemma_same_base_type_refl(resolve(t, m));
}

proof fn lemma_equal_discarding_fuel(a: BaseType, b: BaseType, m: TypedefMap, n1: nat, n2: nat)
    requires
        discarding_defined(a, b, m, n1),
        discarding_defined(a, b, m, n2),
    ensures
        equal_discarding(a, b, m, n1) == equal_discarding(a, b, m, n2),
    decreases n1,
{
    let ra = resolve(a, m);
    let rb = resolve(b, m);
    if !same_base_type(ra, rb) && ra is Pointer && rb is Pointer && n1 > 0 && n2 > 0 {
        lemma_equal_discarding_fuel(
            ra->Pointer_0.base_type,
            rb->Pointer_0.base_type,
            m,
            (n1 - 1) as nat,
            (n2 - 1) as nat,
        );
    }
}

fn resolve_exec<'a>(t: &'a BaseType, m: &'a TypedefMap) -> (r: &'a BaseType)
    requires
        resolvable(*t, *m),
    ensures
        *r == resolve(*t, *m),
{
    match t {
        BaseType::Identifier(n) => {
            let bound = m.get(n);
            &bound.unwrap().base_type
        },
        _ => t,
    }
}

fn rank_exec(t: &BaseType) -> (r: i32)
    requires
        rank_of(*t) is Some,
    ensures
        r == rank_of(*t).unwrap(),
{
    match t {
        BaseType::Void => 0,
        BaseType::Bool => 1,
        BaseType::SignedInteger(IntegerType::Char) | BaseType::UnsignedInteger(IntegerType::Char) => 2,
        BaseType::SignedInteger(IntegerType::Short) | BaseType::UnsignedInteger(IntegerType::Short) => 3,
        BaseType::SignedInteger(IntegerType::Int) | BaseType::UnsignedInteger(IntegerType::Int) => 4,
        BaseType::SignedInteger(IntegerType::Long) | BaseType::UnsignedInteger(IntegerType::Long) => 5,
        BaseType::SignedInteger(IntegerType::LongLong) | BaseType::UnsignedInteger(IntegerType::LongLong) => 6,
        BaseType::Float => 7,
        BaseType::Double => 8,
        _ => 0,
    }
}

fn equal_discarding_rec(a: &BaseType, b: &BaseType, m: &TypedefMap, Ghost(n): Ghost<nat>) -> (r: bool)
    requires
        discarding_defined(*a, *b, *m, n),
    ensures
        r == equal_discarding(*a, *b, *m, n),
    decreases n,
{
    let ra = resolve_exec(a, m);
    let rb = resolve_exec(b, m);
    if eq_base_type(ra, rb) {
        return true;
    }
    match (ra, rb) {
        (BaseType::Pointer(x), BaseType::Pointer(y)) => equal_discarding_rec(
            &x.base_type,
            &y.base_type,
            m,
            Ghost((n - 1) as nat),
        ),
        _ => false,
    }
}

fn resolvable_exec(t: &BaseType, m: &TypedefMap) -> (b: bool)
    ensures
        b == resolvable(*t, *m),
{
    match t {
        BaseType::Identifier(n) => m.get(n).is_some(),
        _ => true,
    }
}

/// Whether `t` has a rank once a typedef name is resolved.
pub fn has_rank(t: &BaseType, m: &TypedefMap) -> (b: bool)
    ensures
        b == (rank(*t, *m) is Some),
{
    if !resolvable_exec(t, m) {
        return false;
    }
    match resolve_exec(t, m) {
        BaseType::Void | BaseType::Bool | BaseType::SignedInteger(_) | BaseType::UnsignedInteger(_)
        | BaseType::Float | BaseType::Double => true,
        _ => false,
    }
}

/// Whether checking the implicit conversion of `s` to `d` is defined
/// (`implicit_cast_defined`).
pub fn cast_check_defined(s: &BaseType, d: &BaseType, m: &TypedefMap) -> (b: bool)
    ensures
        b == implicit_cast_defined(*s, *d, *m),
{
    if !resolvable_exec(s, m) || !resolvable_exec(d, m) {
        return false;
    }
    let rs = resolve_exec(s, m);
    let rd = resolve_exec(d, m);
    if eq_base_type(rs, rd) {
        return true;
    }
    match (rs, rd) {
        (BaseType::Pointer(_), BaseType::Pointer(_)) => true,
        (BaseType::Array(e, dims), BaseType::Pointer(p)) => dims.len() != 1 || (has_rank(&e.base_type, m)
            && has_rank(&p.base_type, m)),
        (BaseType::Pointer(_), _) | (_, BaseType::Pointer(_)) => true,
        _ => has_rank(s, m) && has_rank(d, m),
    }
}

impl BaseType {
    /// The conversion rank of this type (see `rank_of`), resolving one typedef name.
    pub fn cast_rank(&self, typedef_map: &TypedefMap) -> (r: i32)
        requires
            rank(*self, *typedef_map) is Some,
        ensures
            r == rank(*self, *typedef_map).unwrap(),
    {
        rank_exec(resolve_exec(self, typedef_map))
    }

    /// The common type of a binary arithmetic operation: the operand type of
    /// higher rank, the left one when the ranks are equal.
    pub fn upcast(lhs: &BaseType, rhs: &BaseType, typedef_map: &TypedefMap) -> (r: Result<BaseType, CompileErr>)
        requires
            rank(*lhs, *typedef_map) is Some,
            rank(*rhs, *typedef_map) is Some,
        ensures
            r matches Ok(t) && same_base_type(
                t,
                if rank(*lhs, *typedef_map).unwrap() >= rank(*rhs, *typedef_map).unwrap() {
                    *lhs
                } else {
                    *rhs
                },
            ),
    {
        if lhs.cast_rank(typedef_map) >= rhs.cast_rank(typedef_map) {
            Ok(copy_base_type(lhs))
        } else {
            Ok(copy_base_type(rhs))
        }
    }

    /// Whether two types are the same once typedef names are resolved and the
    /// qualifiers of pointed-to types are ignored.
    pub fn equal_discarding_qualifiers(&self, rhs: &BaseType, typedef_map: &TypedefMap) -> (r: bool)
        requires
            exists|n: nat| discarding_defined(*self, *rhs, *typedef_map, n),
        ensures
            forall|n: nat|
                discarding_defined(*self, *rhs, *typedef_map, n) ==> r == equal_discarding(
                    *self,
                    *rhs,
                    *typedef_map,
                    n,
                ),
    {
        let ghost n = choose|n: nat| discarding_defined(*self, *rhs, *typedef_map, n);
        proof {
            assert forall|k: nat| discarding_defined(*self, *rhs, *typedef_map, k) implies equal_discarding(
                *self,
                *rhs,
                *typedef_map,
                k,
            ) == equal_discarding(*self, *rhs, *typedef_map, n) by {
                lemma_equal_discarding_fuel(*self, *rhs, *typedef_map, k, n);
            }
        }
        equal_discarding_rec(self, rhs, typedef_map, Ghost(n))
    }

    /// Checks that a value of this type converts implicitly to `dest`; the
    /// error names both types and points at `span`.
    pub fn test_cast(&self, dest: &BaseType, span: Span, typedef_map: &TypedefMap) -> (r: Result<(), CompileErr>)
        requires
            implicit_cast_defined(*self, *dest, *typedef_map),
        ensures
            r is Ok <==> implicitly_castable(*self, *dest, *typedef_map),
            r matches Err(e) ==> is_invalid_default_cast(e, type_text(*self), type_text(*dest), span),
    {
        let true_self = resolve_exec(self, typedef_map);
        let true_dest = resolve_exec(dest, typedef_map);
        if eq_base_type(true_self, true_dest) {
            return Ok(());
        }
        match (true_self, true_dest) {
            (BaseType::Pointer(_), BaseType::Pointer(_)) => {
                return Ok(());
            },
            (BaseType::Array(lhs_type, lhs_expr), BaseType::Pointer(_)) => {
                if lhs_expr.len() != 1 {
                    return Err(CompileErr::invalid_default_cast(self.to_string(), dest.to_string(), span));
                }
                return Ok(());
            },
            (BaseType::Pointer(_), _) => {
                return Err(CompileErr::invalid_default_cast(self.to_string(), dest.to_string(), span));
            },
            (_, BaseType::Pointer(_)) => {
                return Err(CompileErr::invalid_default_cast(self.to_string(), dest.to_string(), span));
            },
            _ => {},
        }
        if self.cast_rank(typedef_map) < dest.cast_rank(typedef_map) {
            return Ok(());
        }
        Err(CompileErr::invalid_default_cast(self.to_string(), dest.to_string(), span))
    }

    /// The name of this type as diagnostics print it.
    pub fn to_string(&self) -> (s: String)
        ensures
            s@ == type_text(*self),
        decreases self,
    {
        match self {
            BaseType::Void => String::from_str("void"),
            BaseType::SignedInteger(IntegerType::Char) => String::from_str("char"),
            BaseType::UnsignedInteger(IntegerType::Char) => String::from_str("unsigned char"),
            BaseType::SignedInteger(IntegerType::Short) => String::from_str("short"),
            BaseType::UnsignedInteger(IntegerType::Short) => String::from_str("unsigned short"),
            BaseType::SignedInteger(IntegerType::Int) => String::from_str("int"),
            BaseType::UnsignedInteger(IntegerType::Int) => String::from_str("unsigned int"),
            BaseType::SignedInteger(IntegerType::Long) => String::from_str("long"),
            BaseType::UnsignedInteger(IntegerType::Long) => String::from_str("unsigned long"),
            BaseType::SignedInteger(IntegerType::LongLong) => String::from_str("long long"),
            BaseType::UnsignedInteger(IntegerType::LongLong) => String::from_str("unsigned long long"),
            BaseType::Bool => String::from_str("_Bool"),
            BaseType::Float => String::from_str("float"),
            BaseType::Double => String::from_str("double"),
            BaseType::Pointer(inner) => {
                let mut s = inner.base_type.to_string();
                s.append("*");
                s
            },
            _ => debug_text(self),
        }
    }
}

} // verus!
