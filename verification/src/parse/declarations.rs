//! The grammar of declarations, as relations between a stretch of tokens and
//! the types, names and declarations it denotes: qualifier lists, pointers,
//! declaration specifiers, declarators with their array lengths and
//! parameter lists, and struct and union specifiers.
use vstd::prelude::*;

use super::grammar::Src;
use super::lexer::{Keyword, Punct, TokenKind};
use super::syntax::{atom_at, closes_expression, is_keyword, is_punct, tok_span, tok_text};
use super::syntax::{assignment, expression_stops, is_type_keyword_spec, statement};
use crate::ast::equality::same_basic_type;
use crate::ast::{
    BaseType, BasicType, Declaration, DeclarationEnum, Expression, FunctionSpecifier, IntegerType,
    StorageClassSpecifier, StructMember, Type, TypeQualifier,
};

verus! {

/// The qualifier a keyword spells.
pub open spec fn qualifier_spec(w: Keyword) -> Option<TypeQualifier> {
    if w == Keyword::Const {
        Some(TypeQualifier::Const)
    } else if w == Keyword::Volatile {
        Some(TypeQualifier::Volatile)
    } else if w == Keyword::Restrict {
        Some(TypeQualifier::Restrict)
    } else if w == Keyword::Atomic {
        Some(TypeQualifier::Atomic)
    } else {
        None
    }
}

/// The storage class a keyword spells.
pub open spec fn storage_spec(w: Keyword) -> Option<StorageClassSpecifier> {
    if w == Keyword::Typedef {
        Some(StorageClassSpecifier::Typedef)
    } else if w == Keyword::Extern {
        Some(StorageClassSpecifier::Extern)
    } else if w == Keyword::Static {
        Some(StorageClassSpecifier::Static)
    } else if w == Keyword::ThreadLocal {
        Some(StorageClassSpecifier::ThreadLocal)
    } else if w == Keyword::Auto {
        Some(StorageClassSpecifier::Auto)
    } else if w == Keyword::Register {
        Some(StorageClassSpecifier::Register)
    } else {
        None
    }
}

/// The qualifier token `k` spells, if it is a qualifier keyword.
pub open spec fn qualifier_at(src: Src, k: int) -> Option<TypeQualifier> {
    if 0 <= k < src.toks@.len() {
        match src.toks@[k].kind {
            TokenKind::Keyword(w) => qualifier_spec(w),
            _ => None,
        }
    } else {
        None
    }
}

/// The end of the run of qualifier keywords that starts at token `k`.
pub open spec fn qualifiers_end(src: Src, k: int) -> int
    decreases src.toks@.len() - k,
{
    if qualifier_at(src, k) is Some {
        qualifiers_end(src, k + 1)
    } else {
        k
    }
}

/// The tokens `i..j` are the qualifier keywords `qs`, in order.
pub open spec fn qualifier_list(src: Src, i: int, j: int, qs: Seq<TypeQualifier>) -> bool
    decreases j - i,
{
    if j <= i {
        i == j && qs.len() == 0
    } else {
        qs.len() > 0 && qualifier_at(src, j - 1) == Some(qs.last()) && qualifier_list(src, i, j - 1, qs.drop_last())
    }
}

/// The tokens `i..j` are pointers `*` (each followed by its qualifiers)
/// that turn the type `bt` into `out`: the first `*` wraps `bt`, each next
/// one wraps the type before it, and the qualifiers after a `*` qualify the
/// pointer it makes.
pub open spec fn pointers_rel(src: Src, i: int, j: int, bt: BasicType, out: BasicType) -> bool
    decreases j - i,
{
    if j <= i {
        i == j && out == bt
    } else {
        exists|s: int|
            #![trigger is_punct(src, s, Punct::Star)]
            i <= s < j && is_punct(src, s, Punct::Star) && qualifier_list(src, s + 1, j, out.qualifier@) && (
            out.base_type matches BaseType::Pointer(b) && pointers_rel(src, i, s, bt, *b))
    }
}

/// Where the pointers that start at token `k` end.
pub open spec fn pointers_end(src: Src, k: int) -> int
    decreases src.toks@.len() - k,
{
    if is_punct(src, k, Punct::Star) {
        proof {
            lemma_qualifiers_end(src, k + 1);
        }
        pointers_end(src, qualifiers_end(src, k + 1))
    } else {
        k
    }
}

/// A run of qualifiers does not go back, nor past the tokens.
pub proof fn lemma_qualifiers_end(src: Src, k: int)
    ensures
        k <= qualifiers_end(src, k),
        0 <= k <= src.toks@.len() ==> qualifiers_end(src, k) <= src.toks@.len(),
    decreases src.toks@.len() - k,
{
    if qualifier_at(src, k) is Some {
        lemma_qualifiers_end(src, k + 1);
    }
}


/// What has been read of declaration specifiers: the storage classes, the
/// function specifiers and the qualifiers, in order; the counts of the type
/// keywords `void`, `char`, `short`, `int`, `long`, `signed`, `unsigned`,
/// `_Bool`, `float` and `double`, in that order; and the struct, union or
/// typedef name that stands for the type.
pub type SpecifierState = (
    Seq<StorageClassSpecifier>,
    Seq<FunctionSpecifier>,
    Seq<TypeQualifier>,
    Seq<int>,
    Option<BaseType>,
);

/// Nothing read yet.
pub open spec fn no_specifiers() -> SpecifierState {
    (Seq::empty(), Seq::empty(), Seq::empty(), Seq::new(10, |i: int| 0int), None)
}

/// The place of a type keyword among the counts.
pub open spec fn type_keyword_index(w: Keyword) -> int {
    if w == Keyword::Void {
        0
    } else if w == Keyword::Char {
        1
    } else if w == Keyword::Short {
        2
    } else if w == Keyword::Int {
        3
    } else if w == Keyword::Long {
        4
    } else if w == Keyword::Signed {
        5
    } else if w == Keyword::Unsigned {
        6
    } else if w == Keyword::Bool {
        7
    } else if w == Keyword::Float {
        8
    } else {
        9
    }
}

/// How many times a type keyword may stand in one declaration: three for
/// `long`, two for the others (the combination rules then refuse most).
pub open spec fn type_keyword_limit(w: Keyword) -> int {
    if w == Keyword::Long {
        3
    } else {
        2
    }
}

/// No type keyword and no name standing for the type has been read.
pub open spec fn no_type(st: SpecifierState) -> bool {
    st.4 is None && forall|i: int| 0 <= i < 10 ==> #[trigger] st.3[i] == 0
}

/// `st` with `b` standing for the type.
pub open spec fn with_type_name(st: SpecifierState, b: BaseType) -> SpecifierState {
    (st.0, st.1, st.2, st.3, Some(b))
}

/// Reading the single token `k` takes the state `prev` to `st`: a storage
/// class, a qualifier, `inline` or `_Noreturn` is added to its list; a type
/// keyword is counted (when no name stands for the type and its limit is
/// not reached); an identifier followed by an identifier or `*`, before any
/// type keyword, names a type defined by `typedef`.
pub open spec fn specifier_step(src: Src, k: int, prev: SpecifierState, st: SpecifierState) -> bool {
    0 <= k < src.toks@.len() && match src.toks@[k].kind {
        TokenKind::Keyword(w) => if storage_spec(w) is Some {
            st == (prev.0.push(storage_spec(w)->0), prev.1, prev.2, prev.3, prev.4)
        } else if qualifier_spec(w) is Some {
            st == (prev.0, prev.1, prev.2.push(qualifier_spec(w)->0), prev.3, prev.4)
        } else if w == Keyword::Inline {
            st == (prev.0, prev.1.push(FunctionSpecifier::Inline), prev.2, prev.3, prev.4)
        } else if w == Keyword::Noreturn {
            st == (prev.0, prev.1.push(FunctionSpecifier::Noreturn), prev.2, prev.3, prev.4)
        } else if is_type_keyword_spec(w) {
            let i = type_keyword_index(w);
            prev.4 is None && prev.3[i] < type_keyword_limit(w) && st == (
                prev.0,
                prev.1,
                prev.2,
                prev.3.update(i, prev.3[i] + 1),
                prev.4,
            )
        } else {
            false
        },
        TokenKind::Identifier => no_type(prev) && (is_punct(src, k + 1, Punct::Star) || (k + 1
            < src.toks@.len() && src.toks@[k + 1].kind == TokenKind::Identifier)) && st.0 == prev.0 && st.1
            == prev.1 && st.2 == prev.2 && st.3 == prev.3 && (st.4 matches Some(BaseType::Identifier(n)) && n@
            == tok_text(src, k)),
        _ => false,
    }
}

/// The integer type the counts name, if they name one.
pub open spec fn integer_of_counts(c: Seq<int>) -> Option<IntegerType> {
    if c[1] > 0 {
        if c[1] == 1 && c[2] == 0 && c[3] == 0 && c[4] == 0 {
            Some(IntegerType::Char)
        } else {
            None
        }
    } else if c[2] > 0 {
        if c[2] == 1 && c[4] == 0 && c[3] <= 1 {
            Some(IntegerType::Short)
        } else {
            None
        }
    } else if c[4] > 0 {
        if c[3] <= 1 && c[4] <= 2 {
            if c[4] == 1 {
                Some(IntegerType::Long)
            } else {
                Some(IntegerType::LongLong)
            }
        } else {
            None
        }
    } else if c[3] <= 1 {
        Some(IntegerType::Int)
    } else {
        None
    }
}

/// The type that the counts of type keywords `c` and the name `other`
/// standing for a type give: the name alone; `void`, `_Bool` or `float`
/// alone; `double` with at most one `long`; an integer type, signed unless
/// `unsigned` is there (at most one of `signed` and `unsigned`); `int` when
/// there is nothing. Any other combination names no type.
pub open spec fn combine_spec(c: Seq<int>, other: Option<BaseType>) -> Option<BaseType> {
    let sign = c[5] + c[6];
    let arith = c[0] + c[1] + c[2] + c[3] + c[4] + c[7] + c[8] + c[9] + sign;
    match other {
        Some(b) => if arith == 0 {
            Some(b)
        } else {
            None
        },
        None => if sign > 1 {
            None
        } else if c[0] + c[7] + c[8] > 0 {
            if arith == 1 {
                if c[0] == 1 {
                    Some(BaseType::Void)
                } else if c[7] == 1 {
                    Some(BaseType::Bool)
                } else {
                    Some(BaseType::Float)
                }
            } else {
                None
            }
        } else if c[9] > 0 {
            if c[9] == 1 && c[4] <= 1 && arith == c[9] + c[4] {
                Some(BaseType::Double)
            } else {
                None
            }
        } else {
            match integer_of_counts(c) {
                Some(i) => if c[6] == 1 {
                    Some(BaseType::UnsignedInteger(i))
                } else {
                    Some(BaseType::SignedInteger(i))
                },
                None => None,
            }
        },
    }
}

/// The state that reading the keyword at token `k` takes `prev` to, when it
/// is a specifier keyword that may stand there (as `specifier_step` reads
/// it); `None` for any other token.
pub open spec fn keyword_step(src: Src, k: int, prev: SpecifierState) -> Option<SpecifierState> {
    if 0 <= k < src.toks@.len() {
        match src.toks@[k].kind {
            TokenKind::Keyword(w) => if storage_spec(w) is Some {
                Some((prev.0.push(storage_spec(w)->0), prev.1, prev.2, prev.3, prev.4))
            } else if qualifier_spec(w) is Some {
                Some((prev.0, prev.1, prev.2.push(qualifier_spec(w)->0), prev.3, prev.4))
            } else if w == Keyword::Inline {
                Some((prev.0, prev.1.push(FunctionSpecifier::Inline), prev.2, prev.3, prev.4))
            } else if w == Keyword::Noreturn {
                Some((prev.0, prev.1.push(FunctionSpecifier::Noreturn), prev.2, prev.3, prev.4))
            } else if is_type_keyword_spec(w) && prev.4 is None && prev.3[type_keyword_index(w)] < type_keyword_limit(
                w,
            ) {
                let i = type_keyword_index(w);
                Some((prev.0, prev.1, prev.2, prev.3.update(i, prev.3[i] + 1), prev.4))
            } else {
                None
            },
            _ => None,
        }
    } else {
        None
    }
}

/// The state that the tokens `i..j` are read into when each of them is a
/// specifier keyword (`keyword_step`); `None` when one is not.
pub open spec fn keyword_state(src: Src, i: int, j: int) -> Option<SpecifierState>
    decreases j - i,
{
    if j <= i {
        Some(no_specifiers())
    } else {
        match keyword_state(src, i, j - 1) {
            Some(prev) => keyword_step(src, j - 1, prev),
            None => None,
        }
    }
}

/// No declaration specifier can be read at token `n` after the state `st`:
/// the tokens end there, or token `n` is neither a specifier keyword nor
/// `struct` or `union`, nor an identifier that would name a type there.
pub open spec fn specifiers_stop(src: Src, n: int, st: SpecifierState) -> bool {
    0 <= n < src.toks@.len() ==> match src.toks@[n].kind {
        TokenKind::Keyword(w) => storage_spec(w) is None && qualifier_spec(w) is None && w != Keyword::Inline && w
            != Keyword::Noreturn && !is_type_keyword_spec(w) && w != Keyword::Struct && w != Keyword::Union,
        TokenKind::Identifier => !(no_type(st) && (is_punct(src, n + 1, Punct::Star) || (n + 1 < src.toks@.len()
            && src.toks@[n + 1].kind == TokenKind::Identifier))),
        _ => true,
    }
}

/// Where specifier keywords are read up to `j`, each shorter stretch is
/// read too, and the keyword at its end can be read after it.
pub proof fn lemma_keyword_state_prefix(src: Src, i: int, k: int, j: int)
    requires
        i <= k <= j,
        keyword_state(src, i, j) is Some,
    ensures
        keyword_state(src, i, k) is Some,
        k < j ==> keyword_step(src, k, keyword_state(src, i, k)->0) is Some,
    decreases j - i,
{
    if k < j {
        lemma_keyword_state_prefix(src, i, k, j - 1);
        if k < j - 1 {
        }
    }
}

/// Once a token that is not a specifier keyword was met, no longer stretch
/// is read as specifier keywords.
pub proof fn lemma_keyword_state_none(src: Src, i: int, a: int, b: int)
    requires
        i <= a <= b,
        keyword_state(src, i, a) is None,
    ensures
        keyword_state(src, i, b) is None,
    decreases b - a,
{
    if a < b {
        assert(keyword_state(src, i, a + 1) is None);
        lemma_keyword_state_none(src, i, a + 1, b);
    }
}

/// Reading specifier keywords from token `k` in the state `st`: where the
/// keywords end and the state they are read into, when no specifier of
/// another kind follows them (`specifiers_stop`).
pub open spec fn keyword_scan(src: Src, k: int, st: SpecifierState) -> Option<(int, SpecifierState)>
    decreases src.toks@.len() - k,
{
    if k < 0 || k >= src.toks@.len() {
        if specifiers_stop(src, k, st) {
            Some((k, st))
        } else {
            None
        }
    } else {
        match keyword_step(src, k, st) {
            Some(st2) => keyword_scan(src, k + 1, st2),
            None => if specifiers_stop(src, k, st) {
                Some((k, st))
            } else {
                None
            },
        }
    }
}

/// Where keyword specifiers that start at token `p` end, when there is at
/// least one, no specifier of another kind follows, and they give a type
/// and at most one storage class.
pub open spec fn keyword_specifiers_end(src: Src, p: int) -> Option<int> {
    match keyword_scan(src, p, no_specifiers()) {
        Some((k, st)) => if p < k && st.0.len() <= 1 && combine_spec(st.3, st.4) is Some {
            Some(k)
        } else {
            None
        },
        None => None,
    }
}

/// The scan agrees with `keyword_state` and ends where no specifier can
/// be read.
pub proof fn lemma_keyword_scan(src: Src, p: int, k: int, st: SpecifierState)
    requires
        0 <= p <= k,
        keyword_state(src, p, k) == Some(st),
        keyword_scan(src, k, st) is Some,
    ensures
        k <= (keyword_scan(src, k, st)->0).0,
        keyword_state(src, p, (keyword_scan(src, k, st)->0).0) == Some((keyword_scan(src, k, st)->0).1),
        specifiers_stop(src, (keyword_scan(src, k, st)->0).0, (keyword_scan(src, k, st)->0).1),
    decreases src.toks@.len() - k,
{
    if 0 <= k < src.toks@.len() {
        if let Some(st2) = keyword_step(src, k, st) {
            assert(keyword_state(src, p, k + 1) == Some(st2));
            lemma_keyword_scan(src, p, k + 1, st2);
        }
    }
}

/// What keyword specifiers from `p` up to their end are read into.
pub proof fn lemma_keyword_specifiers(src: Src, p: int)
    requires
        0 <= p,
        keyword_specifiers_end(src, p) is Some,
    ensures
        ({
            let k = keyword_specifiers_end(src, p)->0;
            &&& p < k <= src.toks@.len()
            &&& keyword_state(src, p, k) matches Some(st) && specifiers_stop(src, k, st) && st.0.len() <= 1
                && combine_spec(st.3, st.4) is Some
        }),
{
    assert(keyword_state(src, p, p) == Some(no_specifiers()));
    lemma_keyword_scan(src, p, p, no_specifiers());
    let k = keyword_specifiers_end(src, p)->0;
    if k > src.toks@.len() {
        lemma_keyword_state_prefix(src, p, src.toks@.len() as int, k);
    }
}

/// Where a plain type name that starts at token `k` ends: keyword
/// specifiers with no storage class that give a type, then pointers, and
/// no name or suffix after them.
pub open spec fn plain_type_name_end(src: Src, k: int) -> Option<int> {
    match keyword_scan(src, k, no_specifiers()) {
        Some((kk, st)) => if k < kk && st.0.len() == 0 && combine_spec(st.3, st.4) is Some {
            let j = pointers_end(src, kk);
            if !(0 <= j < src.toks@.len() && src.toks@[j].kind == TokenKind::Identifier) && !is_punct(
                src,
                j,
                Punct::LBracket,
            ) && !is_punct(src, j, Punct::LParen) {
                Some(j)
            } else {
                None
            }
        } else {
            None
        },
        None => None,
    }
}

/// Where a plain parameter that starts at token `p` ends: keyword
/// specifiers, pointers, perhaps a name, and no suffix after them.
pub open spec fn plain_parameter_end(src: Src, p: int) -> Option<int> {
    match keyword_specifiers_end(src, p) {
        Some(k) => {
            let j = pointers_end(src, k);
            let m = if 0 <= j < src.toks@.len() && src.toks@[j].kind == TokenKind::Identifier {
                j + 1
            } else {
                j
            };
            if !is_punct(src, m, Punct::LBracket) && !is_punct(src, m, Punct::LParen) {
                Some(m)
            } else {
                None
            }
        },
        None => None,
    }
}

/// Where the plain parameters from token `k` on, separated by commas and
/// perhaps ending with `...`, end with the closing `)`.
pub open spec fn plain_params_rest_end(src: Src, k: int) -> Option<int>
    decreases src.toks@.len() - k,
{
    if is_punct(src, k, Punct::Ellipsis) {
        if is_punct(src, k + 1, Punct::RParen) {
            Some(k + 2)
        } else {
            None
        }
    } else {
        match plain_parameter_end(src, k) {
            Some(m) => if m <= k {
                None
            } else if is_punct(src, m, Punct::RParen) {
                Some(m + 1)
            } else if is_punct(src, m, Punct::Comma) {
                plain_params_rest_end(src, m + 1)
            } else {
                None
            },
            None => None,
        }
    }
}

/// Where a plain parameter list that opens at token `p` ends.
pub open spec fn plain_params_end(src: Src, p: int) -> Option<int> {
    if is_punct(src, p, Punct::LParen) {
        if is_punct(src, p + 1, Punct::RParen) {
            Some(p + 2)
        } else {
            plain_params_rest_end(src, p + 1)
        }
    } else {
        None
    }
}

/// Where the plain suffixes of a declarator that start at token `m` end:
/// array lengths that are lone operands, and, where `allowed`, one plain
/// parameter list.
pub open spec fn plain_suffixes_end(src: Src, m: int, allowed: bool) -> Option<int>
    decreases src.toks@.len() - m,
{
    if m < 0 {
        None
    } else if is_punct(src, m, Punct::LBracket) {
        if atom_at(src, m + 1) && is_punct(src, m + 2, Punct::RBracket) {
            plain_suffixes_end(src, m + 3, allowed)
        } else {
            None
        }
    } else if allowed && is_punct(src, m, Punct::LParen) {
        match plain_params_end(src, m) {
            Some(q) => if q <= m || q > src.toks@.len() {
                None
            } else {
                plain_suffixes_end(src, q, false)
            },
            None => None,
        }
    } else {
        Some(m)
    }
}

/// Where a plain declarator that starts at token `p` ends: pointers, a name,
/// plain suffixes, and no initializer or one that is a lone operand
/// (`atom_at`) closed by the next token.
pub open spec fn plain_declarator_end(src: Src, p: int) -> Option<int> {
    let k = pointers_end(src, p);
    if 0 <= k < src.toks@.len() && src.toks@[k].kind == TokenKind::Identifier {
        match plain_suffixes_end(src, k + 1, true) {
            Some(e) => if !is_punct(src, e, Punct::Assign) {
                Some(e)
            } else if atom_at(src, e + 1) && closes_expression(src, e + 2) {
                Some(e + 2)
            } else {
                None
            },
            None => None,
        }
    } else {
        None
    }
}

/// A pointer run does not go back, nor past the tokens.
pub proof fn lemma_pointers_end(src: Src, k: int)
    requires
        0 <= k,
    ensures
        k <= pointers_end(src, k),
        k <= src.toks@.len() ==> pointers_end(src, k) <= src.toks@.len(),
    decreases src.toks@.len() - k,
{
    if is_punct(src, k, Punct::Star) {
        lemma_qualifiers_end(src, k + 1);
        lemma_pointers_end(src, qualifiers_end(src, k + 1));
    }
}

/// Where a list of plain declarators separated by commas that starts at
/// token `p` ends.
pub open spec fn plain_declarators_end(src: Src, p: int) -> Option<int>
    decreases src.toks@.len() - p,
{
    if p < 0 {
        None
    } else {
        match plain_declarator_end(src, p) {
            Some(m) => if m <= p {
                None
            } else if is_punct(src, m, Punct::Comma) {
                plain_declarators_end(src, m + 1)
            } else {
                Some(m)
            },
            None => None,
        }
    }
}

/// One plain declarator of a list, and the rest of the list after it.
pub proof fn lemma_plain_declarators_step(src: Src, k: int)
    requires
        0 <= k,
        plain_declarators_end(src, k) is Some,
    ensures
        plain_declarator_end(src, k) is Some,
        k < plain_declarator_end(src, k)->0,
        is_punct(src, plain_declarator_end(src, k)->0, Punct::Comma) ==> plain_declarators_end(src, k)
            == plain_declarators_end(src, plain_declarator_end(src, k)->0 + 1),
        !is_punct(src, plain_declarator_end(src, k)->0, Punct::Comma) ==> plain_declarators_end(src, k) == Some(
            plain_declarator_end(src, k)->0,
        ),
{
    lemma_pointers_end(src, k);
}

/// Where a plain local declaration that starts at token `k` ends: keyword
/// specifiers, then `;`, or plain declarators and `;`.
pub open spec fn plain_local_declaration_end(src: Src, k: int) -> Option<int> {
    match keyword_specifiers_end(src, k) {
        Some(kk) => if is_punct(src, kk, Punct::Semicolon) {
            Some(kk + 1)
        } else {
            match plain_declarators_end(src, kk) {
                Some(m) => if is_punct(src, m, Punct::Semicolon) {
                    Some(m + 1)
                } else {
                    None
                },
                None => None,
            }
        },
        None => None,
    }
}

/// Where the first clause of a plain `for` that starts at token `k` ends,
/// at the `;` after it: nothing, a lone operand, or keyword specifiers and
/// plain declarators.
pub open spec fn plain_for_init_end(src: Src, k: int) -> Option<int> {
    if is_punct(src, k, Punct::Semicolon) {
        Some(k)
    } else if atom_at(src, k) && is_punct(src, k + 1, Punct::Semicolon) {
        Some(k + 1)
    } else {
        match keyword_specifiers_end(src, k) {
            Some(kk) => match plain_declarators_end(src, kk) {
                Some(m) => if is_punct(src, m, Punct::Semicolon) {
                    Some(m)
                } else {
                    None
                },
                None => None,
            },
            None => None,
        }
    }
}

/// Where a plain statement that starts at token `p` ends. A plain statement
/// is `;`, a lone operand and `;`, `break;`, `continue;`, `return;` or
/// `return` with a lone operand, a block of plain items, `if`, `switch` or
/// `while` with a lone operand in parentheses and a plain statement (`if`
/// perhaps with `else` and another), `do` with a plain statement and `while`
/// with a lone operand, `for` with a plain first clause, lone operands or
/// nothing for the others, and a plain statement, or a label, `case` with a
/// lone operand or `default` before a plain statement.
pub open spec fn plain_statement_end(src: Src, p: int) -> Option<int>
    decreases src.toks@.len() - p, 0int,
{
    let n = src.toks@.len();
    if p < 0 || p >= n {
        None
    } else if is_punct(src, p, Punct::Semicolon) {
        Some(p + 1)
    } else if is_punct(src, p, Punct::LBrace) {
        match plain_items_end(src, p + 1) {
            Some(c) => if is_punct(src, c, Punct::RBrace) {
                Some(c + 1)
            } else {
                None
            },
            None => None,
        }
    } else if is_keyword(src, p, Keyword::Break) || is_keyword(src, p, Keyword::Continue) {
        if is_punct(src, p + 1, Punct::Semicolon) {
            Some(p + 2)
        } else {
            None
        }
    } else if is_keyword(src, p, Keyword::Return) {
        if is_punct(src, p + 1, Punct::Semicolon) {
            Some(p + 2)
        } else if atom_at(src, p + 1) && is_punct(src, p + 2, Punct::Semicolon) {
            Some(p + 3)
        } else {
            None
        }
    } else if is_keyword(src, p, Keyword::If) || is_keyword(src, p, Keyword::Switch) || is_keyword(
        src,
        p,
        Keyword::While,
    ) {
        if is_punct(src, p + 1, Punct::LParen) && atom_at(src, p + 2) && is_punct(src, p + 3, Punct::RParen) {
            match plain_statement_end(src, p + 4) {
                Some(e) => if e <= p + 4 || e > n {
                    None
                } else if is_keyword(src, p, Keyword::If) && is_keyword(src, e, Keyword::Else) {
                    plain_statement_end(src, e + 1)
                } else {
                    Some(e)
                },
                None => None,
            }
        } else {
            None
        }
    } else if is_keyword(src, p, Keyword::For) {
        if is_punct(src, p + 1, Punct::LParen) {
            match plain_for_init_end(src, p + 2) {
                Some(a) => {
                    let b = if is_punct(src, a + 1, Punct::Semicolon) {
                        a + 1
                    } else if atom_at(src, a + 1) && is_punct(src, a + 2, Punct::Semicolon) {
                        a + 2
                    } else {
                        -1
                    };
                    let d = if b < 0 {
                        -1
                    } else if is_punct(src, b + 1, Punct::RParen) {
                        b + 1
                    } else if atom_at(src, b + 1) && is_punct(src, b + 2, Punct::RParen) {
                        b + 2
                    } else {
                        -1
                    };
                    if d <= p || d >= n {
                        None
                    } else {
                        plain_statement_end(src, d + 1)
                    }
                },
                None => None,
            }
        } else {
            None
        }
    } else if is_keyword(src, p, Keyword::Do) {
        match plain_statement_end(src, p + 1) {
            Some(e) => if e <= p + 1 || e > n {
                None
            } else if is_keyword(src, e, Keyword::While) && is_punct(src, e + 1, Punct::LParen) && atom_at(src, e + 2)
                && is_punct(src, e + 3, Punct::RParen) && is_punct(src, e + 4, Punct::Semicolon) {
                Some(e + 5)
            } else {
                None
            },
            None => None,
        }
    } else if src.toks@[p].kind == TokenKind::Identifier && is_punct(src, p + 1, Punct::Colon) {
        plain_statement_end(src, p + 2)
    } else if is_keyword(src, p, Keyword::Case) {
        if atom_at(src, p + 1) && is_punct(src, p + 2, Punct::Colon) {
            plain_statement_end(src, p + 3)
        } else {
            None
        }
    } else if is_keyword(src, p, Keyword::Default) {
        if is_punct(src, p + 1, Punct::Colon) {
            plain_statement_end(src, p + 2)
        } else {
            None
        }
    } else if atom_at(src, p) && is_punct(src, p + 1, Punct::Semicolon) {
        Some(p + 2)
    } else {
        None
    }
}

/// Where the plain items of a block from token `k` on end, at the block's
/// closing `}`: plain local declarations, and plain statements that do not
/// start like declaration specifiers.
pub open spec fn plain_items_end(src: Src, k: int) -> Option<int>
    decreases src.toks@.len() - k, 1int,
{
    if k < 0 || k >= src.toks@.len() {
        None
    } else if is_punct(src, k, Punct::RBrace) {
        Some(k)
    } else {
        match plain_local_declaration_end(src, k) {
            Some(d) => if d <= k || d > src.toks@.len() {
                None
            } else {
                plain_items_end(src, d)
            },
            None => if specifiers_stop(src, k, no_specifiers()) {
                match plain_statement_end(src, k) {
                    Some(e) => if e <= k || e > src.toks@.len() {
                        None
                    } else {
                        plain_items_end(src, e)
                    },
                    None => None,
                }
            } else {
                None
            },
        }
    }
}

/// Plain declarators that end at a `;` do not start a function definition:
/// where a name and `(` open them, a plain parameter list follows, and no
/// `{` after it.
pub proof fn lemma_declarators_not_definition(src: Src, k: int)
    requires
        0 <= k,
        plain_declarators_end(src, k) matches Some(m) && is_punct(src, m, Punct::Semicolon),
        pointers_end(src, k) < src.toks@.len(),
        src.toks@[pointers_end(src, k)].kind == TokenKind::Identifier,
        is_punct(src, pointers_end(src, k) + 1, Punct::LParen),
    ensures
        plain_params_end(src, pointers_end(src, k) + 1) matches Some(q) && !is_punct(src, q, Punct::LBrace),
{
    let j = pointers_end(src, k);
    let q = plain_params_end(src, j + 1)->0;
    assert(plain_suffixes_end(src, j + 1, true) == plain_suffixes_end(src, q, false));
    if is_punct(src, q, Punct::LBrace) {
        assert(plain_suffixes_end(src, q, false) == Some(q));
        assert(plain_declarator_end(src, k) == Some(q));
    }
}

/// The tokens `p..q` are a plain declaration: specifier keywords that give
/// a type and at most one storage class and end where no specifier can be
/// read, then `;`, plain declarators and `;`, or the rest of a plain function
/// definition.
pub open spec fn plain_declaration(src: Src, p: int, q: int) -> bool {
    exists|k: int|
        #![trigger keyword_state(src, p, k)]
        p < k <= src.toks@.len() && (keyword_state(src, p, k) matches Some(st) && specifiers_stop(src, k, st)
            && st.0.len() <= 1 && combine_spec(st.3, st.4) is Some && ((is_punct(src, k, Punct::Semicolon) && q == k
            + 1) || (plain_declarators_end(src, k) matches Some(m) && is_punct(src, m, Punct::Semicolon) && q == m
            + 1) || plain_definition_end(src, k) == Some(q)))
}

/// Where a plain function definition whose specifiers end at token `k`
/// ends: pointers, a name, a plain parameter list, and a body that is a
/// plain block.
pub open spec fn plain_definition_end(src: Src, k: int) -> Option<int> {
    let j = pointers_end(src, k);
    if 0 <= j < src.toks@.len() && src.toks@[j].kind == TokenKind::Identifier && is_punct(src, j + 1, Punct::LParen) {
        match plain_params_end(src, j + 1) {
            Some(b) => if is_punct(src, b, Punct::LBrace) {
                plain_statement_end(src, b)
            } else {
                None
            },
            None => None,
        }
    } else {
        None
    }
}

/// The tokens from `p` on are plain declarations, one after another.
pub open spec fn plain_program(src: Src, p: int) -> bool
    decreases src.toks@.len() - p,
{
    if p >= src.toks@.len() {
        p == src.toks@.len()
    } else {
        exists|q: int|
            #![trigger plain_declaration(src, p, q)]
            p < q <= src.toks@.len() && plain_declaration(src, p, q) && plain_program(src, q)
    }
}

proof fn lemma_same_toks_qualifiers(s: Src, t: Src, k: int)
    requires
        s.toks@ == t.toks@,
    ensures
        qualifiers_end(s, k) == qualifiers_end(t, k),
    decreases s.toks@.len() - k,
{
    if qualifier_at(s, k) is Some {
        lemma_same_toks_qualifiers(s, t, k + 1);
    }
}

proof fn lemma_same_toks_pointers(s: Src, t: Src, k: int)
    requires
        s.toks@ == t.toks@,
    ensures
        pointers_end(s, k) == pointers_end(t, k),
    decreases s.toks@.len() - k,
{
    if is_punct(s, k, Punct::Star) {
        lemma_qualifiers_end(s, k + 1);
        lemma_same_toks_qualifiers(s, t, k + 1);
        lemma_same_toks_pointers(s, t, qualifiers_end(s, k + 1));
    }
}

proof fn lemma_same_toks_keywords(s: Src, t: Src, p: int, k: int)
    requires
        s.toks@ == t.toks@,
    ensures
        keyword_state(s, p, k) == keyword_state(t, p, k),
    decreases k - p,
{
    if k > p {
        lemma_same_toks_keywords(s, t, p, k - 1);
    }
}

proof fn lemma_same_toks_scan(s: Src, t: Src, k: int, st: SpecifierState)
    requires
        s.toks@ == t.toks@,
    ensures
        keyword_scan(s, k, st) == keyword_scan(t, k, st),
    decreases s.toks@.len() - k,
{
    if 0 <= k < s.toks@.len() {
        if let Some(st2) = keyword_step(s, k, st) {
            lemma_same_toks_scan(s, t, k + 1, st2);
        }
    }
}

proof fn lemma_same_toks_parameter(s: Src, t: Src, p: int)
    requires
        s.toks@ == t.toks@,
    ensures
        plain_parameter_end(s, p) == plain_parameter_end(t, p),
{
    lemma_same_toks_scan(s, t, p, no_specifiers());
    if let Some(k) = keyword_specifiers_end(s, p) {
        lemma_same_toks_pointers(s, t, k);
    }
}

proof fn lemma_same_toks_params_rest(s: Src, t: Src, k: int)
    requires
        s.toks@ == t.toks@,
    ensures
        plain_params_rest_end(s, k) == plain_params_rest_end(t, k),
    decreases s.toks@.len() - k,
{
    lemma_same_toks_parameter(s, t, k);
    if !is_punct(s, k, Punct::Ellipsis) {
        if let Some(m) = plain_parameter_end(s, k) {
            if m > k && !is_punct(s, m, Punct::RParen) && is_punct(s, m, Punct::Comma) {
                lemma_same_toks_params_rest(s, t, m + 1);
            }
        }
    }
}

proof fn lemma_same_toks_suffixes(s: Src, t: Src, m: int, allowed: bool)
    requires
        s.toks@ == t.toks@,
        s.chars@ == t.chars@,
    ensures
        plain_suffixes_end(s, m, allowed) == plain_suffixes_end(t, m, allowed),
    decreases s.toks@.len() - m,
{
    if m >= 0 {
        if is_punct(s, m, Punct::LBracket) {
            if atom_at(s, m + 1) && is_punct(s, m + 2, Punct::RBracket) {
                lemma_same_toks_suffixes(s, t, m + 3, allowed);
            }
        } else if allowed && is_punct(s, m, Punct::LParen) {
            if !is_punct(s, m + 1, Punct::RParen) {
                lemma_same_toks_params_rest(s, t, m + 1);
            }
            if let Some(q) = plain_params_end(s, m) {
                if m < q <= s.toks@.len() {
                    lemma_same_toks_suffixes(s, t, q, false);
                }
            }
        }
    }
}

proof fn lemma_same_toks_local(s: Src, t: Src, k: int)
    requires
        s.toks@ == t.toks@,
        s.chars@ == t.chars@,
    ensures
        plain_local_declaration_end(s, k) == plain_local_declaration_end(t, k),
        plain_for_init_end(s, k) == plain_for_init_end(t, k),
{
    lemma_same_toks_scan(s, t, k, no_specifiers());
    if let Some(kk) = keyword_specifiers_end(s, k) {
        lemma_same_toks_declarators(s, t, kk);
    }
}

proof fn lemma_same_toks_statement(s: Src, t: Src, p: int)
    requires
        s.toks@ == t.toks@,
        s.chars@ == t.chars@,
    ensures
        plain_statement_end(s, p) == plain_statement_end(t, p),
    decreases s.toks@.len() - p, 0int,
{
    let n = s.toks@.len();
    if 0 <= p < n {
        if is_punct(s, p, Punct::LBrace) {
            lemma_same_toks_items(s, t, p + 1);
        } else if is_keyword(s, p, Keyword::If) || is_keyword(s, p, Keyword::Switch) || is_keyword(s, p, Keyword::While) {
            if is_punct(s, p + 1, Punct::LParen) && atom_at(s, p + 2) && is_punct(s, p + 3, Punct::RParen) {
                lemma_same_toks_statement(s, t, p + 4);
                if let Some(e) = plain_statement_end(s, p + 4) {
                    if p + 4 < e <= n && is_keyword(s, e, Keyword::Else) {
                        lemma_same_toks_statement(s, t, e + 1);
                    }
                }
            }
        } else if is_keyword(s, p, Keyword::For) {
            lemma_same_toks_local(s, t, p + 2);
            if let Some(a) = plain_for_init_end(s, p + 2) {
                let b = if is_punct(s, a + 1, Punct::Semicolon) {
                    a + 1
                } else if atom_at(s, a + 1) && is_punct(s, a + 2, Punct::Semicolon) {
                    a + 2
                } else {
                    -1
                };
                let d = if b < 0 {
                    -1
                } else if is_punct(s, b + 1, Punct::RParen) {
                    b + 1
                } else if atom_at(s, b + 1) && is_punct(s, b + 2, Punct::RParen) {
                    b + 2
                } else {
                    -1
                };
                if p < d < n {
                    lemma_same_toks_statement(s, t, d + 1);
                }
            }
        } else if is_keyword(s, p, Keyword::Do) {
            lemma_same_toks_statement(s, t, p + 1);
        } else if s.toks@[p].kind == TokenKind::Identifier && is_punct(s, p + 1, Punct::Colon) {
            lemma_same_toks_statement(s, t, p + 2);
        } else if is_keyword(s, p, Keyword::Case) {
            if atom_at(s, p + 1) && is_punct(s, p + 2, Punct::Colon) {
                lemma_same_toks_statement(s, t, p + 3);
            }
        } else if is_keyword(s, p, Keyword::Default) {
            if is_punct(s, p + 1, Punct::Colon) {
                lemma_same_toks_statement(s, t, p + 2);
            }
        }
    }
}

proof fn lemma_same_toks_items(s: Src, t: Src, k: int)
    requires
        s.toks@ == t.toks@,
        s.chars@ == t.chars@,
    ensures
        plain_items_end(s, k) == plain_items_end(t, k),
    decreases s.toks@.len() - k, 1int,
{
    if 0 <= k < s.toks@.len() && !is_punct(s, k, Punct::RBrace) {
        lemma_same_toks_local(s, t, k);
        match plain_local_declaration_end(s, k) {
            Some(d) => {
                if k < d <= s.toks@.len() {
                    lemma_same_toks_items(s, t, d);
                }
            },
            None => {
                lemma_same_toks_statement(s, t, k);
                if let Some(e) = plain_statement_end(s, k) {
                    if k < e <= s.toks@.len() {
                        lemma_same_toks_items(s, t, e);
                    }
                }
            },
        }
    }
}

proof fn lemma_same_toks_declarators(s: Src, t: Src, p: int)
    requires
        s.toks@ == t.toks@,
        s.chars@ == t.chars@,
    ensures
        plain_declarators_end(s, p) == plain_declarators_end(t, p),
    decreases s.toks@.len() - p,
{
    if p >= 0 {
        lemma_same_toks_pointers(s, t, p);
        let k = pointers_end(s, p);
        lemma_same_toks_suffixes(s, t, k + 1, true);
        if let Some(m) = plain_declarator_end(s, p) {
            if m > p && is_punct(s, m, Punct::Comma) {
                lemma_same_toks_declarators(s, t, m + 1);
            }
        }
    }
}

/// Whether the tokens are plain declarations depends on the text and its
/// tokens alone.
pub proof fn lemma_same_toks_program(s: Src, t: Src, p: int)
    requires
        s.toks@ == t.toks@,
        s.chars@ == t.chars@,
        plain_program(s, p),
    ensures
        plain_program(t, p),
    decreases s.toks@.len() - p,
{
    if p < s.toks@.len() {
        let q = choose|q: int|
            #![trigger plain_declaration(s, p, q)]
            p < q <= s.toks@.len() && plain_declaration(s, p, q) && plain_program(s, q);
        let k = choose|k: int|
            #![trigger keyword_state(s, p, k)]
            p < k <= s.toks@.len() && (keyword_state(s, p, k) matches Some(st) && specifiers_stop(s, k, st)
                && st.0.len() <= 1 && combine_spec(st.3, st.4) is Some && ((is_punct(s, k, Punct::Semicolon) && q
                == k + 1) || (plain_declarators_end(s, k) matches Some(m) && is_punct(s, m, Punct::Semicolon) && q
                == m + 1) || plain_definition_end(s, k) == Some(q)));
        lemma_same_toks_keywords(s, t, p, k);
        lemma_same_toks_declarators(s, t, k);
        lemma_same_toks_pointers(s, t, k);
        let j = pointers_end(s, k);
        if !is_punct(s, j + 2, Punct::RParen) {
            lemma_same_toks_params_rest(s, t, j + 2);
        }
        if let Some(b) = plain_params_end(s, j + 1) {
            lemma_same_toks_statement(s, t, b);
        }
        assert(plain_definition_end(s, k) == plain_definition_end(t, k));
        assert(plain_declaration(t, p, q));
        lemma_same_toks_program(s, t, q);
    }
}

/// The tokens `i..j` are declaration specifiers read from the start into the
/// state `st`, each a single token (`specifier_step`) or a struct or union
/// specifier read before any type keyword.
pub open spec fn specifier_fold(src: Src, i: int, j: int, st: SpecifierState) -> bool
    decreases j - i, 1int,
{
    if j <= i {
        i == j && st == no_specifiers()
    } else {
        ||| exists|k: int, prev: SpecifierState|
            #![trigger specifier_step(src, k, prev, st)]
            k == j - 1 && i <= k && specifier_fold(src, i, k, prev) && specifier_step(src, k, prev, st)
        ||| exists|a: int, prev: SpecifierState, b: BaseType|
            #![trigger src.toks@[a], with_type_name(prev, b)]
            i <= a < j && specifier_fold(src, i, a, prev) && no_type(prev) && struct_rel(src, a, j, b) && st
                == with_type_name(prev, b)
    }
}

/// The tokens `i..j` are declaration specifiers that give the type `ty`:
/// at most one storage class (`auto` when there is none), the function
/// specifiers and qualifiers in order, and the type their type keywords and
/// names give (`combine_spec`).
pub open spec fn specifiers_rel(src: Src, i: int, j: int, ty: Type) -> bool
    decreases j - i, 2int,
{
    0 <= i < j <= src.toks@.len() && exists|st: SpecifierState|
        #![trigger combine_spec(st.3, st.4)]
        specifier_fold(src, i, j, st) && st.0.len() <= 1 && ty.storage_class_specifier == (if st.0.len() == 1 {
            st.0[0]
        } else {
            StorageClassSpecifier::Auto
        }) && ty.function_specifier@ == st.1 && ty.basic_type.qualifier@ == st.2 && combine_spec(st.3, st.4) == Some(
            ty.basic_type.base_type,
        )
}

/// The tokens `i..j` are a struct or union specifier standing for `b`:
/// `struct` or `union`, an optional name, and an optional member list in
/// braces. A named one stands for the struct or union of that name (its
/// members, when listed, are defined on their own, see `struct_body_rel`);
/// an unnamed one stands for its members, when listed, each declared in the
/// list (`member_decls`).
pub open spec fn struct_rel(src: Src, i: int, j: int, b: BaseType) -> bool
    decreases j - i, 0int,
{
    &&& 0 <= i < j <= src.toks@.len()
    &&& (is_keyword(src, i, Keyword::Struct) || is_keyword(src, i, Keyword::Union))
    &&& {
        let named = i + 1 < src.toks@.len() && src.toks@[i + 1].kind == TokenKind::Identifier;
        let n = if named {
            i + 2
        } else {
            i + 1
        };
        let body = j > n;
        &&& n <= j
        &&& body ==> (is_punct(src, n, Punct::LBrace) && is_punct(src, j - 1, Punct::RBrace) && j >= n + 2)
        &&& !body ==> !is_punct(src, n, Punct::LBrace)
        &&& if named {
            (is_keyword(src, i, Keyword::Struct) && (b matches BaseType::Struct(Some(nm), None) && nm@ == tok_text(
                src,
                i + 1,
            ))) || (is_keyword(src, i, Keyword::Union) && (b matches BaseType::Union(Some(nm), None) && nm@
                == tok_text(src, i + 1)))
        } else {
            (is_keyword(src, i, Keyword::Struct) && (b matches BaseType::Struct(None, ms) && (ms is Some == body)
                && (ms matches Some(l) ==> member_decls(src, n + 1, j - 1, l@)))) || (is_keyword(src, i, Keyword::Union)
                && (b matches BaseType::Union(None, ms) && (ms is Some == body) && (ms matches Some(l) ==> member_decls(
                src,
                n + 1,
                j - 1,
                l@,
            ))))
        }
    }
}


/// The characters of a name, if there is one.
pub open spec fn name_view(n: Option<String>) -> Option<Seq<char>> {
    match n {
        Some(s) => Some(s@),
        None => None,
    }
}

/// The name part of a declarator over the tokens `k..m`: an identifier
/// naming it, or nothing when the declarator may be abstract and no
/// identifier stands there.
pub open spec fn name_part(src: Src, k: int, m: int, abstract_ok: bool, name: Option<Seq<char>>) -> bool {
    if 0 <= k < src.toks@.len() && src.toks@[k].kind == TokenKind::Identifier {
        m == k + 1 && name == Some(tok_text(src, k))
    } else {
        m == k && abstract_ok && name is None
    }
}

/// The type that a declarator's suffixes make of `pbt`: with a parameter
/// list (its types and whether it is variadic) a function returning `pbt`,
/// and with array lengths an array of that, of all the lengths.
pub open spec fn function_of(pbt: BasicType, func: Option<(Seq<(BasicType, Option<String>)>, bool)>, fbt: BasicType) -> bool {
    match func {
        None => fbt == pbt,
        Some((ps, v)) => fbt.qualifier@.len() == 0 && (fbt.base_type matches BaseType::Function(r, pts, pv) && *r
            == pbt && pts@ == param_types(ps) && pv == v),
    }
}

/// The types of parameters.
pub open spec fn param_types(ps: Seq<(BasicType, Option<String>)>) -> Seq<BasicType> {
    ps.map_values(|p: (BasicType, Option<String>)| p.0)
}

/// See `function_of`; `dims` are the array lengths.
pub open spec fn suffix_type(
    pbt: BasicType,
    dims: Seq<Expression>,
    func: Option<(Seq<(BasicType, Option<String>)>, bool)>,
    out: BasicType,
) -> bool {
    if dims.len() == 0 {
        function_of(pbt, func, out)
    } else {
        out.qualifier@.len() == 0 && (out.base_type matches BaseType::Array(b, ds) && ds@ == dims && function_of(
            pbt,
            func,
            *b,
        ))
    }
}

/// The tokens `m..j` are declarator suffixes: array lengths `[ assignment
/// expression ]` (the lengths `dims`, in order) and at most one parameter
/// list (`func`).
pub open spec fn suffix_groups(
    src: Src,
    m: int,
    j: int,
    dims: Seq<Expression>,
    func: Option<(Seq<(BasicType, Option<String>)>, bool)>,
) -> bool
    decreases j - m, 7int,
{
    if j <= m {
        j == m && dims.len() == 0 && func is None
    } else {
        ||| (dims.len() > 0 && exists|a: int|
            #![trigger is_punct(src, a, Punct::LBracket)]
            m <= a && a + 2 < j && is_punct(src, a, Punct::LBracket) && is_punct(src, j - 1, Punct::RBracket)
                && assignment(src, a + 1, j - 1, dims.last()) && suffix_groups(src, m, a, dims.drop_last(), func))
        ||| (func matches Some((ts, v)) && exists|a: int|
            #![trigger is_punct(src, a, Punct::LParen)]
            m <= a && a + 2 <= j && is_punct(src, a, Punct::LParen) && params_rel(src, a, j, ts, v) && suffix_groups(
                src,
                m,
                a,
                dims,
                None,
            ))
    }
}

/// The tokens `a..b` are a parameter list `( ... )` with the parameters
/// `ts` (types and names), variadic when it ends with `...`.
pub open spec fn params_rel(src: Src, a: int, b: int, ts: Seq<(BasicType, Option<String>)>, v: bool) -> bool
    decreases b - a, 6int,
{
    &&& 0 <= a && a + 2 <= b <= src.toks@.len()
    &&& is_punct(src, a, Punct::LParen)
    &&& is_punct(src, b - 1, Punct::RParen)
    &&& ((a + 2 == b && ts.len() == 0 && !v) || param_list(src, a + 1, b - 1, ts, v))
}

/// The tokens `p..q` inside the parentheses of a parameter list: `...`
/// alone, parameters, or parameters then `, ...`.
pub open spec fn param_list(src: Src, p: int, q: int, ts: Seq<(BasicType, Option<String>)>, v: bool) -> bool
    decreases q - p, 5int,
{
    if v {
        (ts.len() == 0 && q == p + 1 && is_punct(src, p, Punct::Ellipsis)) || (ts.len() > 0 && p + 2 < q
            && is_punct(src, q - 1, Punct::Ellipsis) && is_punct(src, q - 2, Punct::Comma) && param_items(
            src,
            p,
            q - 2,
            ts,
        ))
    } else {
        ts.len() > 0 && param_items(src, p, q, ts)
    }
}

/// The tokens `p..q` are the parameters `ts` separated by commas.
pub open spec fn param_items(src: Src, p: int, q: int, ts: Seq<(BasicType, Option<String>)>) -> bool
    decreases q - p, 4int,
{
    if ts.len() == 1 {
        parameter_rel(src, p, q, ts[0].0, name_view(ts[0].1))
    } else {
        ts.len() > 1 && exists|c: int|
            #![trigger is_punct(src, c, Punct::Comma)]
            p < c && c + 1 < q && is_punct(src, c, Punct::Comma) && param_items(src, p, c, ts.drop_last())
                && parameter_rel(src, c + 1, q, ts.last().0, name_view(ts.last().1))
    }
}

/// The tokens `a..b` are a parameter of type `t` named `name`: specifiers
/// and a declarator whose name may be absent.
pub open spec fn parameter_rel(src: Src, a: int, b: int, t: BasicType, name: Option<Seq<char>>) -> bool
    decreases b - a, 3int,
{
    exists|k: int, ty: Type|
        #![trigger parameter_split(a, k, b, ty)]
        parameter_split(a, k, b, ty) && specifiers_rel(src, a, k, ty) && declarator_rel(src, k, b, ty.basic_type, true, t, name)
}

/// Where specifiers that begin at `a` end (`k`), within `a..b`, and the
/// type they give.
pub open spec fn parameter_split(a: int, k: int, b: int, ty: Type) -> bool {
    a < k <= b
}

/// The tokens `i..j` are a type name denoting `t`, as in a cast or in
/// `sizeof`: specifiers with no storage class, then a declarator without a
/// name.
pub open spec fn type_name_at(src: Src, i: int, j: int, t: BasicType) -> bool
    decreases j - i, 11int,
{
    &&& 0 <= i < j <= src.toks@.len()
    &&& exists|k: int, ty: Type|
        #![trigger parameter_split(i, k, j, ty)]
        parameter_split(i, k, j, ty) && specifiers_rel(src, i, k, ty) && ty.storage_class_specifier
            == StorageClassSpecifier::Auto && declarator_rel(src, k, j, ty.basic_type, true, t, None)
}


/// The tokens `i..j` are a declarator that makes of the type `bt` the type
/// `out` and declares `name`: pointers, a name (absent only when
/// `abstract_ok`), then suffixes.
pub open spec fn declarator_rel(
    src: Src,
    i: int,
    j: int,
    bt: BasicType,
    abstract_ok: bool,
    out: BasicType,
    name: Option<Seq<char>>,
) -> bool
    decreases j - i, 8int,
{
    exists|k: int, m: int, pbt: BasicType, dims: Seq<Expression>, func: Option<(Seq<(BasicType, Option<String>)>, bool)>|
        #![trigger pointers_rel(src, i, k, bt, pbt), name_part(src, k, m, abstract_ok, name), suffix_type(pbt, dims, func, out)]
        0 <= i <= k <= m <= j <= src.toks@.len() && pointers_rel(src, i, k, bt, pbt) && name_part(
            src,
            k,
            m,
            abstract_ok,
            name,
        ) && suffix_groups(src, m, j, dims, func) && suffix_type(pbt, dims, func, out)
}


/// The declarator over the tokens `p..q` declares the member `m`: it makes
/// of a copy of the specifiers' type `ty` the member's type, and names the
/// member.
pub open spec fn member_item(src: Src, p: int, q: int, ty: Type, m: StructMember) -> bool
    decreases q - p, 9int,
{
    exists|b: BasicType|
        #![trigger same_basic_type(b, ty.basic_type)]
        same_basic_type(b, ty.basic_type) && declarator_rel(src, p, q, b, false, m.member_type, Some(m.member_name@))
}

/// The tokens `p..q` are declarators separated by commas, declaring the
/// members `ms` in order.
pub open spec fn member_declarators(src: Src, p: int, q: int, ty: Type, ms: Seq<StructMember>) -> bool
    decreases q - p, 10int,
{
    if ms.len() == 0 {
        false
    } else if ms.len() == 1 {
        p < q && member_item(src, p, q, ty, ms[0])
    } else {
        exists|c: int|
            #![trigger is_punct(src, c, Punct::Comma)]
            p < c && c + 1 < q && is_punct(src, c, Punct::Comma) && member_declarators(src, p, c, ty, ms.drop_last())
                && member_item(src, c + 1, q, ty, ms.last())
    }
}

/// The tokens `a..b` are one member declaration: specifiers, then `;` alone
/// or declarators and `;`, declaring the members `ms` in order.
pub open spec fn member_declaration(src: Src, a: int, b: int, ms: Seq<StructMember>) -> bool
    decreases b - a, 11int,
{
    exists|k: int, ty: Type|
        #![trigger parameter_split(a, k, b, ty)]
        parameter_split(a, k, b, ty) && k < b && specifiers_rel(src, a, k, ty) && is_punct(src, b - 1, Punct::Semicolon)
            && ((ms.len() == 0 && k == b - 1) || member_declarators(src, k, b - 1, ty, ms))
}

/// Where the last member declaration of a stretch begins, and how many
/// members it declares.
pub open spec fn members_split(a: int, c: int) -> bool {
    a >= 0 && c >= 0
}

/// The tokens `lo..hi` are member declarations one after another, declaring
/// the members `ms` in order.
pub open spec fn member_decls(src: Src, lo: int, hi: int, ms: Seq<StructMember>) -> bool
    decreases hi - lo, 12int,
{
    if hi <= lo {
        hi == lo && ms.len() == 0
    } else {
        exists|a: int, c: int|
            #![trigger members_split(a, c)]
            members_split(a, c) && lo <= a < hi && c <= ms.len() && member_decls(src, lo, a, ms.take(ms.len() - c))
                && member_declaration(src, a, hi, ms.skip(ms.len() - c))
    }
}

/// The tokens `a..b` define the struct or union `bt` with a name:
/// `struct` or `union`, the name, and its member list in braces, each
/// member declared in the list.
pub open spec fn struct_body_rel(src: Src, a: int, b: int, bt: BaseType) -> bool
    decreases b - a, 0int,
{
    &&& 0 <= a && a + 4 <= b <= src.toks@.len()
    &&& src.toks@[a + 1].kind == TokenKind::Identifier
    &&& is_punct(src, a + 2, Punct::LBrace)
    &&& is_punct(src, b - 1, Punct::RBrace)
    &&& ((is_keyword(src, a, Keyword::Struct) && (bt matches BaseType::Struct(Some(nm), Some(ms)) && nm@ == tok_text(
        src,
        a + 1,
    ) && member_decls(src, a + 3, b - 1, ms@))) || (is_keyword(src, a, Keyword::Union)
        && (bt matches BaseType::Union(Some(nm), Some(ms)) && nm@ == tok_text(src, a + 1) && member_decls(
        src,
        a + 3,
        b - 1,
        ms@,
    ))))
}

/// The declaration node of a variable declared by the init declarator over
/// the tokens `p..q`, in a declaration whose specifiers give `ty`: its type
/// is what the declarator makes of the specifiers' type (of a copy of it,
/// `same_basic_type`), with their function specifiers and storage class, and
/// its initializer, when there is one, is the assignment expression after
/// `=`, which ends where no operator could continue it.
pub open spec fn variable_rel(src: Src, p: int, q: int, ty: Type, node: DeclarationEnum) -> bool {
    node matches DeclarationEnum::Declaration(t, Some(nm), init) && t.function_specifier@ == ty.function_specifier@
        && t.storage_class_specifier == ty.storage_class_specifier && exists|e: int, b: BasicType|
        #![trigger declarator_rel(src, p, e, b, false, t.basic_type, Some(nm@))]
        p < e <= q && same_basic_type(b, ty.basic_type) && declarator_rel(src, p, e, b, false, t.basic_type, Some(nm@))
            && match init {
            None => e == q,
            Some(x) => e + 1 < q && is_punct(src, e, Punct::Assign) && assignment(src, e + 1, q, *x)
                && expression_stops(src, q),
        }
}

/// A variable declared within the tokens `lo..hi`: specifiers there give
/// `ty`, and an init declarator after them declares it (`variable_rel`).
/// When `spanned`, the declaration spans the init declarator.
pub open spec fn variable_in(src: Src, lo: int, hi: int, d: Declaration, spanned: bool) -> bool {
    exists|a: int, k: int, p: int, q: int, ty: Type|
        #![trigger specifiers_rel(src, a, k, ty), variable_rel(src, p, q, ty, d.node)]
        lo <= a < k <= p < q <= hi && specifiers_rel(src, a, k, ty) && variable_rel(src, p, q, ty, d.node) && (spanned
            ==> d.span == tok_span(src, p, q))
}

/// A struct or union defined within the tokens `lo..hi`, declared on its
/// own with no storage class, specifier or qualifier (`struct_body_rel`).
/// When `spanned`, the declaration spans the struct or union specifier.
pub open spec fn struct_defined_in(src: Src, lo: int, hi: int, d: Declaration, spanned: bool) -> bool {
    d.node matches DeclarationEnum::Declaration(t, None, None) && t.function_specifier@.len() == 0
        && t.storage_class_specifier == StorageClassSpecifier::Auto && t.basic_type.qualifier@.len() == 0 && exists|
        a: int,
        b: int,
    |
        #![trigger struct_body_rel(src, a, b, t.basic_type.base_type)]
        lo <= a < b <= hi && struct_body_rel(src, a, b, t.basic_type.base_type) && (spanned ==> d.span == tok_span(
            src,
            a,
            b,
        ))
}

/// A function defined within the tokens `lo..hi`: specifiers giving its
/// function specifiers, storage class and (through pointers, from a copy of
/// their type) its return type, its name, its parameter list, and its body,
/// a statement starting with `{`. The definition spans all of these.
pub open spec fn function_defined_in(src: Src, lo: int, hi: int, d: Declaration) -> bool {
    d.node matches DeclarationEnum::FunctionDefinition(fs, sc, ret, name, params, v, body) && exists|
        a: int,
        k: int,
        k1: int,
        k2: int,
        k3: int,
        ty: Type,
        b: BasicType,
    |
        #![trigger specifiers_rel(src, a, k, ty), pointers_rel(src, k, k1, b, *ret), statement(src, k2, k3, body)]
        lo <= a < k <= k1 && k1 + 1 < k2 < k3 <= hi && specifiers_rel(src, a, k, ty) && fs@ == ty.function_specifier@
            && sc == ty.storage_class_specifier && same_basic_type(b, ty.basic_type) && pointers_rel(
            src,
            k,
            k1,
            b,
            *ret,
        ) && src.toks@[k1].kind == TokenKind::Identifier && name@ == tok_text(src, k1) && params_rel(
            src,
            k1 + 1,
            k2,
            params@,
            v,
        ) && is_punct(src, k2, Punct::LBrace) && statement(src, k2, k3, body) && d.span == tok_span(src, a, k3)
}

/// The declaration `d` is a variable declared, or a struct or union
/// defined, within the tokens `lo..hi` (no function definition); when
/// `spanned`, with the span of its declarator or specifier.
pub open spec fn local_declaration_in(src: Src, lo: int, hi: int, d: Declaration, spanned: bool) -> bool {
    match d.node {
        DeclarationEnum::FunctionDefinition(..) => false,
        DeclarationEnum::Declaration(_, Some(_), _) => variable_in(src, lo, hi, d, spanned),
        DeclarationEnum::Declaration(_, None, _) => struct_defined_in(src, lo, hi, d, spanned),
    }
}

/// The declaration `d` is one that the tokens `lo..hi` declare or define,
/// with its span.
pub open spec fn declaration_in(src: Src, lo: int, hi: int, d: Declaration) -> bool {
    match d.node {
        DeclarationEnum::FunctionDefinition(..) => function_defined_in(src, lo, hi, d),
        _ => local_declaration_in(src, lo, hi, d, true),
    }
}

/// `new` is `old` followed by variables declared, and structs and unions
/// defined, within the tokens `lo..hi`, with their spans
/// (`local_declaration_in`).
pub open spec fn pushed_in(src: Src, lo: int, hi: int, old: Seq<Declaration>, new: Seq<Declaration>) -> bool {
    &&& new.len() >= old.len()
    &&& new.take(old.len() as int) == old
    &&& forall|q: int| old.len() <= q < new.len() ==> local_declaration_in(src, lo, hi, #[trigger] new[q], true)
}

/// `new` is `old` followed by declarations that the tokens `lo..hi`
/// declare or define, function definitions among them.
pub open spec fn declared_in(src: Src, lo: int, hi: int, old: Seq<Declaration>, new: Seq<Declaration>) -> bool {
    &&& new.len() >= old.len()
    &&& new.take(old.len() as int) == old
    &&& forall|q: int| old.len() <= q < new.len() ==> declaration_in(src, lo, hi, #[trigger] new[q])
}

/// A declaration made within some tokens is made within any wider stretch.
pub proof fn lemma_declaration_in_widen(src: Src, lo: int, hi: int, lo2: int, hi2: int, d: Declaration)
    requires
        declaration_in(src, lo, hi, d),
        lo2 <= lo,
        hi <= hi2,
    ensures
        declaration_in(src, lo2, hi2, d),
{
    match d.node {
        DeclarationEnum::FunctionDefinition(fs, sc, ret, name, params, v, body) => {
            let (a, k, k1, k2, k3, ty, b): (int, int, int, int, int, Type, BasicType) = choose|
                a: int,
                k: int,
                k1: int,
                k2: int,
                k3: int,
                ty: Type,
                b: BasicType,
            |
                lo <= a < k <= k1 && k1 + 1 < k2 < k3 <= hi && specifiers_rel(src, a, k, ty) && fs@
                    == ty.function_specifier@ && sc == ty.storage_class_specifier && same_basic_type(b, ty.basic_type)
                    && pointers_rel(src, k, k1, b, *ret) && src.toks@[k1].kind == TokenKind::Identifier && name@
                    == tok_text(src, k1) && params_rel(src, k1 + 1, k2, params@, v) && is_punct(src, k2, Punct::LBrace)
                    && statement(src, k2, k3, body) && d.span == tok_span(src, a, k3);
            assert(specifiers_rel(src, a, k, ty) && pointers_rel(src, k, k1, b, *ret) && statement(src, k2, k3, body));
        },
        _ => {
            lemma_local_declaration_in_widen(src, lo, hi, lo2, hi2, d, true);
        },
    }
}

/// A variable or struct declared within some tokens is declared within any
/// wider stretch.
pub proof fn lemma_local_declaration_in_widen(
    src: Src,
    lo: int,
    hi: int,
    lo2: int,
    hi2: int,
    d: Declaration,
    spanned: bool,
)
    requires
        local_declaration_in(src, lo, hi, d, spanned),
        lo2 <= lo,
        hi <= hi2,
    ensures
        local_declaration_in(src, lo2, hi2, d, spanned),
{
    match d.node {
        DeclarationEnum::FunctionDefinition(..) => {},
        DeclarationEnum::Declaration(_, Some(_), _) => {
            let (a, k, p, q, ty): (int, int, int, int, Type) = choose|a: int, k: int, p: int, q: int, ty: Type|
                #![trigger specifiers_rel(src, a, k, ty), variable_rel(src, p, q, ty, d.node)]
                lo <= a < k <= p < q <= hi && specifiers_rel(src, a, k, ty) && variable_rel(src, p, q, ty, d.node) && (
                spanned ==> d.span == tok_span(src, p, q));
            assert(specifiers_rel(src, a, k, ty) && variable_rel(src, p, q, ty, d.node));
        },
        DeclarationEnum::Declaration(t, None, _) => {
            let (a, b): (int, int) = choose|a: int, b: int|
                #![trigger struct_body_rel(src, a, b, t.basic_type.base_type)]
                lo <= a < b <= hi && struct_body_rel(src, a, b, t.basic_type.base_type) && (spanned ==> d.span
                    == tok_span(src, a, b));
            assert(struct_body_rel(src, a, b, t.basic_type.base_type));
        },
    }
}

/// A variable or struct declared with its span is declared, and so is
/// any declaration with the same node and another span.
pub proof fn lemma_local_declaration_respan(src: Src, lo: int, hi: int, d: Declaration, d2: Declaration)
    requires
        local_declaration_in(src, lo, hi, d, true),
        d2.node == d.node,
    ensures
        local_declaration_in(src, lo, hi, d2, false),
{
    match d.node {
        DeclarationEnum::FunctionDefinition(..) => {},
        DeclarationEnum::Declaration(_, Some(_), _) => {
            let (a, k, p, q, ty): (int, int, int, int, Type) = choose|a: int, k: int, p: int, q: int, ty: Type|
                #![trigger specifiers_rel(src, a, k, ty), variable_rel(src, p, q, ty, d.node)]
                lo <= a < k <= p < q <= hi && specifiers_rel(src, a, k, ty) && variable_rel(src, p, q, ty, d.node)
                    && d.span == tok_span(src, p, q);
            assert(specifiers_rel(src, a, k, ty) && variable_rel(src, p, q, ty, d2.node));
        },
        DeclarationEnum::Declaration(t, None, _) => {
            let (a, b): (int, int) = choose|a: int, b: int|
                #![trigger struct_body_rel(src, a, b, t.basic_type.base_type)]
                lo <= a < b <= hi && struct_body_rel(src, a, b, t.basic_type.base_type) && d.span == tok_span(src, a, b);
            assert(struct_body_rel(src, a, b, t.basic_type.base_type));
        },
    }
}

/// Pushing declarations made within `lo..k` and then within `k..hi` pushes
/// declarations made within `lo..hi`.
pub proof fn lemma_pushed_in_trans(
    src: Src,
    lo: int,
    k: int,
    hi: int,
    a: Seq<Declaration>,
    b: Seq<Declaration>,
    c: Seq<Declaration>,
)
    requires
        pushed_in(src, lo, k, a, b),
        pushed_in(src, k, hi, b, c),
        lo <= k <= hi,
    ensures
        pushed_in(src, lo, hi, a, c),
{
    assert(c.take(a.len() as int) =~= c.take(b.len() as int).take(a.len() as int));
    assert forall|q: int| a.len() <= q < c.len() implies local_declaration_in(src, lo, hi, #[trigger] c[q], true) by {
        if q < b.len() {
            assert(c[q] == c.take(b.len() as int)[q]);
            assert(local_declaration_in(src, lo, k, b[q], true));
            lemma_local_declaration_in_widen(src, lo, k, lo, hi, b[q], true);
        } else {
            lemma_local_declaration_in_widen(src, k, hi, lo, hi, c[q], true);
        }
    }
}

/// Nothing pushed is pushed within any stretch.
pub proof fn lemma_pushed_in_none(src: Src, lo: int, hi: int, a: Seq<Declaration>)
    ensures
        pushed_in(src, lo, hi, a, a),
{
    assert(a.take(a.len() as int) =~= a);
}

/// Pushing one declaration made within `lo..hi` after declarations made
/// within it.
pub proof fn lemma_pushed_in_push(src: Src, lo: int, hi: int, a: Seq<Declaration>, b: Seq<Declaration>, d: Declaration)
    requires
        pushed_in(src, lo, hi, a, b),
        local_declaration_in(src, lo, hi, d, true),
    ensures
        pushed_in(src, lo, hi, a, b.push(d)),
{
    assert(b.push(d).take(a.len() as int) =~= b.take(a.len() as int));
    assert forall|q: int| a.len() <= q < b.push(d).len() implies local_declaration_in(src, lo, hi, #[trigger] b.push(d)[q], true) by {
        if q < b.len() {
            assert(b.push(d)[q] == b[q]);
        }
    }
}

/// Widening the stretch keeps what was pushed within it.
pub proof fn lemma_pushed_in_widen(
    src: Src,
    lo: int,
    hi: int,
    lo2: int,
    hi2: int,
    a: Seq<Declaration>,
    b: Seq<Declaration>,
)
    requires
        pushed_in(src, lo, hi, a, b),
        lo2 <= lo,
        hi <= hi2,
    ensures
        pushed_in(src, lo2, hi2, a, b),
{
    assert forall|q: int| a.len() <= q < b.len() implies local_declaration_in(src, lo2, hi2, #[trigger] b[q], true) by {
        lemma_local_declaration_in_widen(src, lo, hi, lo2, hi2, b[q], true);
    }
}

/// Declarations pushed within `lo..hi` onto ones pushed within it are
/// pushed within it.
pub proof fn lemma_pushed_in_chain(
    src: Src,
    lo: int,
    hi: int,
    a: Seq<Declaration>,
    b: Seq<Declaration>,
    c: Seq<Declaration>,
)
    requires
        pushed_in(src, lo, hi, a, b),
        pushed_in(src, lo, hi, b, c),
    ensures
        pushed_in(src, lo, hi, a, c),
{
    assert(c.take(a.len() as int) =~= c.take(b.len() as int).take(a.len() as int));
    assert forall|q: int| a.len() <= q < c.len() implies local_declaration_in(src, lo, hi, #[trigger] c[q], true) by {
        if q < b.len() {
            assert(c[q] == c.take(b.len() as int)[q]);
        }
    }
}

/// Appending declarations made within `lo..hi` pushes them.
pub proof fn lemma_pushed_in_append(src: Src, lo: int, hi: int, a: Seq<Declaration>, s: Seq<Declaration>)
    requires
        pushed_in(src, lo, hi, Seq::empty(), s),
    ensures
        pushed_in(src, lo, hi, a, a + s),
{
    assert((a + s).take(a.len() as int) =~= a);
    assert forall|q: int| a.len() <= q < (a + s).len() implies local_declaration_in(src, lo, hi, #[trigger] (a + s)[q], true) by {
        assert((a + s)[q] == s[q - a.len()]);
        assert(local_declaration_in(src, lo, hi, s[q - a.len()], true));
    }
}

/// Variables and structs pushed are declarations declared.
pub proof fn lemma_declared_from_pushed(src: Src, lo: int, hi: int, a: Seq<Declaration>, b: Seq<Declaration>)
    requires
        pushed_in(src, lo, hi, a, b),
    ensures
        declared_in(src, lo, hi, a, b),
{
    assert forall|q: int| a.len() <= q < b.len() implies declaration_in(src, lo, hi, #[trigger] b[q]) by {
        assert(local_declaration_in(src, lo, hi, b[q], true));
    }
}

/// Declaring one more declaration made within `lo..hi`.
pub proof fn lemma_declared_in_push(src: Src, lo: int, hi: int, a: Seq<Declaration>, b: Seq<Declaration>, d: Declaration)
    requires
        declared_in(src, lo, hi, a, b),
        declaration_in(src, lo, hi, d),
    ensures
        declared_in(src, lo, hi, a, b.push(d)),
{
    assert(b.push(d).take(a.len() as int) =~= b.take(a.len() as int));
    assert forall|q: int| a.len() <= q < b.push(d).len() implies declaration_in(src, lo, hi, #[trigger] b.push(d)[q]) by {
        if q < b.len() {
            assert(b.push(d)[q] == b[q]);
        }
    }
}

/// Declarations made within `lo..k` and then within `k..hi` are made within
/// `lo..hi`.
pub proof fn lemma_declared_in_trans(
    src: Src,
    lo: int,
    k: int,
    hi: int,
    a: Seq<Declaration>,
    b: Seq<Declaration>,
    c: Seq<Declaration>,
)
    requires
        declared_in(src, lo, k, a, b),
        declared_in(src, k, hi, b, c),
        lo <= k <= hi,
    ensures
        declared_in(src, lo, hi, a, c),
{
    assert(c.take(a.len() as int) =~= c.take(b.len() as int).take(a.len() as int));
    assert forall|q: int| a.len() <= q < c.len() implies declaration_in(src, lo, hi, #[trigger] c[q]) by {
        if q < b.len() {
            assert(c[q] == c.take(b.len() as int)[q]);
            assert(declaration_in(src, lo, k, b[q]));
            lemma_declaration_in_widen(src, lo, k, lo, hi, b[q]);
        } else {
            lemma_declaration_in_widen(src, k, hi, lo, hi, c[q]);
        }
    }
}

/// Nothing declared is declared within any stretch.
pub proof fn lemma_declared_in_none(src: Src, lo: int, hi: int, a: Seq<Declaration>)
    ensures
        declared_in(src, lo, hi, a, a),
{
    assert(a.take(a.len() as int) =~= a);
}

/// Specifiers followed by a declarator whose name may be absent form a
/// parameter.
pub proof fn lemma_parameter_intro(src: Src, a: int, k: int, b: int, ty: Type, t: BasicType, name: Option<Seq<char>>)
    requires
        a < k <= b,
        specifiers_rel(src, a, k, ty),
        declarator_rel(src, k, b, ty.basic_type, true, t, name),
    ensures
        parameter_rel(src, a, b, t, name),
{
    assert(parameter_split(a, k, b, ty));
}

/// A declaration that names something: a variable or a function, not a
/// struct or union defined on its own.
pub open spec fn is_named(d: Declaration) -> bool {
    !(d.node matches DeclarationEnum::Declaration(_, None, _))
}

/// The declarations of `ds` that name something, in order.
pub open spec fn named_of(ds: Seq<Declaration>) -> Seq<Declaration>
    decreases ds.len(),
{
    if ds.len() == 0 {
        ds
    } else if is_named(ds.last()) {
        named_of(ds.drop_last()).push(ds.last())
    } else {
        named_of(ds.drop_last())
    }
}

/// `new` is `old` followed by struct and union definitions only.
pub open spec fn structs_pushed(old: Seq<Declaration>, new: Seq<Declaration>) -> bool {
    &&& new.len() >= old.len()
    &&& new.take(old.len() as int) == old
    &&& forall|q: int| old.len() <= q < new.len() ==> !is_named(#[trigger] new[q])
}

/// The init declarator over the tokens `p..q` declares `v`, which spans
/// it, in a declaration whose specifiers give `ty`.
pub open spec fn declarator_item(src: Src, p: int, q: int, ty: Type, v: Declaration) -> bool {
    variable_rel(src, p, q, ty, v.node) && v.span == tok_span(src, p, q)
}

/// The tokens `p..q` are init declarators separated by commas, declaring
/// `vs` in order, in a declaration whose specifiers give `ty`.
pub open spec fn init_declarators_rel(src: Src, p: int, q: int, ty: Type, vs: Seq<Declaration>) -> bool
    decreases vs.len(),
{
    if vs.len() == 0 {
        false
    } else if vs.len() == 1 {
        declarator_item(src, p, q, ty, vs[0])
    } else {
        exists|c: int|
            #![trigger is_punct(src, c, Punct::Comma)]
            p < c && c + 1 < q && is_punct(src, c, Punct::Comma) && init_declarators_rel(src, p, c, ty, vs.drop_last())
                && declarator_item(src, c + 1, q, ty, vs.last())
    }
}

/// The tokens `a..b` are a declaration: specifiers, then `;` alone or init
/// declarators and `;`; `vs` are the variables it declares, in order.
pub open spec fn declaration_rel(src: Src, a: int, b: int, vs: Seq<Declaration>) -> bool {
    exists|k: int, ty: Type|
        #![trigger specifiers_rel(src, a, k, ty)]
        a < k < b && specifiers_rel(src, a, k, ty) && is_punct(src, b - 1, Punct::Semicolon) && ((vs.len() == 0 && k
            == b - 1) || init_declarators_rel(src, k, b - 1, ty, vs))
}

/// The tokens `a..b` are one external declaration, and `named` is what it
/// names: a function definition spanning them, or the variables of a
/// declaration.
pub open spec fn external_rel(src: Src, a: int, b: int, named: Seq<Declaration>) -> bool {
    ||| (named.len() == 1 && named[0].node is FunctionDefinition && named[0].span == tok_span(src, a, b)
        && declaration_in(src, a, b, named[0]))
    ||| declaration_rel(src, a, b, named)
}

/// Where the last external declaration of a stretch begins, and how many
/// names it gives.
pub open spec fn external_split(a: int, c: int) -> bool {
    a >= 0 && c >= 0
}

/// The tokens `0..hi` are external declarations one after another, which
/// name `named` in order.
pub open spec fn externals_rel(src: Src, hi: int, named: Seq<Declaration>) -> bool
    decreases hi,
{
    if hi <= 0 {
        hi == 0 && named.len() == 0
    } else {
        exists|a: int, c: int|
            #![trigger external_split(a, c)]
            external_split(a, c) && a < hi && c <= named.len() && externals_rel(src, a, named.take(named.len() - c))
                && external_rel(src, a, hi, named.skip(named.len() - c))
    }
}

/// Naming one more declaration.
pub proof fn lemma_named_of_push(s: Seq<Declaration>, x: Declaration)
    ensures
        named_of(s.push(x)) == (if is_named(x) {
            named_of(s).push(x)
        } else {
            named_of(s)
        }),
{
    assert(s.push(x).drop_last() =~= s);
}

/// Structs and unions pushed name nothing.
pub proof fn lemma_named_of_structs(a: Seq<Declaration>, b: Seq<Declaration>)
    requires
        structs_pushed(a, b),
    ensures
        named_of(b) == named_of(a),
    decreases b.len(),
{
    if b.len() > a.len() {
        let b0 = b.drop_last();
        assert(b0.take(a.len() as int) =~= b.take(a.len() as int));
        assert forall|q: int| a.len() <= q < b0.len() implies !is_named(#[trigger] b0[q]) by {
            assert(b0[q] == b[q]);
        }
        lemma_named_of_structs(a, b0);
        assert(!is_named(b[b.len() - 1]));
    } else {
        assert(b =~= a);
    }
}

/// Struct definitions pushed in turn are struct definitions pushed.
pub proof fn lemma_structs_pushed_trans(a: Seq<Declaration>, b: Seq<Declaration>, c: Seq<Declaration>)
    requires
        structs_pushed(a, b),
        structs_pushed(b, c),
    ensures
        structs_pushed(a, c),
{
    assert(c.take(a.len() as int) =~= c.take(b.len() as int).take(a.len() as int));
    assert forall|q: int| a.len() <= q < c.len() implies !is_named(#[trigger] c[q]) by {
        if q < b.len() {
            assert(c[q] == c.take(b.len() as int)[q]);
        }
    }
}

/// Nothing pushed is no struct pushed.
pub proof fn lemma_structs_pushed_none(a: Seq<Declaration>)
    ensures
        structs_pushed(a, a),
{
    assert(a.take(a.len() as int) =~= a);
}

/// One more struct definition pushed.
pub proof fn lemma_structs_pushed_push(a: Seq<Declaration>, b: Seq<Declaration>, d: Declaration)
    requires
        structs_pushed(a, b),
        !is_named(d),
    ensures
        structs_pushed(a, b.push(d)),
{
    assert(b.push(d).take(a.len() as int) =~= b.take(a.len() as int));
    assert forall|q: int| a.len() <= q < b.push(d).len() implies !is_named(#[trigger] b.push(d)[q]) by {
        if q < b.len() {
            assert(b.push(d)[q] == b[q]);
        }
    }
}

/// One more init declarator after a comma extends the declarators.
pub proof fn lemma_init_declarators_push(src: Src, p: int, k: int, q: int, ty: Type, vs: Seq<Declaration>, d: Declaration)
    requires
        (vs.len() == 0 && k == p) || (vs.len() > 0 && p + 1 < k && is_punct(src, k - 1, Punct::Comma)
            && init_declarators_rel(src, p, k - 1, ty, vs)),
        declarator_item(src, k, q, ty, d),
        k < q,
    ensures
        init_declarators_rel(src, p, q, ty, vs.push(d)),
{
    if vs.len() > 0 {
        assert(vs.push(d).drop_last() =~= vs);
        assert(is_punct(src, k - 1, Punct::Comma));
    }
}

/// Struct definitions and then one named declaration add just that name.
pub proof fn lemma_named_of_structs_then(a: Seq<Declaration>, b: Seq<Declaration>, d: Declaration)
    requires
        structs_pushed(a, b),
        is_named(d),
    ensures
        named_of(b.push(d)) == named_of(a).push(d),
{
    lemma_named_of_structs(a, b);
    lemma_named_of_push(b, d);
}

/// The names that `new` adds after those of `old`, when it keeps those
/// (`names_kept`).
pub open spec fn names_added(old: Seq<Declaration>, new: Seq<Declaration>) -> Seq<Declaration> {
    named_of(new).skip(named_of(old).len() as int)
}

/// The names of `new` begin with those of `old`.
pub open spec fn names_kept(old: Seq<Declaration>, new: Seq<Declaration>) -> bool {
    named_of(new).len() >= named_of(old).len() && named_of(new).take(named_of(old).len() as int) == named_of(old)
}

/// Names added as a sequence after those kept.
pub proof fn lemma_names_added(old: Seq<Declaration>, new: Seq<Declaration>, vs: Seq<Declaration>)
    requires
        named_of(new) == named_of(old) + vs,
    ensures
        names_kept(old, new),
        names_added(old, new) == vs,
{
    assert((named_of(old) + vs).take(named_of(old).len() as int) =~= named_of(old));
    assert((named_of(old) + vs).skip(named_of(old).len() as int) =~= vs);
}

/// Struct definitions, then names kept and added: only those names are
/// added.
pub proof fn lemma_names_after_structs(a: Seq<Declaration>, b: Seq<Declaration>, c: Seq<Declaration>)
    requires
        structs_pushed(a, b),
        names_kept(b, c),
    ensures
        named_of(c) == named_of(a) + names_added(b, c),
{
    lemma_named_of_structs(a, b);
    assert(named_of(c) =~= named_of(b) + names_added(b, c));
}

/// Appending struct definitions pushes struct definitions.
pub proof fn lemma_structs_pushed_append(a: Seq<Declaration>, s: Seq<Declaration>)
    requires
        structs_pushed(Seq::empty(), s),
    ensures
        structs_pushed(a, a + s),
{
    assert((a + s).take(a.len() as int) =~= a);
    assert forall|q: int| a.len() <= q < (a + s).len() implies !is_named(#[trigger] (a + s)[q]) by {
        assert((a + s)[q] == s[q - a.len()]);
    }
}

/// A stretch of external declarations followed by one more.
pub proof fn lemma_externals_push(src: Src, a: int, b: int, before: Seq<Declaration>, after: Seq<Declaration>)
    requires
        externals_rel(src, a, named_of(before)),
        names_kept(before, after),
        external_rel(src, a, b, names_added(before, after)),
        0 <= a < b,
    ensures
        externals_rel(src, b, named_of(after)),
{
    let named = named_of(after);
    let c = names_added(before, after).len();
    assert(named.take(named.len() - c) =~= named_of(before));
    assert(named.skip(named.len() - c) =~= names_added(before, after));
    assert(external_split(a, c as int));
}

/// The nodes of declarations, in order.
pub open spec fn nodes_of(ds: Seq<Declaration>) -> Seq<DeclarationEnum> {
    ds.map_values(|d: Declaration| d.node)
}

/// Declarations with the same nodes name the same nodes.
pub proof fn lemma_named_nodes(x: Seq<Declaration>, y: Seq<Declaration>)
    requires
        nodes_of(x) == nodes_of(y),
    ensures
        nodes_of(named_of(x)) == nodes_of(named_of(y)),
    decreases x.len(),
{
    assert(x.len() == nodes_of(x).len());
    if x.len() > 0 {
        assert(nodes_of(x.drop_last()) =~= nodes_of(x).drop_last());
        assert(nodes_of(y.drop_last()) =~= nodes_of(y).drop_last());
        lemma_named_nodes(x.drop_last(), y.drop_last());
        assert(x.last().node == nodes_of(x)[x.len() - 1]);
        assert(y.last().node == nodes_of(y)[y.len() - 1]);
        if is_named(x.last()) {
            assert(nodes_of(named_of(x)) =~= nodes_of(named_of(x.drop_last())).push(x.last().node));
            assert(nodes_of(named_of(y)) =~= nodes_of(named_of(y.drop_last())).push(y.last().node));
        }
    }
}

/// The member a declaration of a variable declares.
pub open spec fn member_of(d: Declaration) -> StructMember {
    match d.node {
        DeclarationEnum::Declaration(t, Some(nm), _) => StructMember { member_name: nm, member_type: t.basic_type },
        _ => arbitrary(),
    }
}

/// The members that the declarations `vs` declare, in order.
pub open spec fn to_members(vs: Seq<Declaration>) -> Seq<StructMember>
    decreases vs.len(),
{
    if vs.len() == 0 {
        Seq::empty()
    } else {
        to_members(vs.drop_last()).push(member_of(vs.last()))
    }
}

/// Every declaration of `vs` declares a variable without an initializer.
pub open spec fn all_members(vs: Seq<Declaration>) -> bool {
    forall|q: int| 0 <= q < vs.len() ==> (#[trigger] vs[q]).node matches DeclarationEnum::Declaration(_, Some(_), None)
}

/// Declarators of variables without initializers declare members.
pub proof fn lemma_member_declarators(src: Src, p: int, q: int, ty: Type, vs: Seq<Declaration>)
    requires
        init_declarators_rel(src, p, q, ty, vs),
        all_members(vs),
    ensures
        member_declarators(src, p, q, ty, to_members(vs)),
    decreases vs.len(),
{
    let ms = to_members(vs);
    let v = vs.last();
    assert(all_members(vs.drop_last())) by {
        assert forall|i: int| 0 <= i < vs.drop_last().len() implies (#[trigger] vs.drop_last()[i]).node matches DeclarationEnum::Declaration(_, Some(_), None) by {
            assert(vs.drop_last()[i] == vs[i]);
        }
    }
    assert(vs[vs.len() - 1].node matches DeclarationEnum::Declaration(_, Some(_), None));
    lemma_to_members_len(vs);
    if vs.len() == 1 {
        assert(vs.drop_last().len() == 0);
        assert(ms[0] == member_of(v));
        assert(declarator_item(src, p, q, ty, vs[0]));
        lemma_member_item(src, p, q, ty, v);
    } else {
        let c = choose|c: int|
            p < c && c + 1 < q && is_punct(src, c, Punct::Comma) && init_declarators_rel(src, p, c, ty, vs.drop_last())
                && declarator_item(src, c + 1, q, ty, vs.last());
        lemma_member_declarators(src, p, c, ty, vs.drop_last());
        lemma_member_item(src, c + 1, q, ty, v);
        assert(ms.drop_last() =~= to_members(vs.drop_last()));
        assert(is_punct(src, c, Punct::Comma));
    }
}

/// The length of the members of declarations.
pub proof fn lemma_to_members_len(vs: Seq<Declaration>)
    ensures
        to_members(vs).len() == vs.len(),
    decreases vs.len(),
{
    if vs.len() > 0 {
        lemma_to_members_len(vs.drop_last());
    }
}

/// A declarator of a variable without an initializer declares its member.
pub proof fn lemma_member_item(src: Src, p: int, q: int, ty: Type, v: Declaration)
    requires
        declarator_item(src, p, q, ty, v),
        v.node matches DeclarationEnum::Declaration(_, Some(_), None),
    ensures
        member_item(src, p, q, ty, member_of(v)),
        p < q,
{
    let (e, b): (int, BasicType) = choose|e: int, b: BasicType|
        #![trigger declarator_rel(src, p, e, b, false, v.node->Declaration_0.basic_type, Some(v.node->Declaration_1->Some_0@))]
        p < e <= q && same_basic_type(b, ty.basic_type) && declarator_rel(
            src,
            p,
            e,
            b,
            false,
            v.node->Declaration_0.basic_type,
            Some(v.node->Declaration_1->Some_0@),
        ) && e == q;
    assert(same_basic_type(b, ty.basic_type));
}

/// A declaration of variables without initializers is a member declaration.
pub proof fn lemma_member_declaration(src: Src, a: int, b: int, vs: Seq<Declaration>)
    requires
        declaration_rel(src, a, b, vs),
        all_members(vs),
    ensures
        member_declaration(src, a, b, to_members(vs)),
{
    let (k, ty): (int, Type) = choose|k: int, ty: Type|
        a < k < b && specifiers_rel(src, a, k, ty) && is_punct(src, b - 1, Punct::Semicolon) && ((vs.len() == 0 && k
            == b - 1) || init_declarators_rel(src, k, b - 1, ty, vs));
    assert(parameter_split(a, k, b, ty));
    if vs.len() == 0 {
        assert(to_members(vs) =~= Seq::<StructMember>::empty());
    } else {
        lemma_member_declarators(src, k, b - 1, ty, vs);
    }
}

/// One more member declaration after those of a stretch.
pub proof fn lemma_member_decls_push(src: Src, lo: int, a: int, hi: int, ms: Seq<StructMember>, more: Seq<StructMember>)
    requires
        member_decls(src, lo, a, ms),
        member_declaration(src, a, hi, more),
        lo <= a < hi,
    ensures
        member_decls(src, lo, hi, ms + more),
{
    let all = ms + more;
    assert(all.take(all.len() - more.len()) =~= ms);
    assert(all.skip(all.len() - more.len()) =~= more);
    assert(members_split(a, more.len() as int));
}

/// The names of declarations that all name variables are the declarations.
pub proof fn lemma_named_of_members(vs: Seq<Declaration>)
    requires
        all_members(vs),
    ensures
        named_of(vs) == vs,
    decreases vs.len(),
{
    if vs.len() > 0 {
        assert(all_members(vs.drop_last())) by {
            assert forall|i: int| 0 <= i < vs.drop_last().len() implies (#[trigger] vs.drop_last()[i]).node matches DeclarationEnum::Declaration(_, Some(_), None) by {
                assert(vs.drop_last()[i] == vs[i]);
            }
        }
        lemma_named_of_members(vs.drop_last());
        assert(vs[vs.len() - 1].node matches DeclarationEnum::Declaration(_, Some(_), None));
        assert(vs.drop_last().push(vs.last()) =~= vs);
    }
}

/// After specifiers that end at token `k`, the tokens do not go on as a
/// function definition: the pointers there are not followed by a name and
/// `(`, or a parameter list there is not followed by `{`.
pub open spec fn no_definition_after(src: Src, k: int) -> bool {
    let k1 = pointers_end(src, k);
    ||| !(0 <= k1 < src.toks@.len() && src.toks@[k1].kind == TokenKind::Identifier && is_punct(src, k1 + 1, Punct::LParen))
    ||| exists|k2: int, ps: Seq<(BasicType, Option<String>)>, v: bool|
        #![trigger params_rel(src, k1 + 1, k2, ps, v)]
        params_rel(src, k1 + 1, k2, ps, v) && !is_punct(src, k2, Punct::LBrace)
}

} // verus!
