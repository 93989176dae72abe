//! A recursive-descent parser for the C99 subset: declarations, function
//! definitions, statements and expressions. Each rule reads tokens starting at
//! a position and returns what it built with the position after it.
use vstd::prelude::*;

use super::error::ParseError;
use super::lexer::{lemma_lex_from_bounds, lex, lex_spec, Keyword, LexError, Punct, Token, TokenKind};
use super::literal::{
    build_character_constant, build_floating_constant, build_integer_constant, build_string_literal, floating_constant_spec,
    integer_constant_spec,
};
use crate::ast::copy::{copy_basic_type, copy_string};
use crate::ast::{
    AssignOperation, AssignOperationEnum, BaseType, BasicType, BinaryOperation, BinaryOperationEnum,
    Declaration, DeclarationEnum, Expression, ExpressionEnum, ForInitClause, ForInitClauseEnum,
    FunctionSpecifier, IntegerType, Span, Statement, StatementEnum, StatementOrDeclaration,
    StatementOrDeclarationEnum, StorageClassSpecifier, StructMember, Type, TypeQualifier,
    UnaryOperation, UnaryOperationEnum,
};
use super::declarations::{
    no_definition_after,
    SpecifierState, all_members, combine_spec, declaration_rel, declarator_rel, declared_in, external_rel,
    function_defined_in, function_of, init_declarators_rel, lemma_declared_from_pushed, lemma_declared_in_push,
    lemma_init_declarators_push, lemma_local_declaration_respan, lemma_member_declaration,
    lemma_member_decls_push, lemma_named_nodes, lemma_named_of_members, lemma_named_of_structs,
    lemma_named_of_structs_then, lemma_names_added, lemma_names_after_structs, lemma_parameter_intro,
    lemma_pushed_in_append, lemma_pushed_in_chain, lemma_pushed_in_none, lemma_pushed_in_push,
    lemma_pushed_in_trans, lemma_pushed_in_widen, lemma_structs_pushed_append, lemma_structs_pushed_none,
    lemma_structs_pushed_push, lemma_structs_pushed_trans, local_declaration_in, member_decls, member_of,
    name_part, name_view, named_of, names_added, names_kept, no_specifiers, no_type, nodes_of, param_items,
    param_list, param_types, parameter_rel, parameter_split, params_rel, pointers_end, pointers_rel, pushed_in,
    qualifier_list, qualifier_spec, qualifiers_end, specifier_fold, keyword_state, keyword_step, specifiers_stop,
    lemma_keyword_state_prefix, lemma_keyword_state_none, plain_declarator_end, plain_declarators_end, lemma_plain_declarators_step, plain_suffixes_end,
    plain_params_end, plain_params_rest_end, plain_parameter_end, lemma_keyword_specifiers,
    lemma_declarators_not_definition, keyword_specifiers_end, lemma_pointers_end, plain_statement_end,
    plain_items_end, plain_local_declaration_end, plain_for_init_end, plain_type_name_end, lemma_keyword_scan,
    keyword_scan, specifier_step, specifiers_rel,
    storage_spec, struct_body_rel, struct_defined_in, struct_rel, structs_pushed, suffix_groups, suffix_type,
    to_members, type_keyword_index, type_keyword_limit, type_name_at, variable_in, variable_rel, with_type_name,
};
use crate::ast::equality::same_basic_type;
use super::syntax::{atom_at, closes_expression, flat_chain_end, flat_operand_end, flat_rest_end, flat_assignment_end,
    flat_expression_end, flat_expression_rest_end, simple_postfix_end, simple_postfix_rest_end, atom_args_end,
    lemma_atom_args_end};
use super::syntax::{
    assign_op_at, assign_op_spec, assignment, binary, binary_op_spec, binary_stops, expression_stops, postfix_stops, block_items, block_group, local_item, group_decls, lemma_block_items_push,
    lemma_group_decls_push, call_args, chain,
    conditional, constant_at, expression, for_init, is_keyword, is_punct,
    is_qualifier_keyword, is_type_keyword_spec, operand, paren_expression, postfix,
    postfix_step, prefix_op_spec, primary, split_at, starts_type_name_spec, statement, tok_span, tok_text, unary,
};
use crate::text::{append_range, chars_of};

verus! {

/// The source characters and their tokens.
pub struct Src {
    pub chars: Vec<char>,
    pub toks: Vec<Token>,
}

impl Src {
    /// The characters of `code` and its tokens (`lex_spec`), or the error
    /// that stops its lexing.
    pub fn tokenize(code: &str) -> (r: Result<Src, LexError>)
        ensures
            match r {
                Ok(src) => src.wf() && src.chars@ == code@ && lex_spec(code@) == Ok::<Seq<Token>, LexError>(src.toks@),
                Err(e) => lex_spec(code@) == Err::<Seq<Token>, LexError>(e),
            },
    {
        let chars = chars_of(code);
        let toks = match lex(&chars) {
            Ok(t) => t,
            Err(e) => {
                return Err(e);
            },
        };
        proof {
            lemma_lex_from_bounds(chars@, 0);
        }
        Ok(Src { chars, toks })
    }

    /// Every token lies within the characters.
    pub open spec fn wf(&self) -> bool {
        forall|i: int|
            0 <= i < self.toks@.len() ==> #[trigger] self.toks@[i].start < self.toks@[i].end
                <= self.chars@.len()
    }

    pub open spec fn len(&self) -> nat {
        self.toks@.len()
    }
}

fn is_p(src: &Src, pos: usize, p: Punct) -> (b: bool)
    ensures
        b == (pos < src.toks.len() && src.toks@[pos as int].kind == TokenKind::Punct(p)),
{
    pos < src.toks.len() && src.toks[pos].kind == TokenKind::Punct(p)
}

fn is_k(src: &Src, pos: usize, k: Keyword) -> (b: bool)
    ensures
        b == (pos < src.toks.len() && src.toks@[pos as int].kind == TokenKind::Keyword(k)),
{
    pos < src.toks.len() && src.toks[pos].kind == TokenKind::Keyword(k)
}

/// Token `k` is an identifier.
pub open spec fn is_ident_spec(src: Src, k: int) -> bool {
    0 <= k < src.toks@.len() && src.toks@[k].kind == TokenKind::Identifier
}

fn is_ident(src: &Src, pos: usize) -> (b: bool)
    ensures
        b == (pos < src.toks.len() && src.toks@[pos as int].kind == TokenKind::Identifier),
{
    pos < src.toks.len() && src.toks[pos].kind == TokenKind::Identifier
}

fn err_at(src: &Src, pos: usize) -> (e: ParseError)
    ensures
        !(e is Lex),
        e == (if pos < src.toks.len() {
            ParseError::UnexpectedToken(src.toks@[pos as int].start)
        } else {
            ParseError::UnexpectedEnd
        }),
{
    if pos < src.toks.len() {
        ParseError::UnexpectedToken(src.toks[pos].start)
    } else {
        ParseError::UnexpectedEnd
    }
}

fn expect(src: &Src, pos: usize, p: Punct) -> (r: Result<usize, ParseError>)
    ensures
        r matches Ok(n) ==> n == pos + 1 && pos < src.toks.len() && src.toks@[pos as int].kind == TokenKind::Punct(p),
        r matches Err(e) ==> !(e is Lex),
        r is Ok <==> (pos < src.toks.len() && src.toks@[pos as int].kind == TokenKind::Punct(p)),
{
    if is_p(src, pos, p) {
        Ok(pos + 1)
    } else {
        Err(err_at(src, pos))
    }
}

/// The span from the start of token `a` to the end of token `b - 1`.
fn span_of(src: &Src, a: usize, b: usize) -> (r: Span)
    requires
        a < b <= src.toks.len(),
    ensures
        r == tok_span(*src, a as int, b as int),
{
    Span::new(src.toks[a].start, src.toks[b - 1].end)
}

fn text_of(src: &Src, pos: usize) -> (r: String)
    requires
        src.wf(),
        pos < src.toks.len(),
    ensures
        r@ == tok_text(*src, pos as int),
{
    let mut s = String::new();
    let t = src.toks[pos];
    proof {
        assert(src.toks@[pos as int].start < src.toks@[pos as int].end <= src.chars@.len());
    }
    append_range(&mut s, &src.chars, t.start, t.end);
    s
}

fn copy_type(t: &Type) -> (r: Type)
    ensures
        r.function_specifier@ == t.function_specifier@,
        r.storage_class_specifier == t.storage_class_specifier,
        same_basic_type(r.basic_type, t.basic_type),
{
    let mut fs: Vec<FunctionSpecifier> = Vec::new();
    let mut i: usize = 0;
    while i < t.function_specifier.len()
        invariant
            i <= t.function_specifier@.len(),
            fs@ == t.function_specifier@.take(i as int),
        decreases t.function_specifier@.len() - i,
    {
        fs.push(t.function_specifier[i]);
        i = i + 1;
        assert(fs@ =~= t.function_specifier@.take(i as int));
    }
    assert(t.function_specifier@.take(i as int) =~= t.function_specifier@);
    Type {
        function_specifier: fs,
        storage_class_specifier: t.storage_class_specifier,
        basic_type: copy_basic_type(&t.basic_type),
    }
}

pub fn build_type_qualifier(k: Keyword) -> (r: Option<TypeQualifier>)
    ensures
        r is Some <==> is_qualifier_keyword(k),
        r == qualifier_spec(k),
{
    match k {
        Keyword::Const => Some(TypeQualifier::Const),
        Keyword::Volatile => Some(TypeQualifier::Volatile),
        Keyword::Restrict => Some(TypeQualifier::Restrict),
        Keyword::Atomic => Some(TypeQualifier::Atomic),
        _ => None,
    }
}

fn storage_of(k: Keyword) -> (r: Option<StorageClassSpecifier>)
    ensures
        r == storage_spec(k),
{
    match k {
        Keyword::Typedef => Some(StorageClassSpecifier::Typedef),
        Keyword::Extern => Some(StorageClassSpecifier::Extern),
        Keyword::Static => Some(StorageClassSpecifier::Static),
        Keyword::ThreadLocal => Some(StorageClassSpecifier::ThreadLocal),
        Keyword::Auto => Some(StorageClassSpecifier::Auto),
        Keyword::Register => Some(StorageClassSpecifier::Register),
        _ => None,
    }
}

/// Counts of the type specifier keywords of one declaration.
struct TypeSpecs {
    void_: usize,
    char_: usize,
    short_: usize,
    int_: usize,
    long_: usize,
    signed_: usize,
    unsigned_: usize,
    bool_: usize,
    float_: usize,
    double_: usize,
    other: Option<BaseType>,
}

impl TypeSpecs {
    /// No count passes three.
    spec fn small(&self) -> bool {
        &&& self.void_ <= 3
        &&& self.char_ <= 3
        &&& self.short_ <= 3
        &&& self.int_ <= 3
        &&& self.long_ <= 3
        &&& self.signed_ <= 3
        &&& self.unsigned_ <= 3
        &&& self.bool_ <= 3
        &&& self.float_ <= 3
        &&& self.double_ <= 3
    }
}

/// The counts of the type keywords, in the order of `SpecifierState`.
spec fn counts_of(t: TypeSpecs) -> Seq<int> {
    seq![
        t.void_ as int,
        t.char_ as int,
        t.short_ as int,
        t.int_ as int,
        t.long_ as int,
        t.signed_ as int,
        t.unsigned_ as int,
        t.bool_ as int,
        t.float_ as int,
        t.double_ as int,
    ]
}

fn no_type_spec(t: &TypeSpecs) -> (b: bool)
    ensures
        b == (t.other is None && forall|i: int| 0 <= i < 10 ==> #[trigger] counts_of(*t)[i] == 0),
{
    let b = t.void_ == 0 && t.char_ == 0 && t.short_ == 0 && t.int_ == 0 && t.long_ == 0 && t.signed_ == 0
        && t.unsigned_ == 0 && t.bool_ == 0 && t.float_ == 0 && t.double_ == 0 && t.other.is_none();
    proof {
        let c = counts_of(*t);
        if b {
            assert forall|i: int| 0 <= i < 10 implies #[trigger] c[i] == 0 by {}
        } else if t.other is None {
            assert(c[0] != 0 || c[1] != 0 || c[2] != 0 || c[3] != 0 || c[4] != 0 || c[5] != 0 || c[6] != 0 || c[7]
                != 0 || c[8] != 0 || c[9] != 0);
        }
    }
    b
}

/// Adds one type specifier keyword; `false` when the count would pass two.
fn add_type_keyword(t: &mut TypeSpecs, k: Keyword) -> (b: bool)
    requires
        old(t).small(),
    ensures
        final(t).small(),
        final(t).other == old(t).other,
        is_type_keyword_spec(k) ==> b == (counts_of(*old(t))[type_keyword_index(k)] < type_keyword_limit(k)),
        b ==> counts_of(*final(t)) == counts_of(*old(t)).update(
            type_keyword_index(k),
            counts_of(*old(t))[type_keyword_index(k)] + 1,
        ),
{
    match k {
        Keyword::Void => if t.void_ < 2 {
            t.void_ = t.void_ + 1;
            true
        } else {
            false
        },
        Keyword::Char => if t.char_ < 2 {
            t.char_ = t.char_ + 1;
            true
        } else {
            false
        },
        Keyword::Short => if t.short_ < 2 {
            t.short_ = t.short_ + 1;
            true
        } else {
            false
        },
        Keyword::Int => if t.int_ < 2 {
            t.int_ = t.int_ + 1;
            true
        } else {
            false
        },
        Keyword::Long => if t.long_ < 3 {
            t.long_ = t.long_ + 1;
            true
        } else {
            false
        },
        Keyword::Signed => if t.signed_ < 2 {
            t.signed_ = t.signed_ + 1;
            true
        } else {
            false
        },
        Keyword::Unsigned => if t.unsigned_ < 2 {
            t.unsigned_ = t.unsigned_ + 1;
            true
        } else {
            false
        },
        Keyword::Bool => if t.bool_ < 2 {
            t.bool_ = t.bool_ + 1;
            true
        } else {
            false
        },
        Keyword::Float => if t.float_ < 2 {
            t.float_ = t.float_ + 1;
            true
        } else {
            false
        },
        Keyword::Double => if t.double_ < 2 {
            t.double_ = t.double_ + 1;
            true
        } else {
            false
        },
        _ => false,
    }
}

fn is_type_keyword(k: Keyword) -> (b: bool)
    ensures
        b == is_type_keyword_spec(k),
{
    match k {
        Keyword::Void | Keyword::Char | Keyword::Short | Keyword::Int | Keyword::Long | Keyword::Signed
        | Keyword::Unsigned | Keyword::Bool | Keyword::Float | Keyword::Double => true,
        _ => false,
    }
}

/// The type the specifiers name; `int` when there is none.
fn combine_type_specs(t: TypeSpecs) -> (r: Option<BaseType>)
    requires
        t.small(),
    ensures
        r == combine_spec(counts_of(t), t.other),
{
    let sign = t.signed_ + t.unsigned_;
    let arith = t.void_ + t.char_ + t.short_ + t.int_ + t.long_ + t.bool_ + t.float_ + t.double_ + sign;
    match t.other {
        Some(b) => {
            if arith == 0 {
                Some(b)
            } else {
                None
            }
        },
        None => {
            if sign > 1 {
                None
            } else if t.void_ + t.bool_ + t.float_ > 0 {
                if arith == 1 {
                    if t.void_ == 1 {
                        Some(BaseType::Void)
                    } else if t.bool_ == 1 {
                        Some(BaseType::Bool)
                    } else {
                        Some(BaseType::Float)
                    }
                } else {
                    None
                }
            } else if t.double_ > 0 {
                if t.double_ == 1 && t.long_ <= 1 && arith == t.double_ + t.long_ {
                    Some(BaseType::Double)
                } else {
                    None
                }
            } else {
                let it = if t.char_ > 0 {
                    if t.char_ == 1 && t.short_ == 0 && t.int_ == 0 && t.long_ == 0 {
                        Some(IntegerType::Char)
                    } else {
                        None
                    }
                } else if t.short_ > 0 {
                    if t.short_ == 1 && t.long_ == 0 && t.int_ <= 1 {
                        Some(IntegerType::Short)
                    } else {
                        None
                    }
                } else if t.long_ > 0 {
                    if t.int_ <= 1 && t.long_ <= 2 {
                        if t.long_ == 1 {
                            Some(IntegerType::Long)
                        } else {
                            Some(IntegerType::LongLong)
                        }
                    } else {
                        None
                    }
                } else if t.int_ <= 1 {
                    Some(IntegerType::Int)
                } else {
                    None
                };
                match it {
                    Some(i) => if t.unsigned_ == 1 {
                        Some(BaseType::UnsignedInteger(i))
                    } else {
                        Some(BaseType::SignedInteger(i))
                    },
                    None => None,
                }
            }
        },
    }
}

/// Declaration specifiers: storage class, function specifiers, qualifiers and
/// type specifiers, in any order. A struct or union defined with a name here
/// is also declared on its own in `ast`. When the specifiers are keywords
/// (`keyword_state`) up to a token where none can be read (`specifiers_stop`),
/// it reads exactly those, and succeeds exactly when they give at most one
/// storage class and a valid type.
pub fn build_declaration_specifiers(src: &Src, pos: usize, ast: &mut Vec<Declaration>) -> (r: Result<(Type, usize), ParseError>)
    requires
        src.wf(),
        pos <= src.toks.len(),
    ensures
        r matches Ok((_, n)) ==> pos < n <= src.toks.len() && pushed_in(*src, pos as int, n as int, old(ast)@, final(ast)@),
        r matches Ok(_) ==> structs_pushed(old(ast)@, final(ast)@),
        r matches Err(e) ==> !(e is Lex),
        r matches Ok((t, n)) ==> specifiers_rel(*src, pos as int, n as int, t),
        forall|n: int|
            #![trigger keyword_state(*src, pos as int, n)]
            pos < n <= src.toks.len() ==> (keyword_state(*src, pos as int, n) matches Some(st) ==> (specifiers_stop(
                *src,
                n,
                st,
            ) ==> ((r is Ok <==> (st.0.len() <= 1 && combine_spec(st.3, st.4) is Some)) && (r matches Ok((_, m)) ==> m
                == n)))),
        r matches Ok((t, n)) ==> (keyword_state(*src, pos as int, n as int) matches Some(st) ==> (t.storage_class_specifier
            == (if st.0.len() == 1 {
            st.0[0]
        } else {
            StorageClassSpecifier::Auto
        }) && t.function_specifier@ == st.1 && t.basic_type.qualifier@ == st.2 && combine_spec(st.3, st.4) == Some(
            t.basic_type.base_type,
        ))),
        specifiers_stop(*src, pos as int, no_specifiers()) ==> r is Err,
    decreases src.toks.len() - pos, 35nat,
{
    let ghost sv = *src;
    let ghost ast0 = ast@;
    proof {
        lemma_pushed_in_none(sv, pos as int, pos as int, ast0);
        lemma_structs_pushed_none(ast0);
    }
    let mut k = pos;
    let mut storage: Vec<StorageClassSpecifier> = Vec::new();
    let mut fspec: Vec<FunctionSpecifier> = Vec::new();
    let mut quals: Vec<TypeQualifier> = Vec::new();
    let mut ts = TypeSpecs {
        void_: 0,
        char_: 0,
        short_: 0,
        int_: 0,
        long_: 0,
        signed_: 0,
        unsigned_: 0,
        bool_: 0,
        float_: 0,
        double_: 0,
        other: None,
    };
    assert((storage@, fspec@, quals@, counts_of(ts), ts.other) == no_specifiers()) by {
        assert(counts_of(ts) =~= Seq::new(10, |i: int| 0int));
    }
    let ghost mut plain: bool = true;
    while k < src.toks.len()
        invariant
            pushed_in(sv, pos as int, k as int, ast0, ast@),
            structs_pushed(ast0, ast@),
            src.wf(),
            sv == *src,
            pos <= k <= src.toks.len(),
            ts.small(),
            specifier_fold(sv, pos as int, k as int, (storage@, fspec@, quals@, counts_of(ts), ts.other)),
            plain ==> keyword_state(sv, pos as int, k as int) == Some::<SpecifierState>(
                (storage@, fspec@, quals@, counts_of(ts), ts.other),
            ),
            !plain ==> keyword_state(sv, pos as int, k as int) is None,
            k == pos ==> plain,
            specifiers_stop(sv, pos as int, no_specifiers()) ==> k == pos,
            forall|n: int|
                pos < n < k ==> !(#[trigger] keyword_state(sv, pos as int, n) matches Some(st) && specifiers_stop(
                    sv,
                    n,
                    st,
                )),
        ensures
            plain ==> keyword_step(sv, k as int, (storage@, fspec@, quals@, counts_of(ts), ts.other)) is None,
        decreases src.toks.len() - k,
    {
        let kind = src.toks[k].kind;
        let ghost prev: SpecifierState = (storage@, fspec@, quals@, counts_of(ts), ts.other);
        let ghost k0 = k as int;
        let ghost mid = ast@;
        match kind {
            TokenKind::Keyword(kw) => {
                if let Some(s) = storage_of(kw) {
                    storage.push(s);
                    k = k + 1;
                } else if let Some(q) = build_type_qualifier(kw) {
                    quals.push(q);
                    k = k + 1;
                } else if kw == Keyword::Inline {
                    fspec.push(FunctionSpecifier::Inline);
                    k = k + 1;
                } else if kw == Keyword::Noreturn {
                    fspec.push(FunctionSpecifier::Noreturn);
                    k = k + 1;
                } else if is_type_keyword(kw) {
                    if !add_type_keyword(&mut ts, kw) || ts.other.is_some() {
                        proof {
                            assert forall|n: int| pos < n <= src.toks.len() implies !(#[trigger] keyword_state(
                                sv,
                                pos as int,
                                n,
                            ) matches Some(st) && specifiers_stop(sv, n, st)) by {
                                if n > k0 && keyword_state(sv, pos as int, n) is Some {
                                    lemma_keyword_state_prefix(sv, pos as int, k0, n);
                                }
                            }
                        }
                        return Err(ParseError::InvalidTypeSpecifier(src.toks[k].start));
                    }
                    k = k + 1;
                } else if kw == Keyword::Struct || kw == Keyword::Union {
                    proof {
                        assert(keyword_step(sv, k0, prev) is None);
                        assert forall|n: int| pos < n <= src.toks.len() implies !(#[trigger] keyword_state(
                            sv,
                            pos as int,
                            n,
                        ) matches Some(st) && specifiers_stop(sv, n, st)) by {
                            if n > k0 && keyword_state(sv, pos as int, n) is Some {
                                lemma_keyword_state_prefix(sv, pos as int, k0, n);
                            }
                        }
                    }
                    if !no_type_spec(&ts) {
                        return Err(ParseError::InvalidTypeSpecifier(src.toks[k].start));
                    }
                    assert(no_type(prev));
                    let (b, n) = build_struct_specifier(src, k, ast)?;
                    proof {
                        lemma_pushed_in_trans(sv, pos as int, k0, n as int, ast0, mid, ast@);
                        lemma_structs_pushed_trans(ast0, mid, ast@);
                    }
                    ts.other = Some(b);
                    k = n;
                    assert(src.toks@[k0] == src.toks@[k0]);
                    assert((storage@, fspec@, quals@, counts_of(ts), ts.other) == with_type_name(prev, b));
                    assert(specifier_fold(sv, pos as int, k as int, (storage@, fspec@, quals@, counts_of(ts), ts.other)));
                    proof {
                        assert(keyword_state(sv, pos as int, k0 + 1) is None);
                        lemma_keyword_state_none(sv, pos as int, k0 + 1, k as int);
                        assert forall|n: int| pos < n < k implies !(#[trigger] keyword_state(
                            sv,
                            pos as int,
                            n,
                        ) matches Some(st) && specifiers_stop(sv, n, st)) by {
                            if n > k0 {
                                lemma_keyword_state_none(sv, pos as int, k0 + 1, n);
                            }
                        }
                        plain = false;
                    }
                    continue;
                } else {
                    break;
                }
            },
            TokenKind::Identifier => {
                if no_type_spec(&ts) && (is_ident(src, k + 1) || is_p(src, k + 1, Punct::Star)) {
                    ts.other = Some(BaseType::Identifier(text_of(src, k)));
                    k = k + 1;
                } else {
                    break;
                }
            },
            _ => {
                break;
            },
        }
        assert(specifier_step(sv, k0, prev, (storage@, fspec@, quals@, counts_of(ts), ts.other)));
        assert(specifier_fold(sv, pos as int, k as int, (storage@, fspec@, quals@, counts_of(ts), ts.other)));
        proof {
            lemma_pushed_in_widen(sv, pos as int, k0, pos as int, k as int, ast0, ast@);
            assert(k == k0 + 1);
            assert(plain ==> !specifiers_stop(sv, k0, prev));
            if sv.toks@[k0].kind is Identifier {
                plain = false;
            } else if plain {
                assert(keyword_step(sv, k0, prev) == Some::<SpecifierState>(
                    (storage@, fspec@, quals@, counts_of(ts), ts.other),
                ));
            }
            assert(keyword_state(sv, pos as int, k0 + 1) == (match keyword_state(sv, pos as int, k0) {
                Some(p) => keyword_step(sv, k0, p),
                None => None,
            }));
        }
    }
    proof {
        assert forall|n: int| pos < n <= src.toks.len() && n != k implies !(#[trigger] keyword_state(
            sv,
            pos as int,
            n,
        ) matches Some(st) && specifiers_stop(sv, n, st)) by {
            if n > k && keyword_state(sv, pos as int, n) is Some {
                lemma_keyword_state_prefix(sv, pos as int, k as int, n);
            }
        }
    }
    if k == pos {
        return Err(err_at(src, pos));
    }
    if storage.len() > 1 {
        return Err(ParseError::MultipleStorageClasses(src.toks[pos].start));
    }
    let storage_class_specifier = if storage.len() == 1 {
        storage[0]
    } else {
        StorageClassSpecifier::Auto
    };
    let ghost st: SpecifierState = (storage@, fspec@, quals@, counts_of(ts), ts.other);
    let base_type = match combine_type_specs(ts) {
        Some(b) => b,
        None => {
            return Err(ParseError::InvalidTypeSpecifier(src.toks[pos].start));
        },
    };
    let t = Type {
        function_specifier: fspec,
        storage_class_specifier,
        basic_type: BasicType { qualifier: quals, base_type },
    };
    assert(combine_spec(st.3, st.4) == Some(base_type));
    assert(specifiers_rel(sv, pos as int, k as int, t));
    Ok((t, k))
}

/// `struct` or `union`, an optional name and an optional member list. A
/// struct or union defined with a name is also declared on its own in `ast`.
/// Without a member list it always succeeds, just past the name.
pub fn build_struct_specifier(src: &Src, pos: usize, ast: &mut Vec<Declaration>) -> (r: Result<(BaseType, usize), ParseError>)
    requires
        src.wf(),
        pos < src.toks.len(),
        is_keyword(*src, pos as int, Keyword::Struct) || is_keyword(*src, pos as int, Keyword::Union),
    ensures
        r matches Ok((b, n)) ==> struct_rel(*src, pos as int, n as int, b),
        pos + 1 < src.toks.len() && src.toks@[pos + 1].kind == TokenKind::Identifier && !is_punct(
            *src,
            pos + 2,
            Punct::LBrace,
        ) ==> (r matches Ok((_, n)) && n == pos + 2),
        !(pos + 1 < src.toks.len() && src.toks@[pos + 1].kind == TokenKind::Identifier) && !is_punct(
            *src,
            pos + 1,
            Punct::LBrace,
        ) ==> (r matches Ok((_, n)) && n == pos + 1),
        r matches Ok((_, n)) ==> pos < n <= src.toks.len() && pushed_in(*src, pos as int, n as int, old(ast)@, final(ast)@),
        r matches Ok(_) ==> structs_pushed(old(ast)@, final(ast)@),
        r matches Err(e) ==> !(e is Lex),
    decreases src.toks.len() - pos, 34nat,
{
    let ghost ast0 = ast@;
    let is_struct = is_k(src, pos, Keyword::Struct);
    let mut k = pos + 1;
    let mut name: Option<String> = None;
    if is_ident(src, k) {
        name = Some(text_of(src, k));
        k = k + 1;
    }
    let ghost n0 = k as int;
    let ghost sv = *src;
    let mut members: Option<Vec<StructMember>> = None;
    if is_p(src, k, Punct::LBrace) {
        k = k + 1;
        let mut list: Vec<StructMember> = Vec::new();
        while !is_p(src, k, Punct::RBrace)
            invariant
                src.wf(),
                sv == *src,
                pos < k <= src.toks.len(),
                n0 < k,
                is_punct(sv, n0, Punct::LBrace),
                n0 == (if pos + 1 < sv.toks@.len() && sv.toks@[pos + 1].kind == TokenKind::Identifier {
                    pos + 2
                } else {
                    pos + 1
                }),
                member_decls(sv, n0 + 1, k as int, list@),
            decreases src.toks.len() - k,
        {
            if k >= src.toks.len() {
                return Err(ParseError::UnexpectedEnd);
            }
            let mut sub_ast: Vec<Declaration> = Vec::new();
            let n = build_declaration(src, k, &mut sub_ast)?;
            let ghost all = sub_ast@;
            let ghost list0 = list@;
            let ghost mut m: int = 0;
            proof {
                assert(all.skip(0) =~= all);
                assert(all.take(0) =~= Seq::<Declaration>::empty());
                assert(list0 + to_members(all.take(0)) =~= list0);
            }
            while sub_ast.len() > 0
                invariant
                    sv == *src,
                    n0 < k < n,
                    is_punct(sv, n0, Punct::LBrace),
                    n0 == (if pos + 1 < sv.toks@.len() && sv.toks@[pos + 1].kind == TokenKind::Identifier {
                        pos + 2
                    } else {
                        pos + 1
                    }),
                    0 <= m <= all.len(),
                    sub_ast@ == all.skip(m),
                    list@ == list0 + to_members(all.take(m)),
                    all_members(all.take(m)),
                decreases sub_ast@.len(),
            {
                let d = sub_ast.remove(0);
                proof {
                    assert(d == all[m]);
                    assert(all.skip(m + 1) =~= all.skip(m).drop_first());
                }
                let ghost d0 = d;
                match d.node {
                    DeclarationEnum::Declaration(t, Some(member_name), None) => {
                        let mb = StructMember { member_name, member_type: t.basic_type };
                        proof {
                            assert(mb == member_of(d0));
                            assert(all.take(m + 1).drop_last() =~= all.take(m));
                            assert(to_members(all.take(m + 1)) == to_members(all.take(m)).push(mb));
                            assert(list0 + to_members(all.take(m + 1)) =~= (list0 + to_members(all.take(m))).push(mb));
                            assert forall|i: int| 0 <= i < all.take(m + 1).len() implies (#[trigger] all.take(
                                m + 1,
                            )[i]).node matches DeclarationEnum::Declaration(_, Some(_), None) by {
                                if i < m {
                                    assert(all.take(m + 1)[i] == all.take(m)[i]);
                                }
                            }
                            m = m + 1;
                        }
                        list.push(mb);
                    },
                    _ => {
                        return Err(ParseError::InvalidStructMember(d.span.start));
                    },
                }
            }
            proof {
                assert(all.take(m) =~= all);
                lemma_named_of_members(all);
                assert(named_of(all).skip(0) =~= all);
                lemma_member_declaration(sv, k as int, n as int, all);
                lemma_member_decls_push(sv, n0 + 1, k as int, n as int, list0, to_members(all));
            }
            k = n;
        }
        k = k + 1;
        members = Some(list);
    }
    assert(members is Some <==> k > n0);
    let has_body = members.is_some();
    proof {
        lemma_pushed_in_none(sv, pos as int, k as int, ast0);
        lemma_structs_pushed_none(ast0);
    }
    match name {
        None => {
            if is_struct {
                Ok((BaseType::Struct(None, members), k))
            } else {
                Ok((BaseType::Union(None, members), k))
            }
        },
        Some(n) => {
            let short_name = copy_string(&n);
            if has_body {
                let definition = if is_struct {
                    BaseType::Struct(Some(n), members)
                } else {
                    BaseType::Union(Some(n), members)
                };
                let ghost gdef = definition;
                let d = Declaration {
                    node: DeclarationEnum::Declaration(
                        Type {
                            function_specifier: Vec::new(),
                            storage_class_specifier: StorageClassSpecifier::Auto,
                            basic_type: BasicType { qualifier: Vec::new(), base_type: definition },
                        },
                        None,
                        None,
                    ),
                    span: span_of(src, pos, k),
                };
                proof {
                    assert(struct_body_rel(sv, pos as int, k as int, gdef));
                    assert(struct_defined_in(sv, pos as int, k as int, d, true));
                    lemma_pushed_in_push(sv, pos as int, k as int, ast0, ast0, d);
                    lemma_structs_pushed_push(ast0, ast0, d);
                }
                ast.push(d);
            }
            if is_struct {
                Ok((BaseType::Struct(Some(short_name), None), k))
            } else {
                Ok((BaseType::Union(Some(short_name), None), k))
            }
        },
    }
}

/// A parameter list `( ... )` starting at the `(`: the parameters with their
/// names, and whether it ends with `...`.
pub fn build_function_parameter_list(src: &Src, pos: usize, ast: &mut Vec<Declaration>) -> (r: Result<
    (Vec<(BasicType, Option<String>)>, bool, usize),
    ParseError,
>)
    requires
        src.wf(),
        pos < src.toks.len(),
    ensures
        r matches Ok((_, _, n)) ==> pos < n <= src.toks.len() && pushed_in(*src, pos as int, n as int, old(ast)@, final(ast)@),
        r matches Ok(_) ==> structs_pushed(old(ast)@, final(ast)@),
        r matches Err(e) ==> !(e is Lex),
        r matches Ok((ps, v, n)) ==> params_rel(*src, pos as int, n as int, ps@, v),
        plain_params_end(*src, pos as int) matches Some(q) ==> (r matches Ok((_, _, n)) && n == q),
    decreases src.toks.len() - pos, 32nat,
{
    let ghost sv = *src;
    let ghost ast0 = ast@;
    let ghost target = plain_params_end(sv, pos as int);
    let mut k = expect(src, pos, Punct::LParen)?;
    let mut params: Vec<(BasicType, Option<String>)> = Vec::new();
    let mut variadic = false;
    proof {
        lemma_pushed_in_none(sv, pos as int, k as int, ast0);
        lemma_structs_pushed_none(ast0);
    }
    if is_p(src, k, Punct::RParen) {
        proof {
            lemma_pushed_in_none(sv, pos as int, k + 1, ast0);
        }
        assert(params_rel(sv, pos as int, k + 1, params@, false));
        return Ok((params, false, k + 1));
    }
    loop
        invariant_except_break
            params@.len() == 0 ==> k == pos + 1,
            params@.len() > 0 ==> pos + 2 < k && is_punct(sv, k - 1, Punct::Comma) && param_items(
                sv,
                pos + 1,
                k - 1,
                params@,
            ),
            !variadic,
            target is Some ==> plain_params_rest_end(sv, k as int) == target,
        invariant
            target == plain_params_end(sv, pos as int),
            pushed_in(sv, pos as int, k as int, ast0, ast@),
            structs_pushed(ast0, ast@),
            src.wf(),
            sv == *src,
            pos < k <= src.toks.len(),
            is_punct(sv, pos as int, Punct::LParen),
        ensures
            param_list(sv, pos + 1, k as int, params@, variadic),
            target is Some ==> is_punct(sv, k as int, Punct::RParen) && target == Some(k + 1),
        decreases src.toks.len() - k,
    {
        if is_p(src, k, Punct::Ellipsis) {
            variadic = true;
            proof {
                lemma_pushed_in_widen(sv, pos as int, k as int, pos as int, k + 1, ast0, ast@);
            }
            k = k + 1;
            assert(param_list(sv, pos + 1, k as int, params@, variadic));
            break;
        }
        let ghost mid = ast@;
        let (t, name, n) = build_function_parameter(src, k, ast)?;
        proof {
            lemma_pushed_in_trans(sv, pos as int, k as int, n as int, ast0, mid, ast@);
            lemma_structs_pushed_trans(ast0, mid, ast@);
        }
        let ghost before = params@;
        let ghost k0 = k as int;
        params.push((t, name));
        proof {
            if before.len() > 0 {
                assert(params@.drop_last() =~= before);
                assert(is_punct(sv, k0 - 1, Punct::Comma));
            }
            assert(param_items(sv, pos + 1, n as int, params@));
        }
        k = n;
        if is_p(src, k, Punct::Comma) {
            proof {
                lemma_pushed_in_widen(sv, pos as int, k as int, pos as int, k + 1, ast0, ast@);
            }
            k = k + 1;
        } else {
            break;
        }
    }
    let n = expect(src, k, Punct::RParen)?;
    proof {
        lemma_pushed_in_widen(sv, pos as int, k as int, pos as int, n as int, ast0, ast@);
    }
    assert(params_rel(sv, pos as int, n as int, params@, variadic));
    Ok((params, variadic, n))
}

/// A parameter: specifiers and a declarator whose name may be absent.
pub fn build_function_parameter(src: &Src, pos: usize, ast: &mut Vec<Declaration>) -> (r: Result<
    (BasicType, Option<String>, usize),
    ParseError,
>)
    requires
        src.wf(),
        pos <= src.toks.len(),
    ensures
        r matches Ok((t, name, n)) ==> parameter_rel(*src, pos as int, n as int, t, name_view(name)),
        plain_parameter_end(*src, pos as int) matches Some(m) ==> (r matches Ok((_, _, n)) && n == m),
        r matches Ok((_, _, n)) ==> pos < n <= src.toks.len() && pushed_in(*src, pos as int, n as int, old(ast)@, final(ast)@),
        r matches Ok(_) ==> structs_pushed(old(ast)@, final(ast)@),
        r matches Err(e) ==> !(e is Lex),
    decreases src.toks.len() - pos, 40nat,
{
    let ghost ast0 = ast@;
    proof {
        if plain_parameter_end(*src, pos as int) is Some {
            lemma_keyword_specifiers(*src, pos as int);
        }
    }
    let (t, k) = build_declaration_specifiers(src, pos, ast)?;
    let ghost ty = t;
    let ghost mid = ast@;
    proof {
        if plain_parameter_end(*src, pos as int) is Some {
            let kk = keyword_specifiers_end(*src, pos as int)->0;
            assert(keyword_state(*src, pos as int, kk) is Some);
            assert(k == kk);
            lemma_pointers_end(*src, k as int);
            let j = pointers_end(*src, k as int);
            if j < src.toks.len() && src.toks@[j].kind == TokenKind::Identifier {
                assert(plain_suffixes_end(*src, j + 1, true) == Some(j + 1));
            }
        }
    }
    let (bt, name, n) = build_raw_declarator(src, k, t.basic_type, true, ast)?;
    proof {
        lemma_pushed_in_trans(*src, pos as int, k as int, n as int, ast0, mid, ast@);
        lemma_structs_pushed_trans(ast0, mid, ast@);
        assert(specifiers_rel(*src, pos as int, k as int, ty));
        assert(declarator_rel(*src, k as int, n as int, ty.basic_type, true, bt, name_view(name)));
        lemma_parameter_intro(*src, pos as int, k as int, n as int, ty, bt, name_view(name));
    }
    assert(parameter_rel(*src, pos as int, n as int, bt, name_view(name)));
    Ok((bt, name, n))
}

/// The qualifiers that follow a `*` in a declarator.
fn parse_qualifiers(src: &Src, pos: usize) -> (r: (Vec<TypeQualifier>, usize))
    requires
        pos <= src.toks.len(),
    ensures
        pos <= r.1 <= src.toks.len(),
        r.1 == qualifiers_end(*src, pos as int),
        qualifier_list(*src, pos as int, r.1 as int, r.0@),
{
    let mut quals: Vec<TypeQualifier> = Vec::new();
    let mut k = pos;
    while k < src.toks.len()
        invariant
            pos <= k <= src.toks.len(),
            qualifiers_end(*src, pos as int) == qualifiers_end(*src, k as int),
            qualifier_list(*src, pos as int, k as int, quals@),
        ensures
            pos <= k <= src.toks.len(),
            qualifiers_end(*src, pos as int) == k,
            qualifier_list(*src, pos as int, k as int, quals@),
        decreases src.toks.len() - k,
    {
        match src.toks[k].kind {
            TokenKind::Keyword(kw) => match build_type_qualifier(kw) {
                Some(q) => {
                    let ghost before = quals@;
                    quals.push(q);
                    assert(quals@.drop_last() =~= before);
                    k = k + 1;
                },
                None => {
                    break;
                },
            },
            _ => {
                break;
            },
        }
    }
    (quals, k)
}

/// The pointers `* qualifiers` that begin a declarator, each wrapping `bt`.
pub fn build_pointer(src: &Src, pos: usize, bt: BasicType) -> (r: (BasicType, usize))
    requires
        pos <= src.toks.len(),
    ensures
        pos <= r.1 <= src.toks.len(),
        r.1 == pointers_end(*src, pos as int),
        pointers_rel(*src, pos as int, r.1 as int, bt, r.0),
{
    let ghost bt0 = bt;
    let mut bt = bt;
    let mut k = pos;
    while is_p(src, k, Punct::Star)
        invariant
            pos <= k <= src.toks.len(),
            pointers_end(*src, pos as int) == pointers_end(*src, k as int),
            pointers_rel(*src, pos as int, k as int, bt0, bt),
        decreases src.toks.len() - k,
    {
        let (quals, n) = parse_qualifiers(src, k + 1);
        let ghost s = k as int;
        let ghost prev = bt;
        bt = BasicType { qualifier: quals, base_type: BaseType::Pointer(Box::new(bt)) };
        assert(is_punct(*src, s, Punct::Star));
        assert(pointers_rel(*src, pos as int, n as int, bt0, bt));
        k = n;
    }
    (bt, k)
}

/// A declarator: pointers with their qualifiers, then a name (which may be
/// absent when `abstract_ok`), array lengths and a parameter list. The
/// parameter list makes `bt` a function type; array lengths then make it an
/// array of all the lengths, outermost first. Pointers and a name with no
/// `[` or `(` after it are always read, up to the name.
pub fn build_raw_declarator(src: &Src, pos: usize, bt: BasicType, abstract_ok: bool, ast: &mut Vec<Declaration>) -> (r: Result<
    (BasicType, Option<String>, usize),
    ParseError,
>)
    requires
        src.wf(),
        pos <= src.toks.len(),
    ensures
        r matches Ok((t, name, n)) ==> declarator_rel(*src, pos as int, n as int, bt, abstract_ok, t, name_view(name)),
        plain_suffixes_end(*src, pointers_end(*src, pos as int) + 1, true) matches Some(e) ==> (pointers_end(
            *src,
            pos as int,
        ) < src.toks.len() && src.toks@[pointers_end(*src, pos as int)].kind == TokenKind::Identifier ==> (r matches Ok(
            (_, name, n),
        ) && name is Some && n == e)),
        abstract_ok && !(pointers_end(*src, pos as int) < src.toks.len() && src.toks@[pointers_end(
            *src,
            pos as int,
        )].kind == TokenKind::Identifier) && !is_punct(*src, pointers_end(*src, pos as int), Punct::LBracket) && !is_punct(
            *src,
            pointers_end(*src, pos as int),
            Punct::LParen,
        ) ==> (r matches Ok((_, name, n)) && name is None && n == pointers_end(*src, pos as int)),
        r matches Ok((_, _, n)) ==> pos <= n <= src.toks.len() && pushed_in(*src, pos as int, n as int, old(ast)@, final(ast)@),
        r matches Ok(_) ==> structs_pushed(old(ast)@, final(ast)@),
        r matches Err(e) ==> !(e is Lex),
    decreases src.toks.len() - pos, 33nat,
{
    let ghost sv = *src;
    let ghost ast0 = ast@;
    let ghost bt0 = bt;
    let (bt, k) = build_pointer(src, pos, bt);
    let ghost pbt = bt;
    let ghost k_ptr = k as int;
    let mut bt = bt;
    let mut k = k;
    let mut name: Option<String> = None;
    if is_ident(src, k) {
        name = Some(text_of(src, k));
        k = k + 1;
    } else if !abstract_ok {
        return Err(err_at(src, k));
    }
    let ghost m = k as int;
    let ghost named = k_ptr < sv.toks@.len() && sv.toks@[k_ptr].kind == TokenKind::Identifier;
    let ghost target = if named {
        plain_suffixes_end(sv, k_ptr + 1, true)
    } else if abstract_ok && !is_punct(sv, k_ptr, Punct::LBracket) && !is_punct(sv, k_ptr, Punct::LParen) {
        Some(k_ptr)
    } else {
        None
    };
    assert(named ==> name is Some && m == k_ptr + 1);
    assert(!named ==> m == k_ptr);
    assert(name_part(sv, k_ptr, m, abstract_ok, name_view(name)));
    proof {
        lemma_pushed_in_none(sv, pos as int, k as int, ast0);
        lemma_structs_pushed_none(ast0);
    }
    let mut dims: Vec<Expression> = Vec::new();
    let mut function: Option<(Vec<BasicType>, bool)> = None;
    let ghost mut gfunc: Option<(Seq<(BasicType, Option<String>)>, bool)> = None;
    loop
        invariant
            pushed_in(sv, pos as int, k as int, ast0, ast@),
            structs_pushed(ast0, ast@),
            src.wf(),
            sv == *src,
            pos <= k <= src.toks.len(),
            m <= k,
            named == (k_ptr < sv.toks@.len() && sv.toks@[k_ptr].kind == TokenKind::Identifier),
            named ==> name is Some,
            target == (if named {
                plain_suffixes_end(sv, k_ptr + 1, true)
            } else if abstract_ok && !is_punct(sv, k_ptr, Punct::LBracket) && !is_punct(sv, k_ptr, Punct::LParen) {
                Some(k_ptr)
            } else {
                None
            }),
            target is Some ==> plain_suffixes_end(sv, k as int, function is None) == target,
            k_ptr == pointers_end(sv, pos as int),
            suffix_groups(sv, m, k as int, dims@, gfunc),
            function is None <==> gfunc is None,
            function matches Some((ts, v)) ==> (gfunc matches Some((ps, gv)) && ts@ == param_types(ps) && v == gv),
        ensures
            target is Some ==> target == Some(k as int),
        decreases src.toks.len() - k,
    {
        let ghost a = k as int;
        if is_p(src, k, Punct::LBracket) {
            let (e, n) = build_assignment_expression(src, k + 1)?;
            k = expect(src, n, Punct::RBracket)?;
            proof {
                lemma_pushed_in_widen(sv, pos as int, a, pos as int, k as int, ast0, ast@);
            }
            let ghost before = dims@;
            dims.push(e);
            proof {
                assert(dims@.drop_last() =~= before);
                assert(is_punct(sv, a, Punct::LBracket));
                assert(suffix_groups(sv, m, k as int, dims@, gfunc));
            }
        } else if is_p(src, k, Punct::LParen) && function.is_none() {
            let ghost mid = ast@;
            let (params, variadic, n) = build_function_parameter_list(src, k, ast)?;
            proof {
                lemma_pushed_in_trans(sv, pos as int, a, n as int, ast0, mid, ast@);
                lemma_structs_pushed_trans(ast0, mid, ast@);
            }
            let ghost ps = params@;
            let mut types: Vec<BasicType> = Vec::new();
            let mut params = params;
            let ghost mut q: int = 0;
            assert(ps.skip(0) =~= ps);
            while params.len() > 0
                invariant
                    0 <= q <= ps.len(),
                    params@ == ps.skip(q),
                    types@ == param_types(ps.take(q)),
                decreases params@.len(),
            {
                let (t, _) = params.remove(0);
                proof {
                    assert(ps[q].0 == t);
                    assert(ps.skip(q + 1) =~= ps.skip(q).drop_first());
                    assert(param_types(ps.take(q + 1)) =~= param_types(ps.take(q)).push(t));
                }
                types.push(t);
                proof {
                    q = q + 1;
                }
            }
            assert(ps.take(q) =~= ps);
            function = Some((types, variadic));
            proof {
                gfunc = Some((ps, variadic));
                assert(is_punct(sv, a, Punct::LParen));
                assert(suffix_groups(sv, m, n as int, dims@, gfunc));
            }
            k = n;
        } else {
            break;
        }
    }
    if let Some((types, variadic)) = function {
        bt = BasicType {
            qualifier: Vec::new(),
            base_type: BaseType::Function(Box::new(bt), types, variadic),
        };
    }
    let ghost fbt = bt;
    assert(function_of(pbt, gfunc, fbt));
    if dims.len() > 0 {
        bt = BasicType { qualifier: Vec::new(), base_type: BaseType::Array(Box::new(bt), dims) };
    }
    assert(suffix_type(pbt, dims@, gfunc, bt));
    assert(declarator_rel(sv, pos as int, k as int, bt0, abstract_ok, bt, name_view(name)));
    Ok((bt, name, k))
}

/// A declarator with an optional initializer `= expression`, declaring a name
/// of the declaration's type. A plain declarator (`plain_declarator_end`) is
/// always read, up to its name.
pub fn build_declarator_and_initializer(src: &Src, pos: usize, base: &Type, ast: &mut Vec<Declaration>) -> (r: Result<
    (Declaration, usize),
    ParseError,
>)
    requires
        src.wf(),
        pos <= src.toks.len(),
    ensures
        r matches Ok((d, n)) ==> variable_rel(*src, pos as int, n as int, *base, d.node) && d.span == tok_span(
            *src,
            pos as int,
            n as int,
        ),
        plain_declarator_end(*src, pos as int) matches Some(m) ==> (r matches Ok((_, n)) && n == m),
        r matches Ok((_, n)) ==> pos < n <= src.toks.len() && pushed_in(*src, pos as int, n as int, old(ast)@, final(ast)@),
        r matches Ok(_) ==> structs_pushed(old(ast)@, final(ast)@),
        r matches Err(e) ==> !(e is Lex),
    decreases src.toks.len() - pos, 40nat,
{
    let ghost sv = *src;
    let ghost ast0 = ast@;
    let t = copy_type(base);
    let ghost b = t.basic_type;
    let (bt, name, k) = build_raw_declarator(src, pos, t.basic_type, false, ast)?;
    let name = match name {
        Some(n) => n,
        None => {
            return Err(err_at(src, pos));
        },
    };
    if k == pos {
        return Err(err_at(src, pos));
    }
    let ghost e = k as int;
    let mut k = k;
    let mut init: Option<Box<Expression>> = None;
    if is_p(src, k, Punct::Assign) {
        let (x, n) = build_assignment_expression(src, k + 1)?;
        init = Some(Box::new(x));
        k = n;
    }
    proof {
        lemma_pushed_in_widen(sv, pos as int, e, pos as int, k as int, ast0, ast@);
    }
    let t = Type {
        function_specifier: t.function_specifier,
        storage_class_specifier: t.storage_class_specifier,
        basic_type: bt,
    };
    let d = Declaration { node: DeclarationEnum::Declaration(t, Some(name), init), span: span_of(src, pos, k) };
    assert(declarator_rel(sv, pos as int, e, b, false, t.basic_type, Some(name@)));
    assert(variable_rel(sv, pos as int, k as int, *base, d.node));
    Ok((d, k))
}

/// The declarators of a declaration, after its specifiers `t` over the
/// tokens `start..pos`. A list of plain declarators (`plain_declarators_end`)
/// is always read, up to its end.
#[verifier::rlimit(40)]
fn parse_init_declarators(src: &Src, pos: usize, t: &Type, ast: &mut Vec<Declaration>, Ghost(start): Ghost<int>) -> (r:
    Result<usize, ParseError>)
    requires
        src.wf(),
        pos <= src.toks.len(),
        0 <= start < pos,
        specifiers_rel(*src, start, pos as int, *t),
    ensures
        r matches Ok(n) ==> pos < n <= src.toks.len() && pushed_in(*src, start, n as int, old(ast)@, final(ast)@),
        r matches Ok(n) ==> names_kept(old(ast)@, final(ast)@) && init_declarators_rel(
            *src,
            pos as int,
            n as int,
            *t,
            names_added(old(ast)@, final(ast)@),
        ),
        r matches Err(e) ==> !(e is Lex),
        plain_declarators_end(*src, pos as int) matches Some(m) ==> r == Ok::<usize, ParseError>(m as usize),
    decreases src.toks.len() - pos, 41nat,
{
    let ghost sv = *src;
    let ghost ast0 = ast@;
    let mut k = pos;
    let ghost target = plain_declarators_end(sv, pos as int);
    let ghost mut vs: Seq<Declaration> = Seq::empty();
    proof {
        lemma_pushed_in_none(sv, start, k as int, ast0);
        assert(named_of(ast0) + vs =~= named_of(ast0));
    }
    loop
        invariant_except_break
            target matches Some(m0) ==> plain_declarators_end(sv, k as int) == Some(m0),
            vs.len() == 0 ==> k == pos,
            vs.len() > 0 ==> pos + 1 < k && is_punct(sv, k - 1, Punct::Comma) && init_declarators_rel(
                sv,
                pos as int,
                k - 1,
                *t,
                vs,
            ),
        invariant
            pushed_in(sv, start, k as int, ast0, ast@),
            named_of(ast@) == named_of(ast0) + vs,
            sv == *src,
            specifiers_rel(sv, start, pos as int, *t),
            0 <= start < pos,
            src.wf(),
            pos <= k <= src.toks.len(),
            target == plain_declarators_end(sv, pos as int),
        ensures
            pos < k,
            init_declarators_rel(sv, pos as int, k as int, *t, vs),
            target matches Some(m0) ==> k == m0,
        decreases src.toks.len() - k,
    {
        let ghost k0 = k as int;
        let ghost mid = ast@;
        proof {
            if target is Some {
                lemma_plain_declarators_step(sv, k0);
            }
        }
        let (d, n) = build_declarator_and_initializer(src, k, t, ast)?;
        proof {
            lemma_pushed_in_widen(sv, k0, n as int, start, n as int, mid, ast@);
            lemma_pushed_in_widen(sv, start, k0, start, n as int, ast0, mid);
            lemma_pushed_in_chain(sv, start, n as int, ast0, mid, ast@);
            assert(specifiers_rel(sv, start, pos as int, *t) && variable_rel(sv, k0, n as int, *t, d.node));
            assert(variable_in(sv, start, n as int, d, true));
            assert(local_declaration_in(sv, start, n as int, d, true));
            lemma_pushed_in_push(sv, start, n as int, ast0, ast@, d);
            lemma_named_of_structs_then(mid, ast@, d);
            lemma_init_declarators_push(sv, pos as int, k0, n as int, *t, vs, d);
            assert(named_of(ast0) + vs.push(d) =~= (named_of(ast0) + vs).push(d));
            vs = vs.push(d);
        }
        ast.push(d);
        k = n;
        if is_p(src, k, Punct::Comma) {
            proof {
                lemma_pushed_in_widen(sv, start, k as int, start, k + 1, ast0, ast@);
            }
            k = k + 1;
        } else {
            break;
        }
    }
    proof {
        lemma_names_added(ast0, ast@, vs);
    }
    Ok(k)
}

/// A declaration: specifiers, declarators, `;`. The names it declares (and
/// any struct or union it defines with a name) are appended to `ast`; the
/// names, in order, are those of its declarators (`declaration_rel`). A plain
/// declaration (keyword specifiers, then `;` or plain declarators and `;`) is
/// always read, up to its `;`.
#[verifier::rlimit(80)]
pub fn build_declaration(src: &Src, pos: usize, ast: &mut Vec<Declaration>) -> (r: Result<usize, ParseError>)
    requires
        src.wf(),
        pos <= src.toks.len(),
    ensures
        r matches Ok(n) ==> pos < n <= src.toks.len() && pushed_in(*src, pos as int, n as int, old(ast)@, final(ast)@),
        r matches Ok(n) ==> names_kept(old(ast)@, final(ast)@) && declaration_rel(
            *src,
            pos as int,
            n as int,
            names_added(old(ast)@, final(ast)@),
        ),
        r matches Err(e) ==> !(e is Lex),
        forall|k: int|
            #![trigger keyword_state(*src, pos as int, k)]
            pos < k <= src.toks.len() ==> (keyword_state(*src, pos as int, k) matches Some(st) ==> (specifiers_stop(
                *src,
                k,
                st,
            ) && st.0.len() <= 1 && combine_spec(st.3, st.4) is Some ==> (is_punct(*src, k, Punct::Semicolon) ==> r
                == Ok::<usize, ParseError>((k + 1) as usize)) && (plain_declarators_end(*src, k) matches Some(m) ==> (
            is_punct(*src, m, Punct::Semicolon) ==> r == Ok::<usize, ParseError>((m + 1) as usize))))),
        specifiers_stop(*src, pos as int, no_specifiers()) ==> r is Err,
    decreases src.toks.len() - pos, 43nat,
{
    let ghost sv = *src;
    let ghost ast0 = ast@;
    let (t, k) = build_declaration_specifiers(src, pos, ast)?;
    if is_p(src, k, Punct::Semicolon) {
        proof {
            lemma_pushed_in_widen(sv, pos as int, k as int, pos as int, k + 1, ast0, ast@);
            let e: Seq<Declaration> = Seq::empty();
            lemma_named_of_structs(ast0, ast@);
            assert(declaration_rel(sv, pos as int, k + 1, e));
            assert(named_of(ast0) + e =~= named_of(ast0));
            lemma_names_added(ast0, ast@, e);
        }
        return Ok(k + 1);
    }
    let ghost mid = ast@;
    let n = parse_init_declarators(src, k, &t, ast, Ghost(pos as int))?;
    let ghost vs = names_added(mid, ast@);
    let n = expect(src, n, Punct::Semicolon)?;
    proof {
        lemma_pushed_in_widen(sv, pos as int, k as int, pos as int, n as int, ast0, mid);
        lemma_pushed_in_widen(sv, pos as int, (n - 1) as int, pos as int, n as int, mid, ast@);
        lemma_pushed_in_chain(sv, pos as int, n as int, ast0, mid, ast@);
        lemma_names_after_structs(ast0, mid, ast@);
        assert(declaration_rel(sv, pos as int, n as int, vs));
        lemma_names_added(ast0, ast@, vs);
    }
    Ok(n)
}

/// A type in a cast or in `sizeof`: specifiers and a declarator without a name.
pub fn build_type_name(src: &Src, pos: usize) -> (r: Result<(BasicType, usize), ParseError>)
    requires
        src.wf(),
        pos <= src.toks.len(),
    ensures
        r matches Ok((_, n)) ==> pos < n <= src.toks.len(),
        r matches Err(e) ==> !(e is Lex),
        r matches Ok((t, n)) ==> type_name_at(*src, pos as int, n as int, t),
        plain_type_name_end(*src, pos as int) matches Some(e) ==> (r matches Ok((_, n)) && n == e),
    decreases src.toks.len() - pos, 40nat,
{
    let mut fake_ast: Vec<Declaration> = Vec::new();
    let ghost tn = plain_type_name_end(*src, pos as int);
    let ghost kk = (keyword_scan(*src, pos as int, no_specifiers())->0).0;
    proof {
        if tn is Some {
            assert(keyword_state(*src, pos as int, pos as int) == Some(no_specifiers()));
            lemma_keyword_scan(*src, pos as int, pos as int, no_specifiers());
            let kk = (keyword_scan(*src, pos as int, no_specifiers())->0).0;
            if kk > src.toks.len() {
                lemma_keyword_state_prefix(*src, pos as int, src.toks.len() as int, kk);
            }
            assert(keyword_state(*src, pos as int, kk) is Some);
        }
    }
    let (t, k) = build_declaration_specifiers(src, pos, &mut fake_ast)?;
    proof {
        if tn is Some {
            assert(k == kk);
            assert(t.storage_class_specifier == StorageClassSpecifier::Auto);
            lemma_pointers_end(*src, k as int);
        }
    }
    let ghost ty = t;
    let (bt, name, n) = build_raw_declarator(src, k, t.basic_type, true, &mut fake_ast)?;
    if name.is_some() {
        return Err(err_at(src, k));
    }
    if t.storage_class_specifier != StorageClassSpecifier::Auto {
        return Err(ParseError::StorageClassInTypeName(src.toks[pos].start));
    }
    assert(parameter_split(pos as int, k as int, n as int, ty));
    assert(type_name_at(*src, pos as int, n as int, bt));
    Ok((bt, n))
}

/// A function definition at token `pos`: specifiers, pointers, a name, a
/// parameter list and a body in braces. `None` when the tokens do not have
/// that shape up to the body (`no_definition_after` the specifiers); an
/// error in the specifiers, the parameter list or the body is returned as it
/// is. Structs and unions that the specifiers and the
/// parameters define with a name are declared in `ast` before the function.
/// After keyword specifiers that no name and `(` follow, it is `None`.
pub fn build_function_definition(src: &Src, pos: usize, ast: &mut Vec<Declaration>) -> (r: Result<
    Option<usize>,
    ParseError,
>)
    requires
        src.wf(),
        pos <= src.toks.len(),
    ensures
        r matches Ok(Some(n)) ==> pos < n <= src.toks.len() && declared_in(*src, pos as int, n as int, old(ast)@, final(ast)@),
        r matches Ok(Some(n)) ==> names_kept(old(ast)@, final(ast)@) && external_rel(
            *src,
            pos as int,
            n as int,
            names_added(old(ast)@, final(ast)@),
        ),
        r matches Ok(None) ==> final(ast)@ == old(ast)@,
        r matches Ok(None) ==> exists|k: int, t: Type|
            #![trigger specifiers_rel(*src, pos as int, k, t)]
            pos < k <= src.toks.len() && specifiers_rel(*src, pos as int, k, t) && no_definition_after(*src, k),
        r matches Err(e) ==> !(e is Lex),
        forall|k: int|
            #![trigger keyword_state(*src, pos as int, k)]
            pos < k <= src.toks.len() ==> (keyword_state(*src, pos as int, k) matches Some(st) ==> (specifiers_stop(
                *src,
                k,
                st,
            ) && st.0.len() <= 1 && combine_spec(st.3, st.4) is Some ==> (is_punct(*src, k, Punct::Semicolon) ==> r
                == Ok::<Option<usize>, ParseError>(None)) && (plain_declarators_end(*src, k) matches Some(m) ==> (
            is_punct(*src, m, Punct::Semicolon) ==> r == Ok::<Option<usize>, ParseError>(None))) && (is_ident_spec(
                *src,
                pointers_end(*src, k),
            ) && is_punct(*src, pointers_end(*src, k) + 1, Punct::LParen) ==> (plain_params_end(
                *src,
                pointers_end(*src, k) + 1,
            ) matches Some(b) ==> (is_punct(*src, b, Punct::LBrace) ==> (plain_statement_end(*src, b) matches Some(q)
                ==> r == Ok::<Option<usize>, ParseError>(Some(q as usize)))))))),
    decreases src.toks.len() - pos, 49nat,
{
    let ghost sv = *src;
    let ghost ast0 = ast@;
    let mut specifier_ast: Vec<Declaration> = Vec::new();
    let (t, k) = build_declaration_specifiers(src, pos, &mut specifier_ast)?;
    let ghost gt = t;
    let b = copy_basic_type(&t.basic_type);
    let ghost gb = b;
    let (bt, k1) = build_pointer(src, k, b);
    proof {
        if plain_declarators_end(*src, k as int) matches Some(m) && is_punct(*src, m, Punct::Semicolon) {
            if is_ident_spec(*src, k1 as int) && is_punct(*src, k1 + 1, Punct::LParen) {
                lemma_declarators_not_definition(*src, k as int);
            }
        }
    }
    if is_ident(src, k1) && is_p(src, k1 + 1, Punct::LParen) {
        let mut param_ast: Vec<Declaration> = Vec::new();
        let (params, variadic, k2) = build_function_parameter_list(src, k1 + 1, &mut param_ast)?;
        if is_p(src, k2, Punct::LBrace) {
            let (body, k3) = build_compound_statement(src, k2)?;
            let ghost gbody = body;
            let ghost gbt = bt;
            let ghost spec_part = specifier_ast@;
            let ghost param_part = param_ast@;
            ast.append(&mut specifier_ast);
            ast.append(&mut param_ast);
            let name = text_of(src, k1);
            let d = Declaration {
                node: DeclarationEnum::FunctionDefinition(
                    t.function_specifier,
                    t.storage_class_specifier,
                    Box::new(bt),
                    name,
                    params,
                    variadic,
                    body,
                ),
                span: span_of(src, pos, k3),
            };
            proof {
                lemma_pushed_in_widen(sv, pos as int, k as int, pos as int, k3 as int, Seq::empty(), spec_part);
                lemma_pushed_in_widen(sv, k1 + 1, k2 as int, pos as int, k3 as int, Seq::empty(), param_part);
                lemma_pushed_in_append(sv, pos as int, k3 as int, ast0, spec_part);
                lemma_pushed_in_append(sv, pos as int, k3 as int, ast0 + spec_part, param_part);
                lemma_pushed_in_chain(sv, pos as int, k3 as int, ast0, ast0 + spec_part, ast@);
                lemma_declared_from_pushed(sv, pos as int, k3 as int, ast0, ast@);
                assert(specifiers_rel(sv, pos as int, k as int, gt) && pointers_rel(sv, k as int, k1 as int, gb, gbt)
                    && statement(sv, k2 as int, k3 as int, gbody));
                assert(function_defined_in(sv, pos as int, k3 as int, d));
                lemma_declared_in_push(sv, pos as int, k3 as int, ast0, ast@, d);
                lemma_structs_pushed_append(ast0, spec_part);
                lemma_structs_pushed_append(ast0 + spec_part, param_part);
                lemma_structs_pushed_trans(ast0, ast0 + spec_part, ast@);
                lemma_named_of_structs_then(ast0, ast@, d);
                assert(named_of(ast0).push(d) =~= named_of(ast0) + seq![d]);
                lemma_names_added(ast0, ast@.push(d), seq![d]);
                assert(external_rel(sv, pos as int, k3 as int, seq![d]));
            }
            ast.push(d);
            return Ok(Some(k3));
        }
        proof {
            assert(params_rel(sv, k1 + 1, k2 as int, params@, variadic));
            assert(no_definition_after(sv, k as int));
        }
        return Ok(None);
    }
    assert(no_definition_after(sv, k as int));
    Ok(None)
}

/// A global declaration or a function definition. A plain declaration is
/// always read, up to its `;`.
pub fn parse_external(src: &Src, pos: usize, ast: &mut Vec<Declaration>) -> (r: Result<usize, ParseError>)
    requires
        src.wf(),
        pos <= src.toks.len(),
    ensures
        r matches Ok(n) ==> pos < n <= src.toks.len() && declared_in(*src, pos as int, n as int, old(ast)@, final(ast)@),
        r matches Ok(n) ==> names_kept(old(ast)@, final(ast)@) && external_rel(
            *src,
            pos as int,
            n as int,
            names_added(old(ast)@, final(ast)@),
        ),
        r matches Err(e) ==> !(e is Lex),
        forall|k: int|
            #![trigger keyword_state(*src, pos as int, k)]
            pos < k <= src.toks.len() ==> (keyword_state(*src, pos as int, k) matches Some(st) ==> (specifiers_stop(
                *src,
                k,
                st,
            ) && st.0.len() <= 1 && combine_spec(st.3, st.4) is Some ==> (is_punct(*src, k, Punct::Semicolon) ==> r
                == Ok::<usize, ParseError>((k + 1) as usize)) && (plain_declarators_end(*src, k) matches Some(m) ==> (
            is_punct(*src, m, Punct::Semicolon) ==> r == Ok::<usize, ParseError>((m + 1) as usize))) && (is_ident_spec(
                *src,
                pointers_end(*src, k),
            ) && is_punct(*src, pointers_end(*src, k) + 1, Punct::LParen) ==> (plain_params_end(
                *src,
                pointers_end(*src, k) + 1,
            ) matches Some(b) ==> (is_punct(*src, b, Punct::LBrace) ==> (plain_statement_end(*src, b) matches Some(q)
                ==> r == Ok::<usize, ParseError>(q as usize))))))),
    decreases src.toks.len() - pos, 50nat,
{
    let ghost ast0 = ast@;
    if let Some(n) = build_function_definition(src, pos, ast)? {
        return Ok(n);
    }
    let n = build_declaration(src, pos, ast)?;
    proof {
        lemma_declared_from_pushed(*src, pos as int, n as int, ast0, ast@);
    }
    Ok(n)
}

/// A compound statement `{ ... }` of statements and declarations, its
/// elements in order (`block_items`).
pub fn build_compound_statement(src: &Src, pos: usize) -> (r: Result<(Statement, usize), ParseError>)
    requires
        src.wf(),
        pos <= src.toks.len(),
    ensures
        r matches Ok((_, n)) ==> pos < n <= src.toks.len(),
        r matches Err(e) ==> !(e is Lex),
        r matches Ok((st, n)) ==> statement(*src, pos as int, n as int, st),
        is_punct(*src, pos as int, Punct::LBrace) ==> (plain_statement_end(*src, pos as int) matches Some(n) ==> (r matches Ok((_, m)) && m == n)),
    decreases src.toks.len() - pos, 44nat,
{
    let ghost sv = *src;
    let ghost tgt = is_punct(sv, pos as int, Punct::LBrace) && plain_statement_end(sv, pos as int) is Some;
    let ghost c = plain_statement_end(sv, pos as int)->0 - 1;
    let mut k = expect(src, pos, Punct::LBrace)?;
    let mut items: Vec<StatementOrDeclaration> = Vec::new();
    while !is_p(src, k, Punct::RBrace)
        invariant
            tgt == (is_punct(sv, pos as int, Punct::LBrace) && plain_statement_end(sv, pos as int) is Some),
            tgt ==> plain_items_end(sv, k as int) == Some(c) && is_punct(sv, c, Punct::RBrace),
            tgt ==> plain_statement_end(sv, pos as int) == Some(c + 1),
            src.wf(),
            sv == *src,
            pos < k <= src.toks.len(),
            is_punct(sv, pos as int, Punct::LBrace),
            block_items(sv, pos + 1, k as int, items@),
        decreases src.toks.len() - k,
    {
        if k >= src.toks.len() {
            proof {
                assert(plain_items_end(sv, k as int) is None);
            }
            return Err(ParseError::UnexpectedEnd);
        }
        let mut sub_ast: Vec<Declaration> = Vec::new();
        proof {
            if tgt && plain_local_declaration_end(sv, k as int) is Some {
                lemma_keyword_specifiers(sv, k as int);
            }
        }
        match build_declaration(src, k, &mut sub_ast) {
            Ok(n) => {
                let span = span_of(src, k, n);
                let ghost items0 = items@;
                let ghost all = sub_ast@;
                let ghost mut g: Seq<StatementOrDeclaration> = Seq::empty();
                let ghost mut m: int = 0;
                proof {
                    assert(all.skip(0) =~= all);
                    assert(all.take(0) =~= Seq::<Declaration>::empty());
                    assert(nodes_of(Seq::<Declaration>::empty()) =~= Seq::<DeclarationEnum>::empty());
                    assert(items0 + g =~= items0);
                }
                proof {
                    if tgt {
                        assert(plain_items_end(sv, n as int) == Some(c));
                    }
                }
                while sub_ast.len() > 0
                    invariant
                        tgt ==> plain_items_end(sv, n as int) == Some(c) && is_punct(sv, c, Punct::RBrace),
                        tgt ==> plain_statement_end(sv, pos as int) == Some(c + 1),
                        forall|q: int| 0 <= q < all.len() ==> local_declaration_in(sv, k as int, n as int, #[trigger] all[q], true),
                        sv == *src,
                        pos < k < n <= src.toks.len(),
                        span == tok_span(sv, k as int, n as int),
                        0 <= m <= all.len(),
                        sub_ast@ == all.skip(m),
                        g.len() == m,
                        items@ == items0 + g,
                        forall|q: int| 0 <= q < g.len() ==> local_item(sv, k as int, n as int, #[trigger] g[q]),
                        nodes_of(group_decls(g)) == nodes_of(all.take(m)),
                    decreases sub_ast@.len(),
                {
                    let d = sub_ast.remove(0);
                    proof {
                        assert(d == all[m]);
                        assert(all.skip(m + 1) =~= all.skip(m).drop_first());
                        assert(local_declaration_in(sv, k as int, n as int, all[m], true));
                    }
                    let ghost d0 = d;
                    match d.node {
                        DeclarationEnum::Declaration(t, name, init) => {
                            let local = Declaration { node: DeclarationEnum::Declaration(t, name, init), span };
                            proof {
                                lemma_local_declaration_respan(sv, k as int, n as int, d0, local);
                            }
                            let it = StatementOrDeclaration {
                                node: StatementOrDeclarationEnum::LocalDeclaration(local),
                                span,
                            };
                            proof {
                                assert(local_item(sv, k as int, n as int, it));
                                lemma_group_decls_push(g, it, local);
                                assert(nodes_of(group_decls(g).push(local)) =~= nodes_of(group_decls(g)).push(local.node));
                                assert(nodes_of(all.take(m + 1)) =~= nodes_of(all.take(m)).push(all[m].node));
                                assert forall|q: int| 0 <= q < g.push(it).len() implies local_item(
                                    sv,
                                    k as int,
                                    n as int,
                                    #[trigger] g.push(it)[q],
                                ) by {
                                    if q < g.len() {
                                        assert(g.push(it)[q] == g[q]);
                                    }
                                }
                                assert(items0 + g.push(it) =~= (items0 + g).push(it));
                                g = g.push(it);
                                m = m + 1;
                            }
                            items.push(it);
                        },
                        _ => {
                            // a declaration never pushes a function definition
                            proof {
                                assert(false);
                            }
                            return Err(ParseError::UnexpectedToken(span.start));
                        },
                    }
                }
                proof {
                    assert(all.take(m) =~= all);
                    lemma_named_nodes(group_decls(g), all);
                    assert(named_of(all).skip(0) =~= named_of(all));
                    assert(declaration_rel(sv, k as int, n as int, named_of(all)));
                    assert(block_group(sv, k as int, n as int, g));
                    lemma_block_items_push(sv, pos + 1, k as int, n as int, items0, g);
                }
                k = n;
            },
            Err(_) => {
                proof {
                    if tgt {
                        assert(plain_local_declaration_end(sv, k as int) is None);
                        assert(specifiers_stop(sv, k as int, no_specifiers()));
                        assert(plain_statement_end(sv, k as int) is Some);
                    }
                }
                let (s, n) = build_statement(src, k)?;
                let it = StatementOrDeclaration { node: StatementOrDeclarationEnum::Statement(s), span: span_of(src, k, n) };
                proof {
                    assert(block_group(sv, k as int, n as int, seq![it]));
                    lemma_block_items_push(sv, pos + 1, k as int, n as int, items@, seq![it]);
                    assert(items@ + seq![it] =~= items@.push(it));
                }
                items.push(it);
                k = n;
            },
        }
    }
    let st = Statement { node: StatementEnum::Compound(items), span: span_of(src, pos, k + 1) };
    assert(statement(sv, pos as int, k + 1, st));
    Ok((st, k + 1))
}

/// `( expression )` after a keyword at `pos - 1`.
fn parse_paren_expression(src: &Src, pos: usize) -> (r: Result<(Expression, usize), ParseError>)
    requires
        src.wf(),
        pos <= src.toks.len(),
    ensures
        r matches Ok((_, n)) ==> pos < n <= src.toks.len(),
        r matches Err(e) ==> !(e is Lex),
        r matches Ok((e, n)) ==> paren_expression(*src, pos as int, n as int, e),
        is_punct(*src, pos as int, Punct::LParen) && atom_at(*src, pos + 1) && is_punct(*src, pos + 2, Punct::RParen) ==> (r matches Ok((_, m)) && m == pos + 3),
    decreases src.toks.len() - pos, 16nat,
{
    let k = expect(src, pos, Punct::LParen)?;
    let (e, n) = build_expression(src, k)?;
    let n = expect(src, n, Punct::RParen)?;
    Ok((e, n))
}

/// The first clause of a `for`: declarations or an expression.
pub fn build_for_init_clause(src: &Src, pos: usize) -> (r: Result<(ForInitClause, usize), ParseError>)
    requires
        src.wf(),
        pos <= src.toks.len(),
    ensures
        r matches Ok((_, n)) ==> pos < n <= src.toks.len(),
        r matches Err(e) ==> !(e is Lex),
        r matches Ok((c, n)) ==> for_init(*src, pos as int, n as int, c),
        !is_punct(*src, pos as int, Punct::Semicolon) ==> (plain_for_init_end(*src, pos as int) matches Some(a) ==> (r matches Ok((_, m)) && m == a)),
    decreases src.toks.len() - pos, 42nat,
{
    let mut sub_ast: Vec<Declaration> = Vec::new();
    proof {
        if keyword_specifiers_end(*src, pos as int) is Some {
            lemma_keyword_specifiers(*src, pos as int);
        }
    }
    if let Ok((t, k)) = build_declaration_specifiers(src, pos, &mut sub_ast) {
        let ghost mid = sub_ast@;
        let n = parse_init_declarators(src, k, &t, &mut sub_ast, Ghost(pos as int))?;
        proof {
            lemma_pushed_in_widen(*src, pos as int, k as int, pos as int, n as int, Seq::empty(), mid);
            lemma_pushed_in_chain(*src, pos as int, n as int, Seq::empty(), mid, sub_ast@);
            lemma_names_after_structs(Seq::empty(), mid, sub_ast@);
            assert(named_of(Seq::<Declaration>::empty()) =~= Seq::<Declaration>::empty());
            assert(named_of(sub_ast@) =~= names_added(mid, sub_ast@));
            assert(parameter_split(pos as int, k as int, n as int, t));
        }
        return Ok((
            ForInitClause { node: ForInitClauseEnum::ForDeclaration(sub_ast), span: span_of(src, pos, n) },
            n,
        ));
    }
    let (e, n) = build_expression(src, pos)?;
    Ok((ForInitClause { node: ForInitClauseEnum::Expression(e), span: span_of(src, pos, n) }, n))
}

/// The statement that starts at token `pos` (`statement`).
pub fn build_statement(src: &Src, pos: usize) -> (r: Result<(Statement, usize), ParseError>)
    requires
        src.wf(),
        pos <= src.toks.len(),
    ensures
        r matches Ok((_, n)) ==> pos < n <= src.toks.len(),
        r matches Err(e) ==> !(e is Lex),
        r matches Ok((st, n)) ==> statement(*src, pos as int, n as int, st),
        plain_statement_end(*src, pos as int) matches Some(n) ==> (r matches Ok((_, m)) && m == n),
    decreases src.toks.len() - pos, 48nat,
{
    if pos >= src.toks.len() {
        return Err(ParseError::UnexpectedEnd);
    }
    let kind = src.toks[pos].kind;
    if kind == TokenKind::Identifier && is_p(src, pos + 1, Punct::Colon) {
        return build_labeled_statement(src, pos);
    }
    match kind {
        TokenKind::Keyword(Keyword::Case) | TokenKind::Keyword(Keyword::Default) => build_case_statement(src, pos),
        TokenKind::Punct(Punct::LBrace) => build_compound_statement(src, pos),
        TokenKind::Keyword(Keyword::If) | TokenKind::Keyword(Keyword::Switch) => build_selection_statement(src, pos),
        TokenKind::Keyword(Keyword::While) | TokenKind::Keyword(Keyword::Do) | TokenKind::Keyword(Keyword::For) => {
            build_iteration_statement(src, pos)
        },
        TokenKind::Keyword(Keyword::Break) | TokenKind::Keyword(Keyword::Continue) | TokenKind::Keyword(
            Keyword::Return,
        ) | TokenKind::Keyword(Keyword::Goto) => build_jump_statement(src, pos),
        _ => build_expression_statement(src, pos),
    }
}

/// `if` or `switch` at token `pos`.
pub fn build_selection_statement(src: &Src, pos: usize) -> (r: Result<(Statement, usize), ParseError>)
    requires
        src.wf(),
        pos <= src.toks.len(),
    ensures
        r matches Ok((_, n)) ==> pos < n <= src.toks.len(),
        r matches Err(e) ==> !(e is Lex),
        r matches Ok((st, n)) ==> statement(*src, pos as int, n as int, st),
        (is_keyword(*src, pos as int, Keyword::If) || is_keyword(*src, pos as int, Keyword::Switch)) ==> (plain_statement_end(*src, pos as int) matches Some(n) ==> (r matches Ok((_, m)) && m == n)),
    decreases src.toks.len() - pos, 47nat,
{
    if is_k(src, pos, Keyword::If) {
        build_if_statement(src, pos)
    } else if is_k(src, pos, Keyword::Switch) {
        build_switch_statement(src, pos)
    } else {
        Err(err_at(src, pos))
    }
}

/// `while`, `do` or `for` at token `pos`.
pub fn build_iteration_statement(src: &Src, pos: usize) -> (r: Result<(Statement, usize), ParseError>)
    requires
        src.wf(),
        pos <= src.toks.len(),
    ensures
        r matches Ok((_, n)) ==> pos < n <= src.toks.len(),
        r matches Err(e) ==> !(e is Lex),
        r matches Ok((st, n)) ==> statement(*src, pos as int, n as int, st),
        (is_keyword(*src, pos as int, Keyword::While) || is_keyword(*src, pos as int, Keyword::Do) || is_keyword(*src, pos as int, Keyword::For)) ==> (plain_statement_end(*src, pos as int) matches Some(n) ==> (r matches Ok((_, m)) && m == n)),
    decreases src.toks.len() - pos, 47nat,
{
    if is_k(src, pos, Keyword::While) {
        build_while_statement(src, pos)
    } else if is_k(src, pos, Keyword::Do) {
        build_do_while_statement(src, pos)
    } else if is_k(src, pos, Keyword::For) {
        build_for_statement(src, pos)
    } else {
        Err(err_at(src, pos))
    }
}

/// `label : statement` at token `pos`.
pub fn build_labeled_statement(src: &Src, pos: usize) -> (r: Result<(Statement, usize), ParseError>)
    requires
        src.wf(),
        pos <= src.toks.len(),
    ensures
        r matches Ok((_, n)) ==> pos < n <= src.toks.len(),
        r matches Err(e) ==> !(e is Lex),
        r matches Ok((st, n)) ==> statement(*src, pos as int, n as int, st),
        (pos < src.toks.len() && src.toks@[pos as int].kind == TokenKind::Identifier && is_punct(*src, pos + 1, Punct::Colon)) ==> (plain_statement_end(*src, pos as int) matches Some(n) ==> (r matches Ok((_, m)) && m == n)),
    decreases src.toks.len() - pos, 46nat,
{
    if !(is_ident(src, pos) && is_p(src, pos + 1, Punct::Colon)) {
        return Err(err_at(src, pos));
    }
    let label = text_of(src, pos);
    let (s, n) = build_statement(src, pos + 2)?;
    let st = Statement { node: StatementEnum::Labeled(label, Box::new(s)), span: span_of(src, pos, n) };
    assert(statement(*src, pos as int, n as int, st));
    Ok((st, n))
}

/// `case expression : statement` or `default : statement` at token `pos`.
pub fn build_case_statement(src: &Src, pos: usize) -> (r: Result<(Statement, usize), ParseError>)
    requires
        src.wf(),
        pos <= src.toks.len(),
    ensures
        r matches Ok((_, n)) ==> pos < n <= src.toks.len(),
        r matches Err(e) ==> !(e is Lex),
        r matches Ok((st, n)) ==> statement(*src, pos as int, n as int, st),
        (is_keyword(*src, pos as int, Keyword::Case) || is_keyword(*src, pos as int, Keyword::Default)) ==> (plain_statement_end(*src, pos as int) matches Some(n) ==> (r matches Ok((_, m)) && m == n)),
    decreases src.toks.len() - pos, 46nat,
{
    if is_k(src, pos, Keyword::Case) {
        let (e, k) = build_assignment_expression(src, pos + 1)?;
        let k = expect(src, k, Punct::Colon)?;
        let (s, n) = build_statement(src, k)?;
        let st = Statement { node: StatementEnum::Case(Some(Box::new(e)), Box::new(s)), span: span_of(src, pos, n) };
        assert(src.toks@[k - 1].kind == TokenKind::Punct(Punct::Colon));
        assert(statement(*src, pos as int, n as int, st));
        Ok((st, n))
    } else if is_k(src, pos, Keyword::Default) {
        let k = expect(src, pos + 1, Punct::Colon)?;
        let (s, n) = build_statement(src, k)?;
        let st = Statement { node: StatementEnum::Case(None, Box::new(s)), span: span_of(src, pos, n) };
        assert(statement(*src, pos as int, n as int, st));
        Ok((st, n))
    } else {
        Err(err_at(src, pos))
    }
}

/// `if ( expression ) statement`, with `else statement` when an `else`
/// follows, at token `pos`.
pub fn build_if_statement(src: &Src, pos: usize) -> (r: Result<(Statement, usize), ParseError>)
    requires
        src.wf(),
        pos <= src.toks.len(),
    ensures
        r matches Ok((_, n)) ==> pos < n <= src.toks.len(),
        r matches Err(e) ==> !(e is Lex),
        r matches Ok((st, n)) ==> statement(*src, pos as int, n as int, st),
        is_keyword(*src, pos as int, Keyword::If) ==> (plain_statement_end(*src, pos as int) matches Some(n) ==> (r matches Ok((_, m)) && m == n)),
    decreases src.toks.len() - pos, 46nat,
{
    if !is_k(src, pos, Keyword::If) {
        return Err(err_at(src, pos));
    }
    let (c, k) = parse_paren_expression(src, pos + 1)?;
    let (t, k) = build_statement(src, k)?;
    let mut n = k;
    let mut e: Option<Box<Statement>> = None;
    if is_k(src, k, Keyword::Else) {
        let (f, k2) = build_statement(src, k + 1)?;
        e = Some(Box::new(f));
        n = k2;
    }
    let st = Statement { node: StatementEnum::If(Box::new(c), Box::new(t), e), span: span_of(src, pos, n) };
    assert(src.toks@[k as int] == src.toks@[k as int]);
    assert(statement(*src, pos as int, n as int, st));
    Ok((st, n))
}

/// `switch ( expression ) statement` at token `pos`.
pub fn build_switch_statement(src: &Src, pos: usize) -> (r: Result<(Statement, usize), ParseError>)
    requires
        src.wf(),
        pos <= src.toks.len(),
    ensures
        r matches Ok((_, n)) ==> pos < n <= src.toks.len(),
        r matches Err(e) ==> !(e is Lex),
        r matches Ok((st, n)) ==> statement(*src, pos as int, n as int, st),
        is_keyword(*src, pos as int, Keyword::Switch) ==> (plain_statement_end(*src, pos as int) matches Some(n) ==> (r matches Ok((_, m)) && m == n)),
    decreases src.toks.len() - pos, 46nat,
{
    if !is_k(src, pos, Keyword::Switch) {
        return Err(err_at(src, pos));
    }
    let (c, k) = parse_paren_expression(src, pos + 1)?;
    let (s, n) = build_statement(src, k)?;
    let st = Statement { node: StatementEnum::Switch(Box::new(c), Box::new(s)), span: span_of(src, pos, n) };
    assert(src.toks@[k as int] == src.toks@[k as int]);
    assert(statement(*src, pos as int, n as int, st));
    Ok((st, n))
}

/// `while ( expression ) statement` at token `pos`.
pub fn build_while_statement(src: &Src, pos: usize) -> (r: Result<(Statement, usize), ParseError>)
    requires
        src.wf(),
        pos <= src.toks.len(),
    ensures
        r matches Ok((_, n)) ==> pos < n <= src.toks.len(),
        r matches Err(e) ==> !(e is Lex),
        r matches Ok((st, n)) ==> statement(*src, pos as int, n as int, st),
        is_keyword(*src, pos as int, Keyword::While) ==> (plain_statement_end(*src, pos as int) matches Some(n) ==> (r matches Ok((_, m)) && m == n)),
    decreases src.toks.len() - pos, 46nat,
{
    if !is_k(src, pos, Keyword::While) {
        return Err(err_at(src, pos));
    }
    let (c, k) = parse_paren_expression(src, pos + 1)?;
    let (s, n) = build_statement(src, k)?;
    let st = Statement { node: StatementEnum::While(Box::new(c), Box::new(s)), span: span_of(src, pos, n) };
    assert(src.toks@[k as int] == src.toks@[k as int]);
    assert(statement(*src, pos as int, n as int, st));
    Ok((st, n))
}

/// `do statement while ( expression ) ;` at token `pos`.
pub fn build_do_while_statement(src: &Src, pos: usize) -> (r: Result<(Statement, usize), ParseError>)
    requires
        src.wf(),
        pos <= src.toks.len(),
    ensures
        r matches Ok((_, n)) ==> pos < n <= src.toks.len(),
        r matches Err(e) ==> !(e is Lex),
        r matches Ok((st, n)) ==> statement(*src, pos as int, n as int, st),
        is_keyword(*src, pos as int, Keyword::Do) ==> (plain_statement_end(*src, pos as int) matches Some(n) ==> (r matches Ok((_, m)) && m == n)),
    decreases src.toks.len() - pos, 46nat,
{
    if !is_k(src, pos, Keyword::Do) {
        return Err(err_at(src, pos));
    }
    let (s, k) = build_statement(src, pos + 1)?;
    if !is_k(src, k, Keyword::While) {
        return Err(err_at(src, k));
    }
    let (c, k2) = parse_paren_expression(src, k + 1)?;
    let n = expect(src, k2, Punct::Semicolon)?;
    let st = Statement { node: StatementEnum::DoWhile(Box::new(s), Box::new(c)), span: span_of(src, pos, n) };
    assert(src.toks@[k as int] == src.toks@[k as int]);
    assert(statement(*src, pos as int, n as int, st));
    Ok((st, n))
}

/// `for ( init ; condition ; iteration ) statement` at token `pos`, each
/// clause optional.
#[verifier::rlimit(100)]
#[verifier::spinoff_prover]
pub fn build_for_statement(src: &Src, pos: usize) -> (r: Result<(Statement, usize), ParseError>)
    requires
        src.wf(),
        pos <= src.toks.len(),
    ensures
        r matches Ok((_, n)) ==> pos < n <= src.toks.len(),
        r matches Err(e) ==> !(e is Lex),
        r matches Ok((st, n)) ==> statement(*src, pos as int, n as int, st),
        is_keyword(*src, pos as int, Keyword::For) ==> (plain_statement_end(*src, pos as int) matches Some(n) ==> (r matches Ok((_, m)) && m == n)),
    decreases src.toks.len() - pos, 46nat,
{
    if !is_k(src, pos, Keyword::For) {
        return Err(err_at(src, pos));
    }
    let ghost sv = *src;
    let ghost tgt = plain_statement_end(sv, pos as int) is Some;
    let ghost ga = plain_for_init_end(sv, pos + 2)->0;
    let ghost gb = if is_punct(sv, ga + 1, Punct::Semicolon) {
        ga + 1
    } else {
        ga + 2
    };
    let ghost gd = if is_punct(sv, gb + 1, Punct::RParen) {
        gb + 1
    } else {
        gb + 2
    };
    proof {
        if tgt {
            assert(plain_for_init_end(sv, pos + 2) is Some);
            assert(is_punct(sv, gb, Punct::Semicolon));
            assert(is_punct(sv, gd, Punct::RParen));
            assert(gb == ga + 1 || (atom_at(sv, ga + 1) && gb == ga + 2));
            assert(gd == gb + 1 || (atom_at(sv, gb + 1) && gd == gb + 2));
            assert(plain_statement_end(sv, pos as int) == plain_statement_end(sv, gd + 1));
        }
    }
    let mut k = expect(src, pos + 1, Punct::LParen)?;
    let mut init: Option<Box<ForInitClause>> = None;
    if !is_p(src, k, Punct::Semicolon) {
        let (i, n) = build_for_init_clause(src, k)?;
        init = Some(Box::new(i));
        k = n;
    }
    let ghost a = k as int;
    k = expect(src, k, Punct::Semicolon)?;
    let mut cond: Option<Box<Expression>> = None;
    if !is_p(src, k, Punct::Semicolon) {
        let (c, n) = build_expression(src, k)?;
        cond = Some(Box::new(c));
        k = n;
    }
    let ghost c = k as int;
    k = expect(src, k, Punct::Semicolon)?;
    let mut iter: Option<Box<Expression>> = None;
    if !is_p(src, k, Punct::RParen) {
        let (x, n) = build_expression(src, k)?;
        iter = Some(Box::new(x));
        k = n;
    }
    let ghost d = k as int;
    k = expect(src, k, Punct::RParen)?;
    let (s, n) = build_statement(src, k)?;
    let st = Statement { node: StatementEnum::For(init, cond, iter, Box::new(s)), span: span_of(src, pos, n) };
    assert(src.toks@[a] == src.toks@[a] && src.toks@[c] == src.toks@[c] && src.toks@[d] == src.toks@[d]);
    assert(statement(*src, pos as int, n as int, st));
    Ok((st, n))
}

/// `break ;`, `continue ;`, `return` with an optional expression and `;`,
/// or `goto label ;` at token `pos`.
pub fn build_jump_statement(src: &Src, pos: usize) -> (r: Result<(Statement, usize), ParseError>)
    requires
        src.wf(),
        pos <= src.toks.len(),
    ensures
        r matches Ok((_, n)) ==> pos < n <= src.toks.len(),
        r matches Err(e) ==> !(e is Lex),
        r matches Ok((st, n)) ==> statement(*src, pos as int, n as int, st),
        (is_keyword(*src, pos as int, Keyword::Break) || is_keyword(*src, pos as int, Keyword::Continue)) ==> (r is Ok
            <==> is_punct(*src, pos + 1, Punct::Semicolon)),
        (is_keyword(*src, pos as int, Keyword::Break) || is_keyword(*src, pos as int, Keyword::Continue) || is_keyword(*src, pos as int, Keyword::Return)) ==> (plain_statement_end(*src, pos as int) matches Some(n) ==> (r matches Ok((_, m)) && m == n)),
    decreases src.toks.len() - pos, 46nat,
{
    if is_k(src, pos, Keyword::Break) {
        let n = expect(src, pos + 1, Punct::Semicolon)?;
        let st = Statement { node: StatementEnum::Break, span: span_of(src, pos, n) };
        assert(statement(*src, pos as int, n as int, st));
        Ok((st, n))
    } else if is_k(src, pos, Keyword::Continue) {
        let n = expect(src, pos + 1, Punct::Semicolon)?;
        let st = Statement { node: StatementEnum::Continue, span: span_of(src, pos, n) };
        assert(statement(*src, pos as int, n as int, st));
        Ok((st, n))
    } else if is_k(src, pos, Keyword::Return) {
        build_return_statement(src, pos)
    } else if is_k(src, pos, Keyword::Goto) {
        build_goto_statement(src, pos)
    } else {
        Err(err_at(src, pos))
    }
}

/// `return` with an optional expression and `;` at token `pos`.
pub fn build_return_statement(src: &Src, pos: usize) -> (r: Result<(Statement, usize), ParseError>)
    requires
        src.wf(),
        pos <= src.toks.len(),
    ensures
        r matches Ok((_, n)) ==> pos < n <= src.toks.len(),
        r matches Err(e) ==> !(e is Lex),
        r matches Ok((st, n)) ==> statement(*src, pos as int, n as int, st),
        is_keyword(*src, pos as int, Keyword::Return) ==> (plain_statement_end(*src, pos as int) matches Some(n) ==> (r matches Ok((_, m)) && m == n)),
    decreases src.toks.len() - pos, 45nat,
{
    if !is_k(src, pos, Keyword::Return) {
        return Err(err_at(src, pos));
    }
    let mut k = pos + 1;
    let mut e: Option<Box<Expression>> = None;
    if !is_p(src, k, Punct::Semicolon) {
        let (x, n) = build_expression(src, k)?;
        e = Some(Box::new(x));
        k = n;
    }
    let n = expect(src, k, Punct::Semicolon)?;
    let st = Statement { node: StatementEnum::Return(e), span: span_of(src, pos, n) };
    assert(statement(*src, pos as int, n as int, st));
    Ok((st, n))
}

/// `goto label ;` at token `pos`.
pub fn build_goto_statement(src: &Src, pos: usize) -> (r: Result<(Statement, usize), ParseError>)
    requires
        src.wf(),
        pos <= src.toks.len(),
    ensures
        r matches Ok((_, n)) ==> pos < n <= src.toks.len(),
        r matches Err(e) ==> !(e is Lex),
        r matches Ok((st, n)) ==> statement(*src, pos as int, n as int, st),
        is_keyword(*src, pos as int, Keyword::Goto) ==> (r is Ok <==> (pos + 1 < src.toks.len() && src.toks@[pos
            + 1].kind == TokenKind::Identifier && is_punct(*src, pos + 2, Punct::Semicolon))),
    decreases src.toks.len() - pos, 45nat,
{
    if !is_k(src, pos, Keyword::Goto) {
        return Err(err_at(src, pos));
    }
    if !is_ident(src, pos + 1) {
        return Err(err_at(src, pos + 1));
    }
    let label = text_of(src, pos + 1);
    let n = expect(src, pos + 2, Punct::Semicolon)?;
    let st = Statement { node: StatementEnum::Goto(label), span: span_of(src, pos, n) };
    assert(statement(*src, pos as int, n as int, st));
    Ok((st, n))
}

/// The empty statement `;`, or an expression followed by `;`, at token
/// `pos`.
pub fn build_expression_statement(src: &Src, pos: usize) -> (r: Result<(Statement, usize), ParseError>)
    requires
        src.wf(),
        pos <= src.toks.len(),
    ensures
        r matches Ok((_, n)) ==> pos < n <= src.toks.len(),
        r matches Err(e) ==> !(e is Lex),
        r matches Ok((st, n)) ==> statement(*src, pos as int, n as int, st),
        is_punct(*src, pos as int, Punct::Semicolon) ==> (r matches Ok((_, n)) && n == pos + 1),
        is_punct(*src, pos as int, Punct::Semicolon) ==> (r matches Ok((_, m)) && m == pos + 1),
        atom_at(*src, pos as int) && is_punct(*src, pos + 1, Punct::Semicolon) ==> (r matches Ok((_, m)) && m == pos + 2),
    decreases src.toks.len() - pos, 46nat,
{
    if is_p(src, pos, Punct::Semicolon) {
        let span = span_of(src, pos, pos + 1);
        let st = Statement {
            node: StatementEnum::Expression(Box::new(Expression { node: ExpressionEnum::Empty, span })),
            span,
        };
        assert(statement(*src, pos as int, pos + 1, st));
        return Ok((st, pos + 1));
    }
    let (e, k) = build_expression(src, pos)?;
    let n = expect(src, k, Punct::Semicolon)?;
    let st = Statement { node: StatementEnum::Expression(Box::new(e)), span: span_of(src, pos, n) };
    assert(statement(*src, pos as int, n as int, st));
    Ok((st, n))
}

/// The expression that starts at token `pos`: assignment expressions
/// separated by commas, joined left to right by the comma operator. On
/// success the tokens `pos..n` form it (`expression`).
pub fn build_expression(src: &Src, pos: usize) -> (r: Result<(Expression, usize), ParseError>)
    requires
        src.wf(),
        pos <= src.toks.len(),
    ensures
        r matches Ok((_, n)) ==> pos < n <= src.toks.len(),
        r matches Err(e) ==> !(e is Lex),
        r matches Ok((e, n)) ==> expression(*src, pos as int, n as int, e),
        r matches Ok((_, n)) ==> expression_stops(*src, n as int) && !is_punct(*src, n as int, Punct::Comma),
        atom_at(*src, pos as int) && closes_expression(*src, pos + 1) && !is_punct(*src, pos + 1, Punct::Comma) ==> (
        r matches Ok((_, n)) && n == pos + 1),
        flat_expression_end(*src, pos as int) matches Some(n) ==> (r matches Ok((_, m)) && m == n),
    decreases src.toks.len() - pos, 15nat,
{
    proof {
        reveal(flat_expression_end);
        reveal(flat_expression_rest_end);
    }
    let (e, k) = build_assignment_expression(src, pos)?;
    let ghost sv = *src;
    let ghost plain = atom_at(sv, pos as int) && closes_expression(sv, pos + 1) && !is_punct(sv, pos + 1, Punct::Comma);
    let ghost target = flat_expression_end(sv, pos as int);
    let mut e = e;
    let mut k = k;
    while is_p(src, k, Punct::Comma)
        invariant
            plain == (atom_at(sv, pos as int) && closes_expression(sv, pos + 1) && !is_punct(sv, pos + 1, Punct::Comma)),
            plain ==> k == pos + 1,
            target == flat_expression_end(sv, pos as int),
            target is Some ==> target == flat_expression_rest_end(sv, k as int),
            src.wf(),
            sv == *src,
            pos < k <= src.toks.len(),
            expression(sv, pos as int, k as int, e),
            expression_stops(sv, k as int),
        decreases src.toks.len() - k,
    {
        proof {
            reveal(flat_expression_end);
            reveal(flat_expression_rest_end);
        }
        let op = BinaryOperation { node: BinaryOperationEnum::Comma, span: span_of(src, k, k + 1) };
        proof {
            if target is Some {
                assert(flat_assignment_end(sv, k + 1) is Some);
            }
        }
        let (rhs, n) = build_assignment_expression(src, k + 1)?;
        let start = e.span.start;
        let ghost k0 = k as int;
        e = Expression {
            node: ExpressionEnum::Binary(op, Box::new(e), Box::new(rhs)),
            span: Span::new(start, src.toks[n - 1].end),
        };
        assert(is_punct(sv, k0, Punct::Comma));
        assert(expression(sv, pos as int, n as int, e));
        k = n;
    }
    Ok((e, k))
}

fn assign_op_of(p: Punct) -> (r: Option<AssignOperationEnum>)
    ensures
        r == assign_op_spec(p),
{
    match p {
        Punct::Assign => Some(AssignOperationEnum::Naive),
        Punct::AddAssign => Some(AssignOperationEnum::Addition),
        Punct::SubAssign => Some(AssignOperationEnum::Subtraction),
        Punct::MulAssign => Some(AssignOperationEnum::Multiplication),
        Punct::DivAssign => Some(AssignOperationEnum::Division),
        Punct::ModAssign => Some(AssignOperationEnum::Modulo),
        Punct::AndAssign => Some(AssignOperationEnum::BitwiseAnd),
        Punct::OrAssign => Some(AssignOperationEnum::BitwiseOr),
        Punct::XorAssign => Some(AssignOperationEnum::BitwiseXor),
        Punct::ShlAssign => Some(AssignOperationEnum::LeftShift),
        Punct::ShrAssign => Some(AssignOperationEnum::RightShift),
        _ => None,
    }
}

/// The assignment expression that starts at token `pos`: `unary op
/// assignment`, or a conditional expression (`assignment`).
pub fn build_assignment_expression(src: &Src, pos: usize) -> (r: Result<(Expression, usize), ParseError>)
    requires
        src.wf(),
        pos <= src.toks.len(),
    ensures
        r matches Ok((_, n)) ==> pos < n <= src.toks.len(),
        r matches Err(e) ==> !(e is Lex),
        r matches Ok((e, n)) ==> assignment(*src, pos as int, n as int, e),
        r matches Ok((_, n)) ==> expression_stops(*src, n as int),
        atom_at(*src, pos as int) && closes_expression(*src, pos + 1) ==> (r matches Ok((_, n)) && n == pos + 1),
        flat_assignment_end(*src, pos as int) matches Some(n) ==> (r matches Ok((_, m)) && m == n),
    decreases src.toks.len() - pos, 14nat,
{
    proof {
        reveal(flat_assignment_end);
    }
    let (e, k, bare) = build_conditional_expression(src, pos)?;
    if bare && k < src.toks.len() {
        if let TokenKind::Punct(p) = src.toks[k].kind {
            if let Some(op) = assign_op_of(p) {
                let op = AssignOperation { node: op, span: span_of(src, k, k + 1) };
                let (rhs, n) = build_assignment_expression(src, k + 1)?;
                let r = Expression {
                    node: ExpressionEnum::Assignment(op, Box::new(e), Box::new(rhs)),
                    span: span_of(src, pos, n),
                };
                assert(assign_op_at(*src, k as int) == Some(r.node->Assignment_0.node));
                assert(assignment(*src, pos as int, n as int, r));
                return Ok((r, n));
            }
        }
    }
    Ok((e, k))
}

/// The conditional expression that starts at token `pos`: `logical_or ?
/// expression : conditional`, or a logical-or expression (`conditional`).
/// The flag tells whether the result is a unary expression with no operator
/// around it, which may stand on the left of an assignment.
pub fn build_conditional_expression(src: &Src, pos: usize) -> (r: Result<(Expression, usize, bool), ParseError>)
    requires
        src.wf(),
        pos <= src.toks.len(),
    ensures
        r matches Ok((_, n, _)) ==> pos < n <= src.toks.len(),
        r matches Err(e) ==> !(e is Lex),
        r matches Ok((e, n, bare)) ==> conditional(*src, pos as int, n as int, e) && (bare ==> unary(
            *src,
            pos as int,
            n as int,
            e,
        )),
        r matches Ok((_, n, _)) ==> expression_stops(*src, n as int),
        atom_at(*src, pos as int) && postfix_stops(*src, pos + 1) && expression_stops(*src, pos + 1) ==> (
        r matches Ok((_, n, bare)) && n == pos + 1 && bare),
        flat_chain_end(*src, pos as int, 12) matches Some(n) ==> (!is_punct(*src, n, Punct::Question) ==> (
        r matches Ok((_, m, _)) && m == n)),
    decreases src.toks.len() - pos, 13nat,
{
    let (c, k, bare) = build_binary_expression(src, pos, 12)?;
    if is_p(src, k, Punct::Question) {
        let (t, k2) = build_expression(src, k + 1)?;
        let k3 = expect(src, k2, Punct::Colon)?;
        let (f, n, _) = build_conditional_expression(src, k3)?;
        let e = Expression {
            node: ExpressionEnum::Conditional(Box::new(c), Box::new(t), Box::new(f)),
            span: span_of(src, pos, n),
        };
        assert(is_punct(*src, k as int, Punct::Question) && is_punct(*src, k2 as int, Punct::Colon));
        assert(conditional(*src, pos as int, n as int, e));
        return Ok((e, n, false));
    }
    Ok((c, k, bare))
}

/// The binary operator of precedence `level` (12 for `||` down to 3 for
/// `*`, `/`, `%`) that token kind `kind` spells, if any.
fn binary_op_at(kind: TokenKind, level: u32) -> (r: Option<BinaryOperationEnum>)
    ensures
        r == binary_op_spec(kind, level as int),
{
    match kind {
        TokenKind::Punct(p) => {
            if level == 12 && p == Punct::OrOr {
                Some(BinaryOperationEnum::LogicalOr)
            } else if level == 11 && p == Punct::AndAnd {
                Some(BinaryOperationEnum::LogicalAnd)
            } else if level == 10 && p == Punct::Pipe {
                Some(BinaryOperationEnum::BitwiseOr)
            } else if level == 9 && p == Punct::Caret {
                Some(BinaryOperationEnum::BitwiseXor)
            } else if level == 8 && p == Punct::Amp {
                Some(BinaryOperationEnum::BitwiseAnd)
            } else if level == 7 && p == Punct::EqEq {
                Some(BinaryOperationEnum::Equal)
            } else if level == 7 && p == Punct::Ne {
                Some(BinaryOperationEnum::NotEqual)
            } else if level == 6 && p == Punct::Lt {
                Some(BinaryOperationEnum::LessThan)
            } else if level == 6 && p == Punct::Gt {
                Some(BinaryOperationEnum::GreaterThan)
            } else if level == 6 && p == Punct::Le {
                Some(BinaryOperationEnum::LessThanOrEqual)
            } else if level == 6 && p == Punct::Ge {
                Some(BinaryOperationEnum::GreaterThanOrEqual)
            } else if level == 5 && p == Punct::Shl {
                Some(BinaryOperationEnum::LeftShift)
            } else if level == 5 && p == Punct::Shr {
                Some(BinaryOperationEnum::RightShift)
            } else if level == 4 && p == Punct::Plus {
                Some(BinaryOperationEnum::Addition)
            } else if level == 4 && p == Punct::Minus {
                Some(BinaryOperationEnum::Subtraction)
            } else if level == 3 && p == Punct::Star {
                Some(BinaryOperationEnum::Multiplication)
            } else if level == 3 && p == Punct::Slash {
                Some(BinaryOperationEnum::Division)
            } else if level == 3 && p == Punct::Percent {
                Some(BinaryOperationEnum::Modulo)
            } else {
                None
            }
        },
        _ => None,
    }
}

/// The left-associative chain of binary operators of precedence `level`
/// (12 for `||` down to 3 for `*`) that starts at token `pos`; every node of
/// the chain spans the whole chain (`binary`). The flag is as for
/// `build_conditional_expression`.
pub fn build_binary_expression(src: &Src, pos: usize, level: u32) -> (r: Result<(Expression, usize, bool), ParseError>)
    requires
        src.wf(),
        pos <= src.toks.len(),
        3 <= level <= 12,
    ensures
        r matches Ok((_, n, _)) ==> pos < n <= src.toks.len(),
        r matches Err(e) ==> !(e is Lex),
        r matches Ok((e, n, bare)) ==> binary(*src, level as int, pos as int, n as int, e) && (bare ==> unary(
            *src,
            pos as int,
            n as int,
            e,
        )),
        r matches Ok((_, n, _)) ==> binary_stops(*src, n as int, level as int),
        atom_at(*src, pos as int) && postfix_stops(*src, pos + 1) && binary_stops(*src, pos + 1, level as int) ==> (
        r matches Ok((_, n, bare)) && n == pos + 1 && bare),
        flat_chain_end(*src, pos as int, level as int) matches Some(n) ==> (r matches Ok((_, m, _)) && m == n),
    decreases src.toks.len() - pos, level,
{
    proof {
        reveal(flat_chain_end);
        reveal(flat_rest_end);
        reveal(flat_operand_end);
    }
    let ghost sv = *src;
    let ghost lv = level as int;
    let (first, k, bare) = if level == 3 {
        let (e, k) = build_unary_expression(src, pos)?;
        (e, k, true)
    } else {
        build_binary_expression(src, pos, level - 1)?
    };
    let ghost k0 = k as int;
    let ghost gfirst = first;
    let ghost plain = atom_at(sv, pos as int) && postfix_stops(sv, pos + 1) && binary_stops(sv, pos + 1, lv);
    let ghost target = flat_chain_end(sv, pos as int, lv);
    assert(target is Some ==> target == flat_rest_end(sv, k0, lv));
    assert(operand(sv, lv, pos as int, k0, gfirst));
    let mut k = k;
    let mut rest: Vec<(BinaryOperation, Expression)> = Vec::new();
    let ghost mut ps: Seq<int> = Seq::empty();
    let ghost mut es: Seq<int> = Seq::empty();
    while k < src.toks.len()
        invariant
            plain == (atom_at(sv, pos as int) && postfix_stops(sv, pos + 1) && binary_stops(sv, pos + 1, lv)),
            plain ==> k == pos + 1 && rest@.len() == 0 && bare,
            target == flat_chain_end(sv, pos as int, lv),
            target is Some ==> target == flat_rest_end(sv, k as int, lv),
            k == src.toks.len() ==> flat_rest_end(sv, k as int, lv) == Some(k as int),
            src.wf(),
            sv == *src,
            lv == level as int,
            pos < k0 <= k <= src.toks.len(),
            3 <= level <= 12,
            binary_stops(sv, k as int, lv - 1),
            rest@.len() == ps.len() == es.len(),
            k == (if es.len() == 0 {
                k0
            } else {
                es.last()
            }),
            forall|m: int| 0 <= m < ps.len() ==> #[trigger] ps[m] == (if m == 0 {
                k0
            } else {
                es[m - 1]
            }),
            forall|m: int|
                0 <= m < rest@.len() ==> ps[m] + 1 < es[m] <= src.toks.len() && binary_op_spec(
                    sv.toks@[ps[m]].kind,
                    lv,
                ) == Some(#[trigger] rest@[m].0.node) && rest@[m].0.span == tok_span(sv, ps[m], ps[m] + 1)
                    && operand(sv, lv, ps[m] + 1, es[m], rest@[m].1),
        ensures
            k == src.toks.len() || binary_op_spec(sv.toks@[k as int].kind, lv) is None,
            target is Some ==> target == Some(k as int),
        decreases src.toks.len() - k,
    {
        proof {
            reveal(flat_chain_end);
            reveal(flat_rest_end);
            reveal(flat_operand_end);
        }
        match binary_op_at(src.toks[k].kind, level) {
            Some(op) => {
                proof {
                    if target is Some {
                        assert(flat_rest_end(sv, k as int, lv) == (match flat_operand_end(sv, k + 1, lv) {
                            Some(m) => if m <= k || m > sv.toks@.len() {
                                None
                            } else {
                                flat_rest_end(sv, m, lv)
                            },
                            None => None,
                        }));
                        assert(flat_operand_end(sv, k + 1, lv) is Some);
                        if lv > 3 {
                            assert(flat_operand_end(sv, k + 1, lv) == flat_chain_end(sv, k + 1, lv - 1));
                        }
                    }
                }
                let op = BinaryOperation { node: op, span: span_of(src, k, k + 1) };
                let (rhs, n) = if level == 3 {
                    build_unary_expression(src, k + 1)?
                } else {
                    let (e, n, _) = build_binary_expression(src, k + 1, level - 1)?;
                    (e, n)
                };
                let ghost old_rest = rest@;
                rest.push((op, rhs));
                proof {
                    assert(operand(sv, lv, k + 1, n as int, rest@[rest@.len() - 1].1));
                    ps = ps.push(k as int);
                    es = es.push(n as int);
                    assert forall|m: int| 0 <= m < rest@.len() - 1 implies rest@[m] == old_rest[m] by {}
                }
                k = n;
            },
            None => {
                break;
            },
        }
    }
    assert(binary_stops(sv, k as int, lv));
    if rest.len() == 0 {
        return Ok((first, k, bare));
    }
    let span = span_of(src, pos, k);
    let mut acc = first;
    let ghost all = rest@;
    let ghost mut m: int = 0;
    assert(all.skip(0) =~= all);
    while rest.len() > 0
        invariant
            sv == *src,
            lv == level as int,
            3 <= level <= 12,
            pos < k0 <= k <= src.toks.len(),
            all.len() == ps.len() == es.len(),
            0 <= m <= all.len(),
            rest@ == all.skip(m),
            all.len() > 0,
            k == es.last(),
            binary_stops(sv, k as int, lv),
            span == tok_span(sv, pos as int, k as int),
            forall|q: int| 0 <= q < ps.len() ==> #[trigger] ps[q] == (if q == 0 {
                k0
            } else {
                es[q - 1]
            }),
            forall|q: int|
                0 <= q < all.len() ==> ps[q] + 1 < es[q] <= src.toks.len() && binary_op_spec(
                    sv.toks@[ps[q]].kind,
                    lv,
                ) == Some(#[trigger] all[q].0.node) && all[q].0.span == tok_span(sv, ps[q], ps[q] + 1)
                    && operand(sv, lv, ps[q] + 1, es[q], all[q].1),
            chain(sv, lv, pos as int, if m == 0 {
                k0
            } else {
                es[m - 1]
            }, span, acc),
        decreases rest@.len(),
    {
        let (op, rhs) = rest.remove(0);
        proof {
            assert(all[m] == (op, rhs));
            assert(all.skip(m + 1) =~= all.skip(m).drop_first());
            assert(ps[m] == (if m == 0 {
                k0
            } else {
                es[m - 1]
            }));
            assert(binary_op_spec(sv.toks@[ps[m]].kind, lv) == Some(all[m].0.node));
        }
        let ghost gacc = acc;
        acc = Expression { node: ExpressionEnum::Binary(op, Box::new(acc), Box::new(rhs)), span };
        proof {
            assert(chain(sv, lv, pos as int, es[m], span, acc));
            m = m + 1;
        }
    }
    proof {
        assert(m == all.len());
        assert(chain(sv, lv, pos as int, k as int, span, acc));
    }
    Ok((acc, k, false))
}

fn starts_type_name(src: &Src, pos: usize) -> (b: bool)
    ensures
        b == starts_type_name_spec(*src, pos as int),
{
    if pos < src.toks.len() {
        match src.toks[pos].kind {
            TokenKind::Keyword(kw) => is_type_keyword(kw) || build_type_qualifier(kw).is_some() || kw == Keyword::Struct
                || kw == Keyword::Union,
            _ => false,
        }
    } else {
        false
    }
}

fn prefix_op_of(p: Punct) -> (r: Option<UnaryOperationEnum>)
    ensures
        r == prefix_op_spec(p),
{
    match p {
        Punct::Inc => Some(UnaryOperationEnum::PrefixIncrement),
        Punct::Dec => Some(UnaryOperationEnum::PrefixDecrement),
        Punct::Plus => Some(UnaryOperationEnum::UnaryPlus),
        Punct::Minus => Some(UnaryOperationEnum::UnaryMinus),
        Punct::Bang => Some(UnaryOperationEnum::LogicalNot),
        Punct::Tilde => Some(UnaryOperationEnum::BitwiseNot),
        Punct::Star => Some(UnaryOperationEnum::Dereference),
        Punct::Amp => Some(UnaryOperationEnum::Reference),
        _ => None,
    }
}

/// The unary expression that starts at token `pos`: a prefix operator
/// applied to a unary expression, `sizeof ( type )`, or a postfix
/// expression (`unary`).
pub fn build_unary_expression(src: &Src, pos: usize) -> (r: Result<(Expression, usize), ParseError>)
    requires
        src.wf(),
        pos <= src.toks.len(),
    ensures
        r matches Ok((_, n)) ==> pos < n <= src.toks.len(),
        r matches Err(e) ==> !(e is Lex),
        r matches Ok((e, n)) ==> unary(*src, pos as int, n as int, e),
        atom_at(*src, pos as int) && postfix_stops(*src, pos + 1) ==> (r matches Ok((_, n)) && n == pos + 1),
        simple_postfix_end(*src, pos as int) matches Some(n) ==> (r matches Ok((_, m)) && m == n),
    decreases src.toks.len() - pos, 2nat,
{
    if pos >= src.toks.len() {
        return Err(ParseError::UnexpectedEnd);
    }
    let kind = src.toks[pos].kind;
    let mut op: Option<UnaryOperationEnum> = None;
    if let TokenKind::Punct(p) = kind {
        op = prefix_op_of(p);
    }
    if kind == TokenKind::Keyword(Keyword::Sizeof) {
        if is_p(src, pos + 1, Punct::LParen) && starts_type_name(src, pos + 2) {
            let (t, k) = build_type_name(src, pos + 2)?;
            let n = expect(src, k, Punct::RParen)?;
            let e = Expression { node: ExpressionEnum::SizeofType(t), span: span_of(src, pos, n) };
            assert(unary(*src, pos as int, n as int, e));
            return Ok((e, n));
        }
        op = Some(UnaryOperationEnum::SizeofExpr);
    }
    match op {
        Some(o) => {
            let uop = UnaryOperation { node: o, span: span_of(src, pos, pos + 1) };
            let (e, n) = build_unary_expression(src, pos + 1)?;
            let r = Expression { node: ExpressionEnum::Unary(uop, Box::new(e)), span: span_of(src, pos, n) };
            assert(unary(*src, pos as int, n as int, r));
            Ok((r, n))
        },
        None => build_postfix_unary_expression(src, pos),
    }
}

/// The postfix expression that starts at token `pos`: a primary expression
/// followed by postfix operators (`++`, `--`, calls, subscripts, member
/// accesses and `as` casts), as long as they go on (`postfix`).
#[verifier::rlimit(80)]
pub fn build_postfix_unary_expression(src: &Src, pos: usize) -> (r: Result<(Expression, usize), ParseError>)
    requires
        src.wf(),
        pos <= src.toks.len(),
    ensures
        r matches Ok((_, n)) ==> pos < n <= src.toks.len(),
        r matches Err(e) ==> !(e is Lex),
        r matches Ok((e, n)) ==> postfix(*src, pos as int, n as int, e),
        r matches Ok((_, n)) ==> postfix_stops(*src, n as int),
        atom_at(*src, pos as int) && postfix_stops(*src, pos + 1) ==> (r matches Ok((_, n)) && n == pos + 1),
        simple_postfix_end(*src, pos as int) matches Some(n) ==> (r matches Ok((_, m)) && m == n),
    decreases src.toks.len() - pos, 1nat,
{
    let (e, k) = build_primary_expression(src, pos)?;
    let ghost sv = *src;
    let ghost plain = atom_at(sv, pos as int) && postfix_stops(sv, pos + 1);
    let ghost target = simple_postfix_end(sv, pos as int);
    let mut e = e;
    let mut k = k;
    while k < src.toks.len()
        invariant
            plain == (atom_at(sv, pos as int) && postfix_stops(sv, pos + 1)),
            plain ==> k == pos + 1,
            target == simple_postfix_end(sv, pos as int),
            target is Some ==> target == simple_postfix_rest_end(sv, k as int),
            k == src.toks.len() ==> simple_postfix_rest_end(sv, k as int) == Some(k as int),
            src.wf(),
            sv == *src,
            pos < k <= src.toks.len(),
            postfix(sv, pos as int, k as int, e),
        ensures
            postfix_stops(sv, k as int),
            target is Some ==> target == Some(k as int),
        decreases src.toks.len() - k,
    {
        let kind = src.toks[k].kind;
        let start = e.span.start;
        let ghost prev = e;
        let ghost k0 = k as int;
        if kind == TokenKind::Punct(Punct::Inc) || kind == TokenKind::Punct(Punct::Dec) {
            let node = if kind == TokenKind::Punct(Punct::Inc) {
                UnaryOperationEnum::PostfixIncrement
            } else {
                UnaryOperationEnum::PostfixDecrement
            };
            let op = UnaryOperation { node, span: span_of(src, k, k + 1) };
            e = Expression {
                node: ExpressionEnum::Unary(op, Box::new(e)),
                span: Span::new(start, src.toks[k].end),
            };
            k = k + 1;
        } else if kind == TokenKind::Punct(Punct::LParen) {
            let mut args: Vec<Expression> = Vec::new();
            let mut j = k + 1;
            let ghost cargs = target is Some && !is_punct(sv, k + 1, Punct::RParen);
            let ghost c = atom_args_end(sv, k + 1)->0;
            proof {
                if cargs {
                    assert(atom_args_end(sv, k + 1) == Some(c));
                    lemma_atom_args_end(sv, k + 1);
                    assert(target == simple_postfix_rest_end(sv, c + 1));
                }
            }
            if !is_p(src, j, Punct::RParen) {
                loop
                    invariant_except_break
                        cargs ==> atom_args_end(sv, j as int) == Some(c),
                        cargs ==> is_punct(sv, c, Punct::RParen),
                        args@.len() == 0 ==> j == k + 1,
                        args@.len() > 0 ==> k + 2 < j && is_punct(sv, j - 1, Punct::Comma) && call_args(
                            sv,
                            k + 1,
                            j - 1,
                            args@,
                        ),
                    invariant
                        target == simple_postfix_end(sv, pos as int),
                        cargs == (target is Some && !is_punct(sv, k + 1, Punct::RParen)),
                        !is_punct(sv, k + 1, Punct::RParen),
                        target is Some ==> target == simple_postfix_rest_end(sv, k as int),
                        !plain,
                        plain == (atom_at(sv, pos as int) && postfix_stops(sv, pos + 1)),
                        src.wf(),
                        sv == *src,
                        pos < k < j <= src.toks.len(),
                    ensures
                        args@.len() > 0,
                        k + 1 < j,
                        call_args(sv, k + 1, j as int, args@),
                        cargs ==> j == c && is_punct(sv, c, Punct::RParen),
                    decreases src.toks.len() - j,
                {
                    proof {
                        if cargs {
                            assert(atom_at(sv, j as int));
                            assert(closes_expression(sv, j + 1));
                        }
                    }
                    let (a, n) = build_assignment_expression(src, j)?;
                    let ghost before = args@;
                    let ghost j0 = j as int;
                    let ghost ga = a;
                    args.push(a);
                    proof {
                        assert(args@.last() == ga);
                        if before.len() > 0 {
                            assert(args@.drop_last() =~= before);
                            assert(is_punct(sv, j0 - 1, Punct::Comma) && call_args(
                                sv,
                                k + 1,
                                j0 - 1,
                                args@.drop_last(),
                            ));
                        } else {
                            assert(args@[0] == ga);
                        }
                        assert(call_args(sv, k + 1, n as int, args@));
                    }
                    j = n;
                    if is_p(src, j, Punct::Comma) {
                        j = j + 1;
                    } else {
                        break;
                    }
                }
            }
            let n = expect(src, j, Punct::RParen)?;
            e = Expression {
                node: ExpressionEnum::FunctionCall(Box::new(e), args),
                span: Span::new(start, src.toks[n - 1].end),
            };
            k = n;
        } else if kind == TokenKind::Punct(Punct::LBracket) {
            let (idx, n) = build_expression(src, k + 1)?;
            let end = src.toks[n - 1].end;
            let close = expect(src, n, Punct::RBracket)?;
            e = match e.node {
                ExpressionEnum::ArraySubscript(base, index) => {
                    let mut index = index;
                    index.push(idx);
                    Expression { node: ExpressionEnum::ArraySubscript(base, index), span: Span::new(start, end) }
                },
                node => Expression {
                    node: ExpressionEnum::ArraySubscript(
                        Box::new(Expression { node, span: e.span }),
                        vec![idx],
                    ),
                    span: Span::new(start, end),
                },
            };
            proof {
                if let ExpressionEnum::ArraySubscript(_, idxs) = &e.node {
                    assert(idxs@.drop_last() =~= (match prev.node {
                        ExpressionEnum::ArraySubscript(_, pidx) => pidx@,
                        _ => Seq::empty(),
                    }));
                }
            }
            k = close;
        } else if kind == TokenKind::Punct(Punct::Dot) || kind == TokenKind::Punct(Punct::Arrow) {
            if !is_ident(src, k + 1) {
                return Err(err_at(src, k + 1));
            }
            let member = text_of(src, k + 1);
            let end = src.toks[k + 1].end;
            e = if kind == TokenKind::Punct(Punct::Dot) {
                Expression { node: ExpressionEnum::MemberOfObject(Box::new(e), member), span: Span::new(start, end) }
            } else {
                Expression { node: ExpressionEnum::MemberOfPointer(Box::new(e), member), span: Span::new(start, end) }
            };
            k = k + 2;
        } else if kind == TokenKind::Keyword(Keyword::As) {
            let (t, n) = build_type_name(src, k + 1)?;
            e = Expression {
                node: ExpressionEnum::TypeCast(t, Box::new(e)),
                span: Span::new(start, src.toks[n - 1].end),
            };
            k = n;
        } else {
            break;
        }
        assert(postfix_step(sv, k0, k as int, prev, e));
        assert(postfix(sv, pos as int, k0, prev) && postfix_step(sv, k0, k as int, prev, e));
        assert(split_at(k0, prev));
        assert(postfix(sv, pos as int, k as int, e));
    }
    Ok((e, k))
}

/// The integer, floating or character constant at token `pos`.
pub fn build_constant(src: &Src, pos: usize) -> (r: Result<Expression, ParseError>)
    requires
        src.wf(),
        pos < src.toks.len(),
    ensures
        r matches Ok(e) ==> constant_at(*src, pos as int, e),
        r matches Err(e) ==> !(e is Lex),
        src.toks@[pos as int].kind == TokenKind::Integer ==> (r is Ok <==> integer_constant_spec(
            tok_text(*src, pos as int),
            src.toks@[pos as int].start,
        ) is Ok),
        src.toks@[pos as int].kind == TokenKind::Floating ==> (r is Ok <==> floating_constant_spec(
            tok_text(*src, pos as int),
            src.toks@[pos as int].start,
        ) is Ok),
{
    let t = src.toks[pos];
    proof {
        assert(src.toks@[pos as int].start < src.toks@[pos as int].end <= src.chars@.len());
    }
    let span = Span::new(t.start, t.end);
    let ghost sv = *src;
    assert(span == tok_span(sv, pos as int, pos + 1));
    match t.kind {
        TokenKind::Integer => {
            let node = build_integer_constant(&src.chars, t.start, t.end)?;
            let e = Expression { node, span };
            assert(constant_at(sv, pos as int, e));
            Ok(e)
        },
        TokenKind::Floating => {
            let node = build_floating_constant(&src.chars, t.start, t.end)?;
            let e = Expression { node, span };
            assert(constant_at(sv, pos as int, e));
            Ok(e)
        },
        TokenKind::Character => {
            if t.end - t.start < 2 {
                return Err(ParseError::InvalidConstant(t.start));
            }
            let node = build_character_constant(&src.chars, t.start, t.end)?;
            let e = Expression { node, span };
            assert(constant_at(sv, pos as int, e));
            Ok(e)
        },
        _ => Err(err_at(src, pos)),
    }
}

/// The primary expression at token `pos`: an identifier, a constant, a
/// string literal, or `( expression )`, which stands for the expression
/// inside (`primary`).
pub fn build_primary_expression(src: &Src, pos: usize) -> (r: Result<(Expression, usize), ParseError>)
    requires
        src.wf(),
        pos <= src.toks.len(),
    ensures
        r matches Ok((_, n)) ==> pos < n <= src.toks.len(),
        r matches Err(e) ==> !(e is Lex),
        r matches Ok((e, n)) ==> primary(*src, pos as int, n as int, e),
        pos < src.toks.len() && src.toks@[pos as int].kind == TokenKind::Identifier ==> (r matches Ok((_, n)) && n
            == pos + 1),
        atom_at(*src, pos as int) ==> (r matches Ok((_, n)) && n == pos + 1),
    decreases src.toks.len() - pos, 0nat,
{
    if pos >= src.toks.len() {
        return Err(ParseError::UnexpectedEnd);
    }
    let t = src.toks[pos];
    proof {
        assert(src.toks@[pos as int].start < src.toks@[pos as int].end <= src.chars@.len());
    }
    let span = Span::new(t.start, t.end);
    let ghost sv = *src;
    assert(span == tok_span(sv, pos as int, pos + 1));
    match t.kind {
        TokenKind::Identifier => {
            let e = Expression { node: ExpressionEnum::Identifier(text_of(src, pos)), span };
            assert(constant_at(sv, pos as int, e));
            Ok((e, pos + 1))
        },
        TokenKind::Integer | TokenKind::Floating | TokenKind::Character => {
            let e = build_constant(src, pos)?;
            Ok((e, pos + 1))
        },
        TokenKind::StringLiteral => {
            if t.end - t.start < 2 {
                return Err(ParseError::InvalidConstant(t.start));
            }
            let node = build_string_literal(&src.chars, t.start, t.end)?;
            let e = Expression { node, span };
            assert(constant_at(sv, pos as int, e));
            Ok((e, pos + 1))
        },
        TokenKind::Punct(Punct::LParen) => {
            let (e, k) = build_expression(src, pos + 1)?;
            let n = expect(src, k, Punct::RParen)?;
            assert(primary(sv, pos as int, n as int, e));
            Ok((e, n))
        },
        _ => Err(err_at(src, pos)),
    }
}

} // verus!
