//! Expansion of the macros named in one line of text, repeated until the
//! line names no macro.
use vstd::prelude::*;

use super::define::sub_chars;
use super::error::PreprocessError;
use super::expand::{
    collect_args, collect_args_exec, lemma_pp_token_end, pp_token_end, pp_token_end_exec, push_chars,
    push_string, substitute, substitute_exec, texts_view,
};
use super::macros::{Macro, MacroSpec, MacroTable};
use crate::parse::lexer::{is_ident_start, keyword_exec, keyword_of};

verus! {

/// How many times a line is rescanned before its expansion is abandoned.
pub const RESCAN_LIMIT: usize = 256;

/// `r` with `p` in front of its text and `m` joined to its flag.
pub open spec fn prepend_mod(p: Seq<char>, m: bool, r: Result<(Seq<char>, bool), PreprocessError>) -> Result<
    (Seq<char>, bool),
    PreprocessError,
> {
    match r {
        Ok((s, m2)) => Ok((p + s, m || m2)),
        Err(e) => Err(e),
    }
}

proof fn lemma_prepend_mod_assoc(a: Seq<char>, ma: bool, b: Seq<char>, mb: bool, r: Result<(Seq<char>, bool), PreprocessError>)
    ensures
        prepend_mod(a, ma, prepend_mod(b, mb, r)) == prepend_mod(a + b, ma || mb, r),
{
    match r {
        Ok((s, m)) => {
            assert(a + (b + s) =~= (a + b) + s);
        },
        Err(_) => {},
    }
}

/// Whether a call with `args` does not fit a macro with `np` parameters: an
/// empty call fits a macro without parameters; otherwise a macro takes
/// exactly its parameters, or at least them when it is variadic.
pub open spec fn args_mismatch(np: int, variadic: bool, args: Seq<Seq<char>>) -> bool {
    !(np == 0 && args.len() == 1 && args[0].len() == 0) && ((!variadic && args.len() != np) || (variadic
        && args.len() < np))
}

pub proof fn lemma_collect_args_bounds(l: Seq<char>, j: int, level: int, args: Seq<Seq<char>>)
    ensures
        collect_args(l, j, level, args) matches Some((_, e)) ==> j < e <= l.len(),
    decreases l.len() - j,
{
    if 0 <= j < l.len() {
        lemma_pp_token_end(l, j);
        let k = pp_token_end(l, j);
        let tok = l.subrange(j, k);
        lemma_collect_args_bounds(l, k, level + 1, super::expand::add_last(args, tok));
        lemma_collect_args_bounds(l, k, level - 1, super::expand::add_last(args, tok));
        lemma_collect_args_bounds(l, k, level, super::expand::add_last(args, tok));
        lemma_collect_args_bounds(l, k, level, args.push(Seq::empty()));
        lemma_collect_args_bounds(l, k, level, args);
    }
}

/// One scan of line `l` from `i`: every identifier that names a macro (and
/// is not a keyword) is replaced: an object-like macro by its body, a
/// function-like macro without a body by nothing (its arguments stay), and
/// one with a body, which must be followed by `(`, by the body with the
/// arguments of the call substituted. The flag tells whether a macro was
/// named.
pub open spec fn expand_pass(t: Map<Seq<char>, MacroSpec>, l: Seq<char>, i: int) -> Result<(Seq<char>, bool), PreprocessError>
    decreases l.len() - i,
{
    if i < 0 || i >= l.len() {
        Ok((Seq::empty(), false))
    } else {
        let k = pp_token_end(l, i);
        proof {
            lemma_pp_token_end(l, i);
            lemma_collect_args_bounds(l, k + 1, 1, seq![Seq::<char>::empty()]);
        }
        let tok = l.subrange(i, k);
        if is_ident_start(l[i]) && keyword_of(tok) is None && t.dom().contains(tok) {
            match t[tok] {
                MacroSpec::Object(b) => prepend_mod(
                    match b {
                        Some(x) => x,
                        None => Seq::empty(),
                    },
                    true,
                    expand_pass(t, l, k),
                ),
                MacroSpec::Function(ps, v, body) => match body {
                    None => prepend_mod(Seq::empty(), true, expand_pass(t, l, k)),
                    Some(b) => if k >= l.len() {
                        Err(PreprocessError::UnexpectedEnd(i as usize))
                    } else if l[k] != '(' {
                        Err(PreprocessError::MacroCallExpected(i as usize))
                    } else {
                        match collect_args(l, k + 1, 1, seq![Seq::<char>::empty()]) {
                            None => Err(PreprocessError::UnexpectedEnd(i as usize)),
                            Some((args, e)) => if args_mismatch(ps.len() as int, v, args) {
                                Err(PreprocessError::ArgumentCountMismatch(i as usize))
                            } else {
                                prepend_mod(substitute(ps, args, b), true, expand_pass(t, l, e))
                            },
                        }
                    },
                },
            }
        } else {
            prepend_mod(tok, false, expand_pass(t, l, k))
        }
    }
}

/// The line `l` scanned again while a scan replaces a macro, at most `fuel`
/// more times.
pub open spec fn expand_fix(t: Map<Seq<char>, MacroSpec>, l: Seq<char>, fuel: nat) -> Result<Seq<char>, PreprocessError>
    decreases fuel,
{
    match expand_pass(t, l, 0) {
        Err(e) => Err(e),
        Ok((s, m)) => if !m {
            Ok(s)
        } else if fuel == 0 {
            Err(PreprocessError::ExpansionTooDeep(0))
        } else {
            expand_fix(t, s, (fuel - 1) as nat)
        },
    }
}

/// Whether no token of `l` from `i` on is an identifier naming a macro of `t`.
pub open spec fn names_no_macro(t: Map<Seq<char>, MacroSpec>, l: Seq<char>, i: int) -> bool
    decreases l.len() - i,
{
    if i < 0 || i >= l.len() {
        true
    } else {
        let k = pp_token_end(l, i);
        proof {
            lemma_pp_token_end(l, i);
        }
        let tok = l.subrange(i, k);
        !(is_ident_start(l[i]) && keyword_of(tok) is None && t.dom().contains(tok)) && names_no_macro(t, l, k)
    }
}

/// With no macro defined, no line names one.
pub proof fn lemma_no_macro_names(t: Map<Seq<char>, MacroSpec>, l: Seq<char>, i: int)
    requires
        forall|n: Seq<char>| !(#[trigger] t.dom().contains(n)),
    ensures
        names_no_macro(t, l, i),
    decreases l.len() - i,
{
    if 0 <= i < l.len() {
        lemma_pp_token_end(l, i);
        let k = pp_token_end(l, i);
        assert(!t.dom().contains(l.subrange(i, k)));
        lemma_no_macro_names(t, l, k);
    }
}

proof fn lemma_pass_without_macros(t: Map<Seq<char>, MacroSpec>, l: Seq<char>, i: int)
    requires
        0 <= i <= l.len(),
        names_no_macro(t, l, i),
    ensures
        expand_pass(t, l, i) == Ok::<(Seq<char>, bool), PreprocessError>((l.subrange(i, l.len() as int), false)),
    decreases l.len() - i,
{
    if i < l.len() {
        lemma_pp_token_end(l, i);
        let k = pp_token_end(l, i);
        lemma_pass_without_macros(t, l, k);
        assert(l.subrange(i, k) + l.subrange(k, l.len() as int) =~= l.subrange(i, l.len() as int));
    } else {
        assert(l.subrange(i, l.len() as int) =~= Seq::<char>::empty());
    }
}

/// A line that names no macro comes out of expansion unchanged.
pub proof fn law_line_without_macros_unchanged(t: Map<Seq<char>, MacroSpec>, l: Seq<char>, fuel: nat)
    requires
        names_no_macro(t, l, 0),
    ensures
        expand_fix(t, l, fuel) == Ok::<Seq<char>, PreprocessError>(l),
{
    lemma_pass_without_macros(t, l, 0);
    assert(l.subrange(0, l.len() as int) =~= l);
}

fn mismatch(np: usize, variadic: bool, args: &Vec<Vec<char>>) -> (b: bool)
    ensures
        b == args_mismatch(np as int, variadic, texts_view(args@)),
{
    let exempt = np == 0 && args.len() == 1 && args[0].len() == 0;
    !exempt && ((!variadic && args.len() != np) || (variadic && args.len() < np))
}

/// One scan of line `l`: `expand_pass`.
pub fn expand_pass_exec(t: &MacroTable, l: &Vec<char>) -> (r: Result<(Vec<char>, bool), PreprocessError>)
    requires
        t.wf(),
    ensures
        match r {
            Ok((o, m)) => expand_pass(t@, l@, 0) == Ok::<(Seq<char>, bool), PreprocessError>((o@, m)),
            Err(e) => expand_pass(t@, l@, 0) == Err::<(Seq<char>, bool), PreprocessError>(e),
        },
{
    let mut out: Vec<char> = Vec::new();
    let mut modified = false;
    let mut i: usize = 0;
    assert(out@ + Seq::<char>::empty() =~= out@);
    proof {
        match expand_pass(t@, l@, 0) {
            Ok((s, m)) => {
                assert(Seq::<char>::empty() + s =~= s);
            },
            Err(_) => {},
        }
    }
    while i < l.len()
        invariant
            i <= l@.len(),
            t.wf(),
            expand_pass(t@, l@, 0) == prepend_mod(out@, modified, expand_pass(t@, l@, i as int)),
        decreases l@.len() - i,
    {
        let k = pp_token_end_exec(l, i);
        let c = l[i];
        let ghost tok = l@.subrange(i as int, k as int);
        let mut found: Option<&Macro> = None;
        if (('a' <= c && c <= 'z') || ('A' <= c && c <= 'Z') || c == '_') && keyword_exec(l, i, k).is_none() {
            let name = sub_chars(l, i, k);
            found = t.get(name.as_slice());
        }
        match found {
            Some(m) => {
                assert(t.lookup(tok) == Some(m@));
                assert(t@.dom().contains(tok) && t@[tok] == m@);
                match m {
                    Macro::Object(b) => {
                        let ghost text = match b {
                            Some(x) => x@,
                            None => Seq::<char>::empty(),
                        };
                        let ghost before = out@;
                        if let Some(x) = b {
                            push_string(&mut out, x);
                        } else {
                            assert(out@ + Seq::<char>::empty() =~= out@);
                        }
                        proof {
                            lemma_prepend_mod_assoc(before, modified, text, true, expand_pass(t@, l@, k as int));
                        }
                        modified = true;
                        i = k;
                    },
                    Macro::Function(ps, v, body) => match body {
                        None => {
                            proof {
                                lemma_prepend_mod_assoc(out@, modified, Seq::empty(), true, expand_pass(t@, l@, k as int));
                                assert(out@ + Seq::<char>::empty() =~= out@);
                            }
                            modified = true;
                            i = k;
                        },
                        Some(b) => {
                            if k >= l.len() {
                                return Err(PreprocessError::UnexpectedEnd(i));
                            }
                            if l[k] != '(' {
                                return Err(PreprocessError::MacroCallExpected(i));
                            }
                            match collect_args_exec(l, k + 1) {
                                None => {
                                    return Err(PreprocessError::UnexpectedEnd(i));
                                },
                                Some((args, e)) => {
                                    if mismatch(ps.len(), *v, &args) {
                                        return Err(PreprocessError::ArgumentCountMismatch(i));
                                    }
                                    proof {
                                        lemma_collect_args_bounds(l@, k + 1, 1, seq![Seq::<char>::empty()]);
                                        assert(super::macros::macro_wf(t.lookup(tok)->0));
                                    }
                                    let text = substitute_exec(ps, &args, b);
                                    let ghost before = out@;
                                    push_chars(&mut out, &text);
                                    proof {
                                        lemma_prepend_mod_assoc(before, modified, text@, true, expand_pass(t@, l@, e as int));
                                    }
                                    modified = true;
                                    i = e;
                                },
                            }
                        },
                    },
                }
            },
            None => {
                let ghost before = out@;
                let piece = sub_chars(l, i, k);
                push_chars(&mut out, &piece);
                proof {
                    lemma_prepend_mod_assoc(before, modified, tok, false, expand_pass(t@, l@, k as int));
                    assert(modified || false == modified);
                }
                i = k;
            },
        }
    }
    proof {
        assert(out@ + Seq::<char>::empty() =~= out@);
    }
    Ok((out, modified))
}

/// The line `l` with its macros expanded: `expand_fix` with the rescan limit.
pub fn expand_line(t: &MacroTable, l: &Vec<char>) -> (r: Result<Vec<char>, PreprocessError>)
    requires
        t.wf(),
    ensures
        match r {
            Ok(o) => expand_fix(t@, l@, RESCAN_LIMIT as nat) == Ok::<Seq<char>, PreprocessError>(o@),
            Err(e) => expand_fix(t@, l@, RESCAN_LIMIT as nat) == Err::<Seq<char>, PreprocessError>(e),
        },
{
    let mut fuel: usize = RESCAN_LIMIT;
    let mut cur = sub_chars(l, 0, l.len());
    assert(l@.subrange(0, l@.len() as int) =~= l@);
    loop
        invariant
            t.wf(),
            expand_fix(t@, l@, RESCAN_LIMIT as nat) == expand_fix(t@, cur@, fuel as nat),
        decreases fuel,
    {
        let (next, m) = match expand_pass_exec(t, &cur) {
            Ok(p) => p,
            Err(e) => {
                return Err(e);
            },
        };
        if !m {
            return Ok(next);
        }
        if fuel == 0 {
            return Err(PreprocessError::ExpansionTooDeep(0));
        }
        fuel = fuel - 1;
        cur = next;
    }
}

} // verus!
