//! The body of a function-like macro, read into replacements.
use vstd::prelude::*;

use super::error::PreprocessError;
use super::expand::{body_wf, lemma_pp_token_end, pp_token_end, pp_token_end_exec};
use super::macros::{names_view, reps_view, same_chars, RepSpec, Replacement};
use crate::parse::lexer::{ident_end, ident_end_exec, is_ident_char, is_ident_start, lemma_ident_end, word_eq};
use crate::text::string_of;

verus! {

/// A blank within a line.
pub open spec fn is_hblank(c: char) -> bool {
    c == ' ' || c == '\t'
}

/// The first index at or after `i` that is not a blank within the line.
pub open spec fn skip_hblanks(s: Seq<char>, i: int) -> int
    decreases s.len() - i,
{
    if 0 <= i < s.len() && is_hblank(s[i]) {
        skip_hblanks(s, i + 1)
    } else {
        i
    }
}

pub proof fn lemma_skip_hblanks(s: Seq<char>, i: int)
    ensures
        i <= skip_hblanks(s, i),
        0 <= i <= s.len() ==> skip_hblanks(s, i) <= s.len(),
        0 <= skip_hblanks(s, i) < s.len() ==> !is_hblank(s[skip_hblanks(s, i)]),
        forall|j: int| i <= j < skip_hblanks(s, i) ==> is_hblank(#[trigger] s[j]),
    decreases s.len() - i,
{
    if 0 <= i < s.len() && is_hblank(s[i]) {
        lemma_skip_hblanks(s, i + 1);
    }
}

/// Finds `skip_hblanks(s, i)`.
pub fn skip_hblanks_exec(s: &Vec<char>, i: usize) -> (r: usize)
    requires
        i <= s@.len(),
    ensures
        r == skip_hblanks(s@, i as int),
        i <= r <= s@.len(),
{
    proof {
        lemma_skip_hblanks(s@, i as int);
    }
    let mut k = i;
    while k < s.len() && (s[k] == ' ' || s[k] == '\t')
        invariant
            i <= k <= s@.len(),
            skip_hblanks(s@, k as int) == skip_hblanks(s@, i as int),
        decreases s@.len() - k,
    {
        k = k + 1;
    }
    k
}

/// The right side of a `##` that starts after blanks at `k`: the range of the
/// name or number after `##` and more blanks.
pub open spec fn paste_at(s: Seq<char>, k: int) -> Option<(int, int)> {
    let j = skip_hblanks(s, k);
    if 0 <= j && j + 1 < s.len() && s[j] == '#' && s[j + 1] == '#' {
        let m = skip_hblanks(s, j + 2);
        if 0 <= m < s.len() && is_ident_char(s[m]) {
            Some((m, pp_token_end(s, m)))
        } else {
            None
        }
    } else {
        None
    }
}

/// The name that follows a `#` ending at `k`, after blanks.
pub open spec fn name_after(s: Seq<char>, k: int) -> Option<(int, int)> {
    let j = skip_hblanks(s, k);
    if 0 <= j < s.len() && is_ident_start(s[j]) {
        Some((j, ident_end(s, j)))
    } else {
        None
    }
}

pub proof fn lemma_paste_name(s: Seq<char>, k: int)
    requires
        0 <= k <= s.len(),
    ensures
        paste_at(s, k) matches Some((a, b)) ==> k < a < b <= s.len(),
        name_after(s, k) matches Some((a, b)) ==> k <= a < b <= s.len(),
{
    lemma_skip_hblanks(s, k);
    let j = skip_hblanks(s, k);
    if 0 <= j && j + 1 < s.len() {
        lemma_skip_hblanks(s, j + 2);
        let m = skip_hblanks(s, j + 2);
        if 0 <= m < s.len() {
            lemma_pp_token_end(s, m);
        }
    }
    if 0 <= j < s.len() {
        lemma_ident_end(s, j);
        lemma_ident_end(s, j + 1);
    }
}

/// `out` with the pending text `acc` added, if there is any.
pub open spec fn flush(acc: Seq<char>, out: Seq<RepSpec>) -> Seq<RepSpec> {
    if acc.len() == 0 {
        out
    } else {
        out.push(RepSpec::Text(acc))
    }
}

/// The replacements of the body `s` of a macro with parameters `ps`, read
/// from `i` with pending text `acc` after the replacements `out`:
/// `a ## b` (names or numbers, blanks around `##` allowed) pastes, `#`
/// before a parameter stringizes it, `#__VA_ARGS__` stands for the variadic
/// arguments, a parameter is replaced by its argument, and everything else
/// is text.
pub open spec fn build_body(
    ps: Seq<Seq<char>>,
    variadic: bool,
    s: Seq<char>,
    i: int,
    acc: Seq<char>,
    out: Seq<RepSpec>,
) -> Result<Seq<RepSpec>, PreprocessError>
    decreases s.len() - i,
{
    if i < 0 || i >= s.len() {
        Ok(flush(acc, out))
    } else {
        let k = pp_token_end(s, i);
        proof {
            lemma_pp_token_end(s, i);
            lemma_paste_name(s, k);
        }
        let tok = s.subrange(i, k);
        if is_ident_char(s[i]) && paste_at(s, k) is Some {
            let (a, b) = paste_at(s, k)->0;
            build_body(
                ps,
                variadic,
                s,
                b,
                Seq::empty(),
                flush(acc, out).push(RepSpec::Concat(tok, s.subrange(a, b))),
            )
        } else if s[i] == '#' && k == i + 1 && name_after(s, k) is Some {
            let (a, b) = name_after(s, k)->0;
            let name = s.subrange(a, b);
            if name == "__VA_ARGS__"@ {
                if variadic {
                    build_body(ps, variadic, s, b, Seq::empty(), flush(acc, out).push(RepSpec::VAArg))
                } else {
                    Err(PreprocessError::VaArgsNotAllowed(i as usize))
                }
            } else if ps.contains(name) {
                build_body(ps, variadic, s, b, Seq::empty(), flush(acc, out).push(RepSpec::Stringizing(name)))
            } else {
                Err(PreprocessError::UnknownParameter(i as usize))
            }
        } else if is_ident_start(s[i]) && ps.contains(tok) {
            build_body(ps, variadic, s, k, Seq::empty(), flush(acc, out).push(RepSpec::Parameter(tok)))
        } else {
            build_body(ps, variadic, s, k, acc + tok, out)
        }
    }
}

/// The characters `s[from..to]`.
pub fn sub_chars(s: &Vec<char>, from: usize, to: usize) -> (r: Vec<char>)
    requires
        from <= to <= s@.len(),
    ensures
        r@ == s@.subrange(from as int, to as int),
{
    let mut r: Vec<char> = Vec::new();
    let mut k = from;
    while k < to
        invariant
            from <= k <= to <= s@.len(),
            r@ == s@.subrange(from as int, k as int),
        decreases to - k,
    {
        r.push(s[k]);
        k = k + 1;
        assert(r@ =~= s@.subrange(from as int, k as int));
    }
    r
}

/// Whether `t` is one of the names `ps`.
pub fn names_contain(ps: &Vec<String>, t: &Vec<char>) -> (b: bool)
    ensures
        b == names_view(ps@).contains(t@),
{
    let mut i: usize = 0;
    while i < ps.len()
        invariant
            i <= ps@.len(),
            forall|j: int| 0 <= j < i ==> names_view(ps@)[j] != t@,
        decreases ps@.len() - i,
    {
        assert(names_view(ps@)[i as int] == ps@[i as int]@);
        if same_chars(&ps[i], t.as_slice()) {
            return true;
        }
        i = i + 1;
    }
    false
}

fn flush_exec(acc: &mut Vec<char>, out: &mut Vec<Replacement>)
    ensures
        final(acc)@.len() == 0,
        reps_view(final(out)@) == flush(old(acc)@, reps_view(old(out)@)),
{
    if acc.len() > 0 {
        let t = string_of(acc);
        out.push(Replacement::Text(t));
        assert(reps_view(out@) =~= reps_view(old(out)@).push(RepSpec::Text(old(acc)@)));
        *acc = Vec::new();
    } else {
        assert(old(acc)@ =~= Seq::<char>::empty());
    }
}

proof fn lemma_flush_wf(ps: Seq<Seq<char>>, acc: Seq<char>, out: Seq<RepSpec>)
    requires
        body_wf(ps, out),
    ensures
        body_wf(ps, flush(acc, out)),
{
    if acc.len() > 0 {
        assert forall|k: int| 0 <= k < flush(acc, out).len() implies match #[trigger] flush(acc, out)[k] {
            RepSpec::Parameter(p) => ps.contains(p),
            RepSpec::Stringizing(p) => ps.contains(p),
            _ => true,
        } by {
            if k < out.len() {
                assert(flush(acc, out)[k] == out[k]);
            }
        }
    }
}

proof fn lemma_push_wf(ps: Seq<Seq<char>>, out: Seq<RepSpec>, r: RepSpec)
    requires
        body_wf(ps, out),
        r matches RepSpec::Parameter(p) ==> ps.contains(p),
        r matches RepSpec::Stringizing(p) ==> ps.contains(p),
    ensures
        body_wf(ps, out.push(r)),
{
    assert forall|k: int| 0 <= k < out.push(r).len() implies match #[trigger] out.push(r)[k] {
        RepSpec::Parameter(p) => ps.contains(p),
        RepSpec::Stringizing(p) => ps.contains(p),
        _ => true,
    } by {
        if k < out.len() {
            assert(out.push(r)[k] == out[k]);
        }
    }
}

/// Reads the body `s` of a function-like macro with parameters `ps`.
pub fn build_body_exec(ps: &Vec<String>, variadic: bool, s: &Vec<char>) -> (r: Result<Vec<Replacement>, PreprocessError>)
    ensures
        match r {
            Ok(v) => build_body(names_view(ps@), variadic, s@, 0, Seq::empty(), Seq::empty()) == Ok::<
                Seq<RepSpec>,
                PreprocessError,
            >(reps_view(v@)) && body_wf(names_view(ps@), reps_view(v@)),
            Err(e) => build_body(names_view(ps@), variadic, s@, 0, Seq::empty(), Seq::empty()) == Err::<
                Seq<RepSpec>,
                PreprocessError,
            >(e),
        },
{
    let ghost pv = names_view(ps@);
    let mut out: Vec<Replacement> = Vec::new();
    let mut acc: Vec<char> = Vec::new();
    let mut i: usize = 0;
    assert(reps_view(out@) =~= Seq::<RepSpec>::empty());
    assert(acc@ =~= Seq::<char>::empty());
    while i < s.len()
        invariant
            i <= s@.len(),
            pv == names_view(ps@),
            body_wf(pv, reps_view(out@)),
            build_body(pv, variadic, s@, 0, Seq::empty(), Seq::empty()) == build_body(
                pv,
                variadic,
                s@,
                i as int,
                acc@,
                reps_view(out@),
            ),
        decreases s@.len() - i,
    {
        let k = pp_token_end_exec(s, i);
        proof {
            lemma_paste_name(s@, k as int);
            lemma_skip_hblanks(s@, k as int);
        }
        let c = s[i];
        let word = ('a' <= c && c <= 'z') || ('A' <= c && c <= 'Z') || c == '_' || ('0' <= c && c <= '9');
        // the right side of a `##`, if one follows
        let mut paste: Option<(usize, usize)> = None;
        if word {
            let j = skip_hblanks_exec(s, k);
            if j < s.len() && j + 1 < s.len() && s[j] == '#' && s[j + 1] == '#' {
                let m = skip_hblanks_exec(s, j + 2);
                if m < s.len() {
                    let d = s[m];
                    if ('a' <= d && d <= 'z') || ('A' <= d && d <= 'Z') || d == '_' || ('0' <= d && d <= '9') {
                        paste = Some((m, pp_token_end_exec(s, m)));
                    }
                }
            }
        }
        // the name after a single `#`, if one follows
        let mut named: Option<(usize, usize)> = None;
        if c == '#' && k == i + 1 {
            let j = skip_hblanks_exec(s, k);
            if j < s.len() {
                let d = s[j];
                if ('a' <= d && d <= 'z') || ('A' <= d && d <= 'Z') || d == '_' {
                    named = Some((j, ident_end_exec(s, j)));
                }
            }
        }
        let ghost before_out = reps_view(out@);
        let ghost before_acc = acc@;
        if let Some((a, b)) = paste {
            assert(paste_at(s@, k as int) == Some((a as int, b as int)));
            let lhs = string_of(&sub_chars(s, i, k));
            let rhs = string_of(&sub_chars(s, a, b));
            flush_exec(&mut acc, &mut out);
            proof {
                lemma_flush_wf(pv, before_acc, before_out);
            }
            let ghost flushed = reps_view(out@);
            out.push(Replacement::Concat(lhs, rhs));
            proof {
                assert(reps_view(out@) =~= flushed.push(RepSpec::Concat(s@.subrange(i as int, k as int), s@.subrange(a as int, b as int))));
                lemma_push_wf(pv, flushed, RepSpec::Concat(s@.subrange(i as int, k as int), s@.subrange(a as int, b as int)));
                assert(acc@ =~= Seq::<char>::empty());
            }
            i = b;
        } else if let Some((a, b)) = named {
            assert(paste_at(s@, k as int) is None || !is_ident_char(s@[i as int]));
            assert(name_after(s@, k as int) == Some((a as int, b as int)));
            if word_eq(s, a, b, "__VA_ARGS__") {
                if !variadic {
                    return Err(PreprocessError::VaArgsNotAllowed(i));
                }
                flush_exec(&mut acc, &mut out);
                proof {
                    lemma_flush_wf(pv, before_acc, before_out);
                }
                let ghost flushed = reps_view(out@);
                out.push(Replacement::VAArg);
                proof {
                    assert(reps_view(out@) =~= flushed.push(RepSpec::VAArg));
                    lemma_push_wf(pv, flushed, RepSpec::VAArg);
                    assert(acc@ =~= Seq::<char>::empty());
                }
            } else {
                let name = sub_chars(s, a, b);
                if !names_contain(ps, &name) {
                    return Err(PreprocessError::UnknownParameter(i));
                }
                flush_exec(&mut acc, &mut out);
                proof {
                    lemma_flush_wf(pv, before_acc, before_out);
                }
                let ghost flushed = reps_view(out@);
                out.push(Replacement::Stringizing(string_of(&name)));
                proof {
                    assert(reps_view(out@) =~= flushed.push(RepSpec::Stringizing(name@)));
                    lemma_push_wf(pv, flushed, RepSpec::Stringizing(name@));
                    assert(acc@ =~= Seq::<char>::empty());
                }
            }
            i = b;
        } else {
            assert(paste_at(s@, k as int) is None || !is_ident_char(s@[i as int]));
            assert(!(s@[i as int] == '#' && k == i + 1 && name_after(s@, k as int) is Some));
            let tok = sub_chars(s, i, k);
            let starts_name = ('a' <= c && c <= 'z') || ('A' <= c && c <= 'Z') || c == '_';
            if starts_name && names_contain(ps, &tok) {
                flush_exec(&mut acc, &mut out);
                proof {
                    lemma_flush_wf(pv, before_acc, before_out);
                }
                let ghost flushed = reps_view(out@);
                out.push(Replacement::Parameter(string_of(&tok)));
                proof {
                    assert(reps_view(out@) =~= flushed.push(RepSpec::Parameter(tok@)));
                    lemma_push_wf(pv, flushed, RepSpec::Parameter(tok@));
                    assert(acc@ =~= Seq::<char>::empty());
                }
            } else {
                let mut t = tok;
                acc.append(&mut t);
            }
            i = k;
        }
    }
    let ghost last_acc = acc@;
    let ghost last_out = reps_view(out@);
    flush_exec(&mut acc, &mut out);
    proof {
        lemma_flush_wf(pv, last_acc, last_out);
    }
    Ok(out)
}

} // verus!
