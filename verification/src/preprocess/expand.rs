//! Preprocessing tokens of a line, and the expansion of function-like macros:
//! collecting the arguments of a call and substituting them into the body.
use vstd::prelude::*;

use super::macros::{names_view, reps_view, RepSpec, Replacement};
use super::scan::{find_quote_end, lemma_quote_end, quote_end};
use crate::parse::lexer::{
    ident_end, ident_end_exec, is_digit, is_ident_start, lemma_ident_end, lemma_number_end,
    number_end, number_end_exec,
};
use crate::text::{chars_of, string_of};

verus! {

/// The end of the preprocessing token of line `l` that starts at `i`: an
/// identifier or keyword, a preprocessing number, a string or character
/// literal (running to the end of the line when it is not closed), `##`,
/// `...`, or a single character.
pub open spec fn pp_token_end(l: Seq<char>, i: int) -> int {
    if is_ident_start(l[i]) {
        ident_end(l, i)
    } else if is_digit(l[i]) || (l[i] == '.' && i + 1 < l.len() && is_digit(l[i + 1])) {
        number_end(l, i)
    } else if l[i] == '"' || l[i] == '\'' {
        match quote_end(l, i + 1, l[i]) {
            Some(k) => k,
            None => l.len() as int,
        }
    } else if l[i] == '#' && i + 1 < l.len() && l[i + 1] == '#' {
        i + 2
    } else if l[i] == '.' && i + 2 < l.len() && l[i + 1] == '.' && l[i + 2] == '.' {
        i + 3
    } else {
        i + 1
    }
}

pub proof fn lemma_pp_token_end(l: Seq<char>, i: int)
    requires
        0 <= i < l.len(),
    ensures
        i < pp_token_end(l, i) <= l.len(),
{
    lemma_ident_end(l, i);
    lemma_number_end(l, i);
    lemma_quote_end(l, i + 1, l[i]);
    lemma_ident_end(l, i + 1);
    lemma_number_end(l, i + 1);
}

/// Finds `pp_token_end(l, i)`.
pub fn pp_token_end_exec(l: &Vec<char>, i: usize) -> (r: usize)
    requires
        i < l.len(),
    ensures
        r == pp_token_end(l@, i as int),
        i < r <= l@.len(),
{
    proof {
        lemma_pp_token_end(l@, i as int);
    }
    let c = l[i];
    if ('a' <= c && c <= 'z') || ('A' <= c && c <= 'Z') || c == '_' {
        ident_end_exec(l, i)
    } else if ('0' <= c && c <= '9') || (c == '.' && i + 1 < l.len() && '0' <= l[i + 1] && l[i + 1] <= '9') {
        number_end_exec(l, i)
    } else if c == '"' || c == '\'' {
        match find_quote_end(l, i + 1, c) {
            Some(k) => k,
            None => l.len(),
        }
    } else if c == '#' && i + 1 < l.len() && l[i + 1] == '#' {
        i + 2
    } else if c == '.' && i + 1 < l.len() && i + 2 < l.len() && l[i + 1] == '.' && l[i + 2] == '.' {
        i + 3
    } else {
        i + 1
    }
}

/// What `escape_string::escape` makes of one character.
pub open spec fn escape_char(c: char) -> Seq<char> {
    if c == '\x07' {
        seq!['\\', 'a']
    } else if c == '\x08' {
        seq!['\\', 'b']
    } else if c == '\t' {
        seq!['\\', 't']
    } else if c == '\n' {
        seq!['\\', 'n']
    } else if c == '\x0b' {
        seq!['\\', 'v']
    } else if c == '\x0c' {
        seq!['\\', 'f']
    } else if c == '\r' {
        seq!['\\', 'r']
    } else if c == ' ' {
        seq!['\\', ' ']
    } else if c == '\\' {
        seq!['\\', '\\']
    } else {
        seq![c]
    }
}

/// What `escape_string::escape` makes of a text: each character escaped.
pub open spec fn escape_spec(s: Seq<char>) -> Seq<char>
    decreases s.len(),
{
    if s.len() == 0 {
        Seq::empty()
    } else {
        escape_spec(s.drop_last()) + escape_char(s.last())
    }
}

/// `escape_string::escape`: each of BEL, BS, tab, newline, VT, FF and CR is
/// replaced by a backslash and its letter (`a b t n v f r`), a space by a
/// backslash and a space, a backslash by two backslashes; every other
/// character is kept.
#[verifier::external_body]
fn escape_text(text: &str) -> (r: String)
    ensures
        r@ == escape_spec(text@),
{
    escape_string::escape(text).into_owned()
}

/// Appends the characters of `s` to `out`.
pub fn push_chars(out: &mut Vec<char>, s: &Vec<char>)
    ensures
        final(out)@ == old(out)@ + s@,
{
    let mut i: usize = 0;
    while i < s.len()
        invariant
            i <= s@.len(),
            out@ == old(out)@ + s@.take(i as int),
        decreases s@.len() - i,
    {
        out.push(s[i]);
        i = i + 1;
        assert(s@.take(i as int) =~= s@.take(i - 1).push(s@[i - 1]));
    }
    assert(s@.take(s@.len() as int) =~= s@);
}

/// Appends the characters of `s` to `out`.
pub fn push_string(out: &mut Vec<char>, s: &String)
    ensures
        final(out)@ == old(out)@ + s@,
{
    let v = chars_of(s.as_str());
    push_chars(out, &v);
}

/// The characters of each vector.
pub open spec fn texts_view(v: Seq<Vec<char>>) -> Seq<Seq<char>> {
    v.map_values(|a: Vec<char>| a@)
}

/// `args` with `t` appended to its last element.
pub open spec fn add_last(args: Seq<Seq<char>>, t: Seq<char>) -> Seq<Seq<char>> {
    args.update(args.len() - 1, args.last() + t)
}

/// The arguments of a macro call whose `(` comes just before `j`, with
/// `level` parentheses open and the arguments read so far: a `,` at the
/// outer level starts a new argument, single spaces are dropped, other
/// tokens are appended to the current argument, and the `)` that closes the
/// call ends it. The result is the arguments and the index after that `)`,
/// or `None` when the line ends first.
pub open spec fn collect_args(l: Seq<char>, j: int, level: int, args: Seq<Seq<char>>) -> Option<
    (Seq<Seq<char>>, int),
>
    decreases l.len() - j,
{
    if j < 0 || j >= l.len() {
        None
    } else {
        let k = pp_token_end(l, j);
        proof {
            lemma_pp_token_end(l, j);
        }
        let tok = l.subrange(j, k);
        if l[j] == '(' {
            collect_args(l, k, level + 1, add_last(args, tok))
        } else if l[j] == ')' {
            if level == 1 {
                Some((args, k))
            } else {
                collect_args(l, k, level - 1, add_last(args, tok))
            }
        } else if l[j] == ',' {
            if level != 1 {
                collect_args(l, k, level, add_last(args, tok))
            } else {
                collect_args(l, k, level, args.push(Seq::empty()))
            }
        } else if l[j] == ' ' {
            collect_args(l, k, level, args)
        } else {
            collect_args(l, k, level, add_last(args, tok))
        }
    }
}

fn append_last(args: &mut Vec<Vec<char>>, l: &Vec<char>, from: usize, to: usize)
    requires
        old(args)@.len() > 0,
        from <= to <= l@.len(),
    ensures
        texts_view(final(args)@) == add_last(texts_view(old(args)@), l@.subrange(from as int, to as int)),
{
    let mut last = args.pop().unwrap();
    let mut k = from;
    let ghost start = last@;
    while k < to
        invariant
            from <= k <= to,
            to <= l@.len(),
            last@ == start + l@.subrange(from as int, k as int),
        decreases to - k,
    {
        last.push(l[k]);
        k = k + 1;
        assert(l@.subrange(from as int, k as int) =~= l@.subrange(from as int, k - 1).push(l@[k - 1]));
    }
    args.push(last);
    proof {
        assert(texts_view(args@) =~= add_last(texts_view(old(args)@), l@.subrange(from as int, to as int)));
    }
}

/// Reads the arguments of a call whose `(` is at `j - 1`.
pub fn collect_args_exec(l: &Vec<char>, j: usize) -> (r: Option<(Vec<Vec<char>>, usize)>)
    requires
        1 <= j <= l@.len(),
    ensures
        match r {
            Some((a, k)) => collect_args(l@, j as int, 1, seq![Seq::<char>::empty()]) == Some(
                (texts_view(a@), k as int),
            ),
            None => collect_args(l@, j as int, 1, seq![Seq::<char>::empty()]) is None,
        },
{
    let mut args: Vec<Vec<char>> = Vec::new();
    args.push(Vec::new());
    let mut level: usize = 1;
    let mut k = j;
    assert(texts_view(args@) =~= seq![Seq::<char>::empty()]);
    while k < l.len()
        invariant
            1 <= level <= k <= l@.len(),
            args@.len() > 0,
            collect_args(l@, j as int, 1, seq![Seq::<char>::empty()]) == collect_args(
                l@,
                k as int,
                level as int,
                texts_view(args@),
            ),
        decreases l@.len() - k,
    {
        let e = pp_token_end_exec(l, k);
        let c = l[k];
        if c == '(' {
            append_last(&mut args, l, k, e);
            level = level + 1;
        } else if c == ')' {
            if level == 1 {
                return Some((args, e));
            }
            append_last(&mut args, l, k, e);
            level = level - 1;
        } else if c == ',' {
            if level != 1 {
                append_last(&mut args, l, k, e);
            } else {
                let ghost prev = texts_view(args@);
                args.push(Vec::new());
                assert(texts_view(args@) =~= prev.push(Seq::empty()));
            }
        } else if c != ' ' {
            append_last(&mut args, l, k, e);
        }
        k = e;
    }
    None
}

/// The index of the first occurrence of `p` in `ps`, or the length of `ps`.
pub open spec fn first_index(ps: Seq<Seq<char>>, p: Seq<char>) -> int
    decreases ps.len(),
{
    if ps.len() == 0 {
        0
    } else if ps[0] == p {
        0
    } else {
        1 + first_index(ps.drop_first(), p)
    }
}

proof fn lemma_first_index(ps: Seq<Seq<char>>, p: Seq<char>)
    ensures
        0 <= first_index(ps, p) <= ps.len(),
        first_index(ps, p) < ps.len() ==> ps[first_index(ps, p)] == p,
        ps.contains(p) ==> first_index(ps, p) < ps.len(),
        forall|j: int| 0 <= j < first_index(ps, p) ==> ps[j] != p,
    decreases ps.len(),
{
    if ps.len() > 0 && ps[0] != p {
        lemma_first_index(ps.drop_first(), p);
        if ps.contains(p) {
            let w = choose|w: int| 0 <= w < ps.len() && ps[w] == p;
            assert(ps.drop_first()[w - 1] == p);
        }
        assert forall|j: int| 0 <= j < first_index(ps, p) implies ps[j] != p by {
            if j > 0 {
                assert(ps[j] == ps.drop_first()[j - 1]);
            }
        }
    }
}

/// Finds `first_index(names_view(ps), p)`.
fn position(ps: &Vec<String>, p: &String) -> (r: usize)
    ensures
        r == first_index(names_view(ps@), p@),
{
    proof {
        lemma_first_index(names_view(ps@), p@);
    }
    let mut i: usize = 0;
    while i < ps.len()
        invariant
            i <= ps@.len(),
            forall|j: int| 0 <= j < i ==> names_view(ps@)[j] != p@,
            0 <= first_index(names_view(ps@), p@) <= ps@.len(),
            first_index(names_view(ps@), p@) < ps@.len() ==> names_view(ps@)[first_index(names_view(ps@), p@)]
                == p@,
            forall|j: int| 0 <= j < first_index(names_view(ps@), p@) ==> names_view(ps@)[j] != p@,
        decreases ps@.len() - i,
    {
        if ps[i].eq(p) {
            assert(names_view(ps@)[i as int] == ps@[i as int]@);
            return i;
        }
        assert(names_view(ps@)[i as int] == ps@[i as int]@);
        i = i + 1;
    }
    i
}

/// The argument bound to parameter `p`.
pub open spec fn arg_of(ps: Seq<Seq<char>>, args: Seq<Seq<char>>, p: Seq<char>) -> Seq<char> {
    args[first_index(ps, p)]
}

/// One side of a `##`: the escaped argument of a parameter, or the name itself.
pub open spec fn paste_side(ps: Seq<Seq<char>>, args: Seq<Seq<char>>, x: Seq<char>) -> Seq<char> {
    if ps.contains(x) {
        escape_spec(arg_of(ps, args, x))
    } else {
        x
    }
}

/// The texts joined with commas.
pub open spec fn join_commas(a: Seq<Seq<char>>) -> Seq<char>
    decreases a.len(),
{
    if a.len() == 0 {
        Seq::empty()
    } else if a.len() == 1 {
        a[0]
    } else {
        join_commas(a.drop_last()) + seq![','] + a.last()
    }
}

/// The text one replacement stands for, or `None` for a `#__VA_ARGS__` with
/// no arguments after the named ones, which ends the body: a parameter
/// becomes its argument, `#p` the escaped argument in double quotes,
/// `a ## b` both sides pasted (a parameter side escaped), and
/// `#__VA_ARGS__` the arguments after the named ones joined by commas.
pub open spec fn rep_text(ps: Seq<Seq<char>>, args: Seq<Seq<char>>, r: RepSpec) -> Option<Seq<char>> {
    match r {
        RepSpec::Text(t) => Some(t),
        RepSpec::Parameter(p) => Some(arg_of(ps, args, p)),
        RepSpec::Stringizing(p) => Some(seq!['"'] + escape_spec(arg_of(ps, args, p)) + seq!['"']),
        RepSpec::Concat(a, b) => Some(paste_side(ps, args, a) + paste_side(ps, args, b)),
        RepSpec::VAArg => if ps.len() == args.len() {
            None
        } else {
            Some(join_commas(args.skip(ps.len() as int)))
        },
    }
}

/// The text of a body with the arguments substituted.
pub open spec fn substitute(ps: Seq<Seq<char>>, args: Seq<Seq<char>>, body: Seq<RepSpec>) -> Seq<char>
    decreases body.len(),
{
    if body.len() == 0 {
        Seq::empty()
    } else {
        match rep_text(ps, args, body[0]) {
            None => Seq::empty(),
            Some(t) => t + substitute(ps, args, body.drop_first()),
        }
    }
}

/// Every parameter a body names is a parameter of the macro.
pub open spec fn body_wf(ps: Seq<Seq<char>>, body: Seq<RepSpec>) -> bool {
    forall|k: int|
        0 <= k < body.len() ==> match #[trigger] body[k] {
            RepSpec::Parameter(p) => ps.contains(p),
            RepSpec::Stringizing(p) => ps.contains(p),
            _ => true,
        }
}

proof fn lemma_substitute_skip(ps: Seq<Seq<char>>, args: Seq<Seq<char>>, body: Seq<RepSpec>, k: int)
    requires
        0 <= k < body.len(),
    ensures
        substitute(ps, args, body.skip(k)) == match rep_text(ps, args, body[k]) {
            None => Seq::empty(),
            Some(t) => t + substitute(ps, args, body.skip(k + 1)),
        },
{
    assert(body.skip(k).drop_first() =~= body.skip(k + 1));
    assert(body.skip(k)[0] == body[k]);
}

/// The argument of parameter `p`, escaped or not.
fn push_arg(out: &mut Vec<char>, ps: &Vec<String>, args: &Vec<Vec<char>>, p: &String, escaped: bool)
    requires
        names_view(ps@).contains(p@),
        ps@.len() <= args@.len(),
    ensures
        final(out)@ == old(out)@ + if escaped {
            escape_spec(arg_of(names_view(ps@), texts_view(args@), p@))
        } else {
            arg_of(names_view(ps@), texts_view(args@), p@)
        },
{
    proof {
        lemma_first_index(names_view(ps@), p@);
    }
    let i = position(ps, p);
    if escaped {
        let s = string_of(&args[i]);
        let e = escape_text(s.as_str());
        push_string(out, &e);
    } else {
        push_chars(out, &args[i]);
    }
}

/// One side of a `##`.
fn push_paste_side(out: &mut Vec<char>, ps: &Vec<String>, args: &Vec<Vec<char>>, x: &String)
    requires
        ps@.len() <= args@.len(),
    ensures
        final(out)@ == old(out)@ + paste_side(names_view(ps@), texts_view(args@), x@),
{
    proof {
        lemma_first_index(names_view(ps@), x@);
    }
    let i = position(ps, x);
    if i < ps.len() {
        push_arg(out, ps, args, x, true);
    } else {
        push_string(out, x);
    }
}

/// Appends the text of replacement `r`; `false` when `r` ends the body.
fn push_replacement(out: &mut Vec<char>, ps: &Vec<String>, args: &Vec<Vec<char>>, r: &Replacement) -> (go: bool)
    requires
        ps@.len() <= args@.len(),
        r@ matches RepSpec::Parameter(p) ==> names_view(ps@).contains(p),
        r@ matches RepSpec::Stringizing(p) ==> names_view(ps@).contains(p),
    ensures
        match rep_text(names_view(ps@), texts_view(args@), r@) {
            None => !go && final(out)@ == old(out)@,
            Some(t) => go && final(out)@ == old(out)@ + t,
        },
{
    let ghost pv = names_view(ps@);
    let ghost av = texts_view(args@);
    let ghost before = out@;
    match r {
        Replacement::Text(t) => {
            push_string(out, t);
        },
        Replacement::Parameter(p) => {
            push_arg(out, ps, args, p, false);
        },
        Replacement::Stringizing(p) => {
            out.push('"');
            push_arg(out, ps, args, p, true);
            out.push('"');
            assert(out@ =~= before + (seq!['"'] + escape_spec(arg_of(pv, av, p@)) + seq!['"']));
        },
        Replacement::Concat(a, b) => {
            push_paste_side(out, ps, args, a);
            push_paste_side(out, ps, args, b);
            assert(out@ =~= before + (paste_side(pv, av, a@) + paste_side(pv, av, b@)));
        },
        Replacement::VAArg => {
            if ps.len() == args.len() {
                return false;
            }
            let n = ps.len();
            push_chars(out, &args[n]);
            let mut i = n + 1;
            proof {
                assert(av.skip(n as int).take(1) =~= seq![av[n as int]]);
                assert(join_commas(seq![av[n as int]]) == av[n as int]);
            }
            while i < args.len()
                invariant
                    n < i <= args@.len(),
                    av == texts_view(args@),
                    out@ == before + join_commas(av.skip(n as int).take(i - n)),
                decreases args@.len() - i,
            {
                out.push(',');
                push_chars(out, &args[i]);
                proof {
                    let t = av.skip(n as int).take(i + 1 - n);
                    assert(t.drop_last() =~= av.skip(n as int).take(i - n));
                    assert(t.last() == av[i as int]);
                }
                i = i + 1;
            }
            assert(av.skip(n as int).take(args@.len() - n) =~= av.skip(n as int));
        },
    }
    true
}

/// The text of `body` with the arguments `args` substituted for the
/// parameters `ps`.
pub fn substitute_exec(ps: &Vec<String>, args: &Vec<Vec<char>>, body: &Vec<Replacement>) -> (r: Vec<char>)
    requires
        ps@.len() <= args@.len(),
        body_wf(names_view(ps@), reps_view(body@)),
    ensures
        r@ == substitute(names_view(ps@), texts_view(args@), reps_view(body@)),
{
    let ghost pv = names_view(ps@);
    let ghost av = texts_view(args@);
    let ghost bv = reps_view(body@);
    let mut out: Vec<char> = Vec::new();
    let mut k: usize = 0;
    assert(bv.skip(0) =~= bv);
    while k < body.len()
        invariant
            k <= body@.len(),
            bv.len() == body@.len(),
            pv == names_view(ps@),
            av == texts_view(args@),
            bv == reps_view(body@),
            ps@.len() <= args@.len(),
            body_wf(pv, bv),
            out@ + substitute(pv, av, bv.skip(k as int)) == substitute(pv, av, bv),
        decreases body@.len() - k,
    {
        proof {
            lemma_substitute_skip(pv, av, bv, k as int);
            assert(bv[k as int] == body@[k as int]@);
            assert(body_wf(pv, bv) ==> match bv[k as int] {
                RepSpec::Parameter(p) => pv.contains(p),
                RepSpec::Stringizing(p) => pv.contains(p),
                _ => true,
            });
        }
        let ghost before = out@;
        let go = push_replacement(&mut out, ps, args, &body[k]);
        if !go {
            assert(out@ + Seq::<char>::empty() =~= out@);
            return out;
        }
        proof {
            let t = rep_text(pv, av, bv[k as int])->0;
            assert(out@ + substitute(pv, av, bv.skip(k + 1)) =~= before + (t + substitute(pv, av, bv.skip(k + 1))));
        }
        k = k + 1;
    }
    assert(out@ + Seq::<char>::empty() =~= out@);
    out
}

} // verus!
