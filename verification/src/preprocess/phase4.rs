//! Translation phase 4: preprocessing directives and macro expansion.
//!
//! The text is read line by line. A line whose first non-blank character is
//! `#` is a directive; any other line is text, written out with its macros
//! expanded. At the outermost level the blanks before a directive are kept;
//! inside a conditional they are dropped. Directives write nothing else,
//! except `#include`, which writes the preprocessed header.
use vstd::prelude::*;

use super::define::{build_body_exec, name_after, skip_hblanks, skip_hblanks_exec, sub_chars};
use super::directives::{
    after, as_ints, branches_spec, include_paths_from, condition_spec, define_spec, directive_spec, find_close, find_header_spec,
    first_name_defined, header_spec, headers_view, include_path_spec, lemma_after_after, line_at, params_from,
    process_spec, select_from, select_group, trim_blanks, trim_end,
};
use super::error::PreprocessError;
use super::expand::{pp_token_end_exec, push_chars};
use super::expand_line::{expand_fix, expand_line, RESCAN_LIMIT};
use super::macros::{names_view, Macro, MacroSpec, MacroTable};
use super::phase2::phase2;
use super::phase3::phase3;
use crate::parse::lexer::{ident_end_exec, word_eq};
use crate::text::{chars_of, string_of};

verus! {

/// How deeply headers may include other headers.
pub const INCLUDE_DEPTH: usize = 64;

/// The lines of `s` from the one that starts at `start`, scanning at `k`:
/// the range of each line without its newline, and whether a newline ends
/// it; text after the last newline is a line without one.
pub open spec fn lines_from(s: Seq<char>, start: int, k: int) -> Seq<(usize, usize, bool)>
    decreases s.len() - k,
{
    if k < 0 || k >= s.len() {
        if 0 <= start < s.len() {
            seq![(start as usize, s.len() as usize, false)]
        } else {
            Seq::empty()
        }
    } else if s[k] == '\n' {
        seq![(start as usize, k as usize, true)] + lines_from(s, k + 1, k + 1)
    } else {
        lines_from(s, start, k + 1)
    }
}

/// The lines of `s`.
pub open spec fn lines_of(s: Seq<char>) -> Seq<(usize, usize, bool)> {
    lines_from(s, 0, 0)
}

proof fn lemma_lines_from_bounds(s: Seq<char>, start: int, k: int)
    requires
        0 <= start <= k,
        s.len() <= usize::MAX,
    ensures
        forall|i: int|
            0 <= i < lines_from(s, start, k).len() ==> #[trigger] lines_from(s, start, k)[i].0 <= lines_from(
                s,
                start,
                k,
            )[i].1 <= s.len(),
    decreases s.len() - k,
{
    let r = lines_from(s, start, k);
    if k >= s.len() {
        if 0 <= start < s.len() {
            assert(r == seq![(start as usize, s.len() as usize, false)]);
            assert(r[0].0 == start && r[0].1 == s.len());
        } else {
            assert(r.len() == 0);
        }
    } else if s[k] == '\n' {
        lemma_lines_from_bounds(s, k + 1, k + 1);
        let rest = lines_from(s, k + 1, k + 1);
        assert(r == seq![(start as usize, k as usize, true)] + rest);
        assert forall|i: int| 0 <= i < r.len() implies #[trigger] r[i].0 <= r[i].1 <= s.len() by {
            if i > 0 {
                assert(r[i] == rest[i - 1]);
            } else {
                assert(r[0].0 == start && r[0].1 == k);
            }
        }
    } else {
        lemma_lines_from_bounds(s, start, k + 1);
        assert(r == lines_from(s, start, k + 1));
    }
}

/// The lines of `s`: `lines_of(s)`.
pub fn split_lines(s: &Vec<char>) -> (r: Vec<(usize, usize, bool)>)
    ensures
        r@ == lines_of(s@),
        forall|i: int|
            0 <= i < r@.len() ==> #[trigger] r@[i].0 <= r@[i].1 <= s@.len(),
{
    let mut r: Vec<(usize, usize, bool)> = Vec::new();
    let mut start: usize = 0;
    let mut k: usize = 0;
    while k < s.len()
        invariant
            start <= k <= s@.len(),
            lines_of(s@) == r@ + lines_from(s@, start as int, k as int),
        decreases s@.len() - k,
    {
        if s[k] == '\n' {
            let ghost before = r@;
            r.push((start, k, true));
            assert(before + (seq![(start, k, true)] + lines_from(s@, k + 1, k + 1)) =~= r@ + lines_from(
                s@,
                k + 1,
                k + 1,
            ));
            start = k + 1;
        }
        k = k + 1;
    }
    if start < s.len() {
        let ghost before = r@;
        r.push((start, s.len(), false));
        assert(before + seq![(start, s.len(), false)] =~= r@);
    } else {
        assert(r@ + Seq::<(usize, usize, bool)>::empty() =~= r@);
    }
    proof {
        lemma_lines_from_bounds(s@, 0, 0);
    }
    r
}

/// The kinds of directive.
#[derive(Debug, Clone, Copy, PartialEq, Eq, Structural)]
pub enum Directive {
    Define,
    Undef,
    Include,
    If,
    Ifdef,
    Ifndef,
    Elif,
    Else,
    Endif,
    Error,
    Pragma,
    Line,
    Unknown,
}

/// Whether line `l` is a directive: its first non-blank character is `#`.
pub open spec fn is_directive(l: Seq<char>) -> bool {
    let j = skip_hblanks(l, 0);
    0 <= j < l.len() && l[j] == '#'
}

/// The text lines `from..to` of `s`, each expanded with the macros of `t`
/// and followed by its newline, if it has one.
pub open spec fn expand_lines(t: Map<Seq<char>, MacroSpec>, s: Seq<char>, lines: Seq<(usize, usize, bool)>, from: int, to: int) -> Result<
    Seq<char>,
    PreprocessError,
>
    decreases to - from,
{
    if from >= to || from < 0 || from >= lines.len() {
        Ok(Seq::empty())
    } else {
        let (a, b, nl) = lines[from];
        match expand_fix(t, s.subrange(a as int, b as int), RESCAN_LIMIT as nat) {
            Err(e) => Err(e),
            Ok(x) => match expand_lines(t, s, lines, from + 1, to) {
                Err(e) => Err(e),
                Ok(rest) => Ok(
                    x + (if nl {
                        seq!['\n']
                    } else {
                        Seq::empty()
                    }) + rest,
                ),
            },
        }
    }
}

/// Whether none of the lines `from..to` of `s` is a directive.
pub open spec fn text_only(s: Seq<char>, lines: Seq<(usize, usize, bool)>, from: int, to: int) -> bool {
    forall|j: int| from <= j < to ==> !is_directive(s.subrange(#[trigger] lines[j].0 as int, lines[j].1 as int))
}

/// The lines `ls` of `s` joined again, each followed by its newline.
pub open spec fn join_lines(s: Seq<char>, ls: Seq<(usize, usize, bool)>) -> Seq<char>
    decreases ls.len(),
{
    if ls.len() == 0 {
        Seq::empty()
    } else {
        s.subrange(ls[0].0 as int, ls[0].1 as int) + (if ls[0].2 {
            seq!['\n']
        } else {
            Seq::empty()
        }) + join_lines(s, ls.drop_first())
    }
}

proof fn lemma_join_lines_from(s: Seq<char>, start: int, k: int)
    requires
        0 <= start <= k <= s.len(),
        s.len() <= usize::MAX,
        forall|j: int| start <= j < k ==> s[j] != '\n',
    ensures
        join_lines(s, lines_from(s, start, k)) == s.subrange(start, s.len() as int),
    decreases s.len() - k,
{
    let r = lines_from(s, start, k);
    if k >= s.len() {
        if start < s.len() {
            assert(r == seq![(start as usize, s.len() as usize, false)]);
            assert(r.drop_first() =~= Seq::<(usize, usize, bool)>::empty());
            assert(join_lines(s, r.drop_first()) == Seq::<char>::empty());
            assert(r[0].0 as int == start && r[0].1 as int == s.len() && !r[0].2);
            assert(join_lines(s, r) == s.subrange(start, s.len() as int) + Seq::<char>::empty() + Seq::<char>::empty());
            assert(s.subrange(start, s.len() as int) + Seq::<char>::empty() + Seq::<char>::empty() =~= s.subrange(
                start,
                s.len() as int,
            ));
        } else {
            assert(s.subrange(start, s.len() as int) =~= Seq::<char>::empty());
        }
    } else if s[k] == '\n' {
        let rest = lines_from(s, k + 1, k + 1);
        lemma_join_lines_from(s, k + 1, k + 1);
        assert(r == seq![(start as usize, k as usize, true)] + rest);
        assert(r.drop_first() =~= rest);
        assert(r[0].0 as int == start && r[0].1 as int == k && r[0].2);
        assert(join_lines(s, r) == s.subrange(start, k) + seq!['\n'] + join_lines(s, rest));
        assert(s.subrange(start, k) + seq!['\n'] + s.subrange(k + 1, s.len() as int) =~= s.subrange(
            start,
            s.len() as int,
        ));
    } else {
        lemma_join_lines_from(s, start, k + 1);
        assert(r == lines_from(s, start, k + 1));
    }
}

/// A text is the join of its lines.
pub proof fn law_lines_rejoin(s: Seq<char>)
    requires
        s.len() <= usize::MAX,
    ensures
        join_lines(s, lines_of(s)) == s,
{
    lemma_join_lines_from(s, 0, 0);
    assert(s.subrange(0, s.len() as int) =~= s);
}

proof fn lemma_expand_lines_plain(t: Map<Seq<char>, MacroSpec>, s: Seq<char>, lines: Seq<(usize, usize, bool)>, i: int)
    requires
        0 <= i <= lines.len(),
        forall|n: Seq<char>| !(#[trigger] t.dom().contains(n)),
    ensures
        expand_lines(t, s, lines, i, lines.len() as int) == Ok::<Seq<char>, PreprocessError>(
            join_lines(s, lines.skip(i)),
        ),
    decreases lines.len() - i,
{
    if i < lines.len() {
        let (a, b, nl) = lines[i];
        super::expand_line::lemma_no_macro_names(t, s.subrange(a as int, b as int), 0);
        super::expand_line::law_line_without_macros_unchanged(t, s.subrange(a as int, b as int), RESCAN_LIMIT as nat);
        lemma_expand_lines_plain(t, s, lines, i + 1);
        assert(lines.skip(i).drop_first() =~= lines.skip(i + 1));
        assert(lines.skip(i)[0] == lines[i]);
    } else {
        assert(lines.skip(i) =~= Seq::<(usize, usize, bool)>::empty());
    }
}

/// With no macro defined, the text lines of a text come out of phase 4
/// exactly as they went in.
pub proof fn law_plain_text_unchanged(t: Map<Seq<char>, MacroSpec>, s: Seq<char>)
    requires
        s.len() <= usize::MAX,
        forall|n: Seq<char>| !(#[trigger] t.dom().contains(n)),
    ensures
        expand_lines(t, s, lines_of(s), 0, lines_of(s).len() as int) == Ok::<Seq<char>, PreprocessError>(s),
{
    lemma_expand_lines_plain(t, s, lines_of(s), 0);
    assert(lines_of(s).skip(0) =~= lines_of(s));
    law_lines_rejoin(s);
}

/// The directive a line holds, with the index just after its name, or
/// `None` for a text line.
pub fn directive_of(l: &Vec<char>) -> (r: Option<(Directive, usize)>)
    ensures
        r matches Some((_, k)) ==> k <= l@.len(),
        r is None <==> !is_directive(l@),
        match r {
            Some((d, k)) => directive_spec(l@) == Some((d, k as int)),
            None => directive_spec(l@) is None,
        },
{
    let j = skip_hblanks_exec(l, 0);
    if j >= l.len() || l[j] != '#' {
        return None;
    }
    let a = skip_hblanks_exec(l, j + 1);
    let b = if a < l.len() {
        ident_end_exec(l, a)
    } else {
        a
    };
    proof {
        crate::parse::lexer::lemma_ident_end(l@, a as int);
        super::define::lemma_skip_hblanks(l@, j + 1);
    }
    let kind = if word_eq(l, a, b, "define") {
        Directive::Define
    } else if word_eq(l, a, b, "undef") {
        Directive::Undef
    } else if word_eq(l, a, b, "include") {
        Directive::Include
    } else if word_eq(l, a, b, "if") {
        Directive::If
    } else if word_eq(l, a, b, "ifdef") {
        Directive::Ifdef
    } else if word_eq(l, a, b, "ifndef") {
        Directive::Ifndef
    } else if word_eq(l, a, b, "elif") {
        Directive::Elif
    } else if word_eq(l, a, b, "else") {
        Directive::Else
    } else if word_eq(l, a, b, "endif") {
        Directive::Endif
    } else if word_eq(l, a, b, "error") {
        Directive::Error
    } else if word_eq(l, a, b, "pragma") {
        Directive::Pragma
    } else if word_eq(l, a, b, "line") {
        Directive::Line
    } else {
        Directive::Unknown
    };
    Some((kind, b))
}

/// The name that starts after blanks at `k`, as its range.
fn name_at(l: &Vec<char>, k: usize) -> (r: Option<(usize, usize)>)
    requires
        k <= l@.len(),
    ensures
        r matches Some((a, b)) ==> k <= a < b <= l@.len(),
        match r {
            Some((a, b)) => name_after(l@, k as int) == Some((a as int, b as int)),
            None => name_after(l@, k as int) is None,
        },
{
    let a = skip_hblanks_exec(l, k);
    if a < l.len() {
        let c = l[a];
        if ('a' <= c && c <= 'z') || ('A' <= c && c <= 'Z') || c == '_' {
            proof {
                crate::parse::lexer::lemma_ident_end(l@, a as int);
                crate::parse::lexer::lemma_ident_end(l@, a + 1);
            }
            return Some((a, ident_end_exec(l, a)));
        }
    }
    None
}

/// `l[from..]` without the blanks at either end.
fn trimmed_rest(l: &Vec<char>, from: usize) -> (r: Vec<char>)
    requires
        from <= l@.len(),
    ensures
        r@ == trim_blanks(l@, from as int),
{
    let a = skip_hblanks_exec(l, from);
    let mut b = l.len();
    while b > a && (l[b - 1] == ' ' || l[b - 1] == '\t')
        invariant
            a <= b <= l@.len(),
            a == skip_hblanks(l@, from as int),
            trim_end(l@, a as int, b as int) == trim_end(l@, a as int, l@.len() as int),
        decreases b,
    {
        b = b - 1;
    }
    sub_chars(l, a, b)
}

/// Reads `#define` after its name at `k` and binds the macro
/// (`define_spec`).
fn define_macro(l: &Vec<char>, k: usize, table: &mut MacroTable, at: usize) -> (r: Result<(), PreprocessError>)
    requires
        k <= l@.len(),
        old(table).wf(),
    ensures
        final(table).wf(),
        r is Ok ==> (define_spec(l@, k as int, at) matches Ok((n, m)) && final(table)@ == old(table)@.insert(n, m)),
        r matches Err(e) ==> define_spec(l@, k as int, at) == Err::<(Seq<char>, MacroSpec), PreprocessError>(e),
{
    let (a, b) = match name_at(l, k) {
        Some(p) => p,
        None => {
            return Err(PreprocessError::InvalidDirective(at));
        },
    };
    let name = string_of(&sub_chars(l, a, b));
    if b < l.len() && l[b] == '(' {
        // a function-like macro: its parameters, then its body
        let mut params: Vec<String> = Vec::new();
        let mut variadic = false;
        let mut p = skip_hblanks_exec(l, b + 1);
        let ghost p0 = p as int;
        let ghost read: Option<(Seq<Seq<char>>, bool, int)> = if p0 < l@.len() && l@[p0] == ')' {
            Some((Seq::<Seq<char>>::empty(), false, p0 + 1))
        } else {
            params_from(l@, p0, Seq::empty())
        };
        if p < l.len() && l[p] == ')' {
            p = p + 1;
            assert(names_view(params@) =~= Seq::<Seq<char>>::empty());
        } else {
            assert(names_view(params@) =~= Seq::<Seq<char>>::empty());
            loop
                invariant_except_break
                    read == params_from(l@, p as int, names_view(params@)),
                    !variadic,
                invariant
                    b < p <= l@.len(),
                    table.wf(),
                    *table == *old(table),
                    read == params_from(l@, p0, Seq::empty()),
                    name_after(l@, k as int) == Some((a as int, b as int)),
                    b < l@.len() && l@[b as int] == '(',
                    p0 == skip_hblanks(l@, b + 1),
                    !(p0 < l@.len() && l@[p0] == ')'),
                ensures
                    b < p <= l@.len(),
                    table.wf(),
                    *table == *old(table),
                    read == Some((names_view(params@), variadic, p as int)),
                decreases l@.len() - p,
            {
                let ghost pp = p as int;
                let ghost acc = names_view(params@);
                if p < l.len() && p + 1 < l.len() && p + 2 < l.len() && l[p] == '.' && l[p + 1] == '.' && l[p + 2] == '.' {
                    variadic = true;
                    p = skip_hblanks_exec(l, p + 3);
                    if p < l.len() && l[p] == ')' {
                        p = p + 1;
                        assert(read == Some((acc, true, p as int)));
                        break;
                    }
                    assert(read is None);
                    return Err(PreprocessError::InvalidDirective(at));
                }
                let (x, y) = match name_at(l, p) {
                    Some(q) => q,
                    None => {
                        assert(read is None);
                        return Err(PreprocessError::InvalidDirective(at));
                    },
                };
                let ghost before = names_view(params@);
                params.push(string_of(&sub_chars(l, x, y)));
                proof {
                    assert(names_view(params@) =~= before.push(l@.subrange(x as int, y as int)));
                }
                p = skip_hblanks_exec(l, y);
                if p < l.len() && l[p] == ',' {
                    p = skip_hblanks_exec(l, p + 1);
                    assert(read == params_from(l@, p as int, names_view(params@)));
                } else if p < l.len() && l[p] == ')' {
                    p = p + 1;
                    assert(read == Some((names_view(params@), false, p as int)));
                    break;
                } else {
                    assert(read is None);
                    return Err(PreprocessError::InvalidDirective(at));
                }
            }
        }
        let body_chars = trimmed_rest(l, p);
        if body_chars.len() == 0 {
            table.insert(name, Macro::Function(params, variadic, None));
        } else {
            let body = build_body_exec(&params, variadic, &body_chars)?;
            table.insert(name, Macro::Function(params, variadic, Some(body)));
        }
    } else {
        let body_chars = trimmed_rest(l, b);
        if body_chars.len() == 0 {
            table.insert(name, Macro::Object(None));
        } else {
            table.insert(name, Macro::Object(Some(string_of(&body_chars))));
        }
    }
    Ok(())
}

/// The truth of the condition of `#if`, `#ifdef`, `#ifndef` or `#elif`
/// after its name at `k`: whether a macro is bound to the name, negated for
/// `#ifndef`. The condition of `#if` and `#elif` is the first name in it
/// other than `defined`.
fn condition(l: &Vec<char>, kind: Directive, k: usize, table: &MacroTable, at: usize) -> (r: Result<bool, PreprocessError>)
    requires
        k <= l@.len(),
    ensures
        match r {
            Ok(b) => condition_spec(table@, l@, kind, k as int, at) == Ok::<bool, PreprocessError>(b),
            Err(e) => condition_spec(table@, l@, kind, k as int, at) == Err::<bool, PreprocessError>(e),
        },
{
    if kind == Directive::Ifdef || kind == Directive::Ifndef {
        let (a, b) = match name_at(l, k) {
            Some(p) => p,
            None => {
                return Err(PreprocessError::InvalidDirective(at));
            },
        };
        let name = sub_chars(l, a, b);
        let found = table.contains(name.as_slice());
        return Ok(if kind == Directive::Ifndef {
            !found
        } else {
            found
        });
    }
    let mut i = k;
    while i < l.len()
        invariant
            k <= i <= l@.len(),
            !(kind == Directive::Ifdef || kind == Directive::Ifndef),
            first_name_defined(table@, l@, k as int, at) == first_name_defined(table@, l@, i as int, at),
        decreases l@.len() - i,
    {
        let e = pp_token_end_exec(l, i);
        let c = l[i];
        if (('a' <= c && c <= 'z') || ('A' <= c && c <= 'Z') || c == '_') && !word_eq(l, i, e, "defined") {
            let name = sub_chars(l, i, e);
            return Ok(table.contains(name.as_slice()));
        }
        i = e;
    }
    Err(PreprocessError::InvalidDirective(at))
}

/// The header named by `#include` after its name at `k`: the text between
/// `"` and `"` or between `<` and `>`.
fn include_path(l: &Vec<char>, k: usize) -> (r: Option<Vec<char>>)
    requires
        k <= l@.len(),
    ensures
        match r {
            Some(p) => include_path_spec(l@, k as int) == Some(p@),
            None => include_path_spec(l@, k as int) is None,
        },
{
    let a = skip_hblanks_exec(l, k);
    if a >= l.len() {
        return None;
    }
    let close = if l[a] == '"' {
        '"'
    } else if l[a] == '<' {
        '>'
    } else {
        return None;
    };
    let mut b = a + 1;
    while b < l.len() && l[b] != close
        invariant
            a < b <= l@.len(),
            a == skip_hblanks(l@, k as int),
            close == (if l@[a as int] == '"' {
                '"'
            } else {
                '>'
            }),
            find_close(l@, close, a + 1) == find_close(l@, close, b as int),
        decreases l@.len() - b,
    {
        b = b + 1;
    }
    if b >= l.len() {
        return None;
    }
    Some(sub_chars(l, a + 1, b))
}

/// The paths of the headers that `#include` lines of `text` name, in order
/// (`include_paths_from`).
pub fn include_paths(text: &str) -> (r: Vec<String>)
    ensures
        names_view(r@) == include_paths_from(text@, lines_of(text@), 0),
{
    let s = chars_of(text);
    let lines = split_lines(&s);
    let mut out: Vec<String> = Vec::new();
    let mut i: usize = 0;
    assert(names_view(out@) =~= Seq::<Seq<char>>::empty());
    assert(Seq::<Seq<char>>::empty() + include_paths_from(s@, lines@, 0) =~= include_paths_from(s@, lines@, 0));
    while i < lines.len()
        invariant
            i <= lines@.len(),
            lines@ == lines_of(s@),
            s@ == text@,
            forall|j: int|
                0 <= j < lines@.len() ==> #[trigger] lines@[j].0 <= lines@[j].1 <= s@.len(),
            names_view(out@) + include_paths_from(s@, lines@, i as int) == include_paths_from(s@, lines@, 0),
        decreases lines@.len() - i,
    {
        let (a, b, _) = lines[i];
        let l = sub_chars(&s, a, b);
        assert(l@ == line_at(s@, lines@, i as int));
        let ghost before = names_view(out@);
        let ghost rest = include_paths_from(s@, lines@, i + 1);
        if let Some((Directive::Include, k)) = directive_of(&l) {
            if let Some(p) = include_path(&l, k) {
                out.push(string_of(&p));
                assert(names_view(out@) =~= before.push(p@));
                assert(before.push(p@) + rest =~= before + (seq![p@] + rest));
            }
        }
        i = i + 1;
    }
    assert(include_paths_from(s@, lines@, i as int) =~= Seq::<Seq<char>>::empty());
    assert(names_view(out@) + Seq::<Seq<char>>::empty() =~= names_view(out@));
    out
}

/// The index of the header named `path`.
fn find_header(headers: &Vec<(String, String)>, path: &Vec<char>) -> (r: Option<usize>)
    ensures
        r matches Some(i) ==> i < headers@.len(),
        match r {
            Some(i) => find_header_spec(headers_view(headers@), path@, 0) == Some(i as int),
            None => find_header_spec(headers_view(headers@), path@, 0) is None,
        },
{
    let mut i: usize = 0;
    while i < headers.len()
        invariant
            i <= headers@.len(),
            find_header_spec(headers_view(headers@), path@, 0) == find_header_spec(headers_view(headers@), path@, i as int),
        decreases headers@.len() - i,
    {
        if super::macros::same_chars(&headers[i].0, path.as_slice()) {
            return Some(i);
        }
        i = i + 1;
    }
    None
}

/// A header preprocessed through phases 2 to 4, with macros of its own
/// (`header_spec`).
fn expand_header(text: &str, headers: &Vec<(String, String)>, depth: usize) -> (r: Result<Vec<char>, PreprocessError>)
    ensures
        match r {
            Ok(v) => header_spec(text@, headers_view(headers@), depth as nat) == Ok::<Seq<char>, PreprocessError>(v@),
            Err(e) => header_spec(text@, headers_view(headers@), depth as nat) == Err::<Seq<char>, PreprocessError>(e),
        },
    decreases depth, 2nat, 0nat,
{
    let code = phase2(text);
    let code = match phase3(code.as_str()) {
        Ok(c) => c,
        Err(e) => {
            return Err(e);
        },
    };
    let s = chars_of(code.as_str());
    let lines = split_lines(&s);
    let mut table = MacroTable::new();
    let mut out: Vec<char> = Vec::new();
    match process_lines(&s, &lines, 0, lines.len(), false, &mut table, headers, depth, &mut out) {
        Ok(_) => {},
        Err(e) => {
            return Err(e);
        },
    }
    assert(out@.skip(0) =~= out@);
    Ok(out)
}

/// The conditional that starts at line `i`: the lines of its `#elif` and
/// `#else` directives, and the line of its `#endif` (`branches_spec`).
fn conditional_branches(
    s: &Vec<char>,
    lines: &Vec<(usize, usize, bool)>,
    i: usize,
    to: usize,
) -> (r: Option<(Vec<usize>, usize)>)
    requires
        i < to <= lines@.len(),
        forall|j: int| 0 <= j < lines@.len() ==> #[trigger] lines@[j].0 <= lines@[j].1 <= s@.len(),
    ensures
        r matches Some((bs, e)) ==> i < e < to && (forall|j: int|
            0 <= j < bs@.len() ==> i < #[trigger] bs@[j] < e) && (forall|j: int, m: int|
            0 <= j < m < bs@.len() ==> bs@[j] < bs@[m]),
        match r {
            Some((bs, e)) => branches_spec(s@, lines@, i + 1, to as int, 0, Seq::<int>::empty()) == Some(
                (as_ints(bs@), e as int),
            ),
            None => branches_spec(s@, lines@, i + 1, to as int, 0, Seq::<int>::empty()) is None,
        },
{
    let mut branches: Vec<usize> = Vec::new();
    let mut depth: usize = 0;
    let mut k = i + 1;
    assert(as_ints(branches@) =~= Seq::<int>::empty());
    while k < to
        invariant
            i < k <= to <= lines@.len(),
            depth <= k,
            forall|j: int| 0 <= j < lines@.len() ==> #[trigger] lines@[j].0 <= lines@[j].1 <= s@.len(),
            forall|j: int| 0 <= j < branches@.len() ==> i < #[trigger] branches@[j] < k,
            forall|j: int, m: int| 0 <= j < m < branches@.len() ==> branches@[j] < branches@[m],
            branches_spec(s@, lines@, i + 1, to as int, 0, Seq::<int>::empty()) == branches_spec(
                s@,
                lines@,
                k as int,
                to as int,
                depth as nat,
                as_ints(branches@),
            ),
        decreases to - k,
    {
        let (a, b, _) = lines[k];
        let l = sub_chars(s, a, b);
        assert(l@ == line_at(s@, lines@, k as int));
        match directive_of(&l) {
            Some((Directive::If, _)) | Some((Directive::Ifdef, _)) | Some((Directive::Ifndef, _)) => {
                depth = depth + 1;
            },
            Some((Directive::Endif, _)) => {
                if depth == 0 {
                    return Some((branches, k));
                }
                depth = depth - 1;
            },
            Some((Directive::Elif, _)) | Some((Directive::Else, _)) => {
                if depth == 0 {
                    let ghost before = as_ints(branches@);
                    branches.push(k);
                    assert(as_ints(branches@) =~= before.push(k as int));
                }
            },
            _ => {},
        }
        k = k + 1;
    }
    None
}

/// The group a conditional that starts at line `i` takes
/// (`select_group`); `l` is its line and `k` the index after its name.
fn select_group_exec(
    s: &Vec<char>,
    lines: &Vec<(usize, usize, bool)>,
    i: usize,
    l: &Vec<char>,
    kind: Directive,
    k: usize,
    branches: &Vec<usize>,
    end: usize,
    table: &MacroTable,
) -> (r: Result<Option<(usize, usize)>, PreprocessError>)
    requires
        i < end < lines@.len(),
        forall|j: int| 0 <= j < lines@.len() ==> #[trigger] lines@[j].0 <= lines@[j].1 <= s@.len(),
        l@ == line_at(s@, lines@, i as int),
        k <= l@.len(),
        forall|j: int| 0 <= j < branches@.len() ==> i < #[trigger] branches@[j] < end,
        forall|j: int, m: int| 0 <= j < m < branches@.len() ==> branches@[j] < branches@[m],
    ensures
        r matches Ok(Some((g0, g1))) ==> i < g0 <= g1 <= end,
        match r {
            Ok(Some((g0, g1))) => select_group(table@, s@, lines@, i as int, kind, k as int, as_ints(branches@), end as int)
                == Ok::<Option<(int, int)>, PreprocessError>(Some((g0 as int, g1 as int))),
            Ok(None) => select_group(table@, s@, lines@, i as int, kind, k as int, as_ints(branches@), end as int)
                == Ok::<Option<(int, int)>, PreprocessError>(None),
            Err(e) => select_group(table@, s@, lines@, i as int, kind, k as int, as_ints(branches@), end as int)
                == Err::<Option<(int, int)>, PreprocessError>(e),
        },
{
    let ghost bv = as_ints(branches@);
    let a = lines[i].0;
    let taken = match condition(l, kind, k, table, a) {
        Ok(b) => b,
        Err(e) => {
            return Err(e);
        },
    };
    if taken {
        let first_end = if branches.len() > 0 {
            branches[0]
        } else {
            end
        };
        return Ok(Some((i + 1, first_end)));
    }
    let mut q: usize = 0;
    while q < branches.len()
        invariant
            q <= branches@.len(),
            i < end < lines@.len(),
            forall|j: int| 0 <= j < lines@.len() ==> #[trigger] lines@[j].0 <= lines@[j].1 <= s@.len(),
            forall|j: int| 0 <= j < branches@.len() ==> i < #[trigger] branches@[j] < end,
            forall|j: int, m: int| 0 <= j < m < branches@.len() ==> branches@[j] < branches@[m],
            bv == as_ints(branches@),
            select_group(table@, s@, lines@, i as int, kind, k as int, bv, end as int) == select_from(
                table@,
                s@,
                lines@,
                bv,
                end as int,
                q as int,
            ),
        decreases branches@.len() - q,
    {
        let at = branches[q];
        let group_end = if q + 1 < branches.len() {
            branches[q + 1]
        } else {
            end
        };
        let (ba, bb, _) = lines[at];
        let bl = sub_chars(s, ba, bb);
        assert(bl@ == line_at(s@, lines@, at as int));
        let holds = match directive_of(&bl) {
            Some((Directive::Elif, bk)) => match condition(&bl, Directive::Elif, bk, table, ba) {
                Ok(b) => b,
                Err(e) => {
                    return Err(e);
                },
            },
            _ => true,
        };
        if holds {
            return Ok(Some((at + 1, group_end)));
        }
        q = q + 1;
    }
    Ok(None)
}

/// Processes the lines `from..to` of `s`, writing to `out`; `nested` tells
/// whether they lie inside a conditional (`process_spec`).
#[verifier::rlimit(80)]
fn process_lines(
    s: &Vec<char>,
    lines: &Vec<(usize, usize, bool)>,
    from: usize,
    to: usize,
    nested: bool,
    table: &mut MacroTable,
    headers: &Vec<(String, String)>,
    depth: usize,
    out: &mut Vec<char>,
) -> (r: Result<(), PreprocessError>)
    requires
        from <= to <= lines@.len(),
        forall|j: int| 0 <= j < lines@.len() ==> #[trigger] lines@[j].0 <= lines@[j].1 <= s@.len(),
        old(table).wf(),
    ensures
        final(table).wf(),
        final(out)@.len() >= old(out)@.len(),
        final(out)@.take(old(out)@.len() as int) == old(out)@,
        match r {
            Ok(_) => process_spec(
                old(table)@,
                s@,
                lines@,
                from as int,
                to as int,
                nested,
                headers_view(headers@),
                depth as nat,
            ) == Ok::<(Seq<char>, Map<Seq<char>, MacroSpec>), PreprocessError>(
                (final(out)@.skip(old(out)@.len() as int), final(table)@),
            ),
            Err(e) => process_spec(
                old(table)@,
                s@,
                lines@,
                from as int,
                to as int,
                nested,
                headers_view(headers@),
                depth as nat,
            ) == Err::<(Seq<char>, Map<Seq<char>, MacroSpec>), PreprocessError>(e),
        },
    decreases depth, 1nat, to - from,
{
    let ghost hv = headers_view(headers@);
    let ghost out0 = out@;
    let ghost whole = process_spec(table@, s@, lines@, from as int, to as int, nested, hv, depth as nat);
    let mut i = from;
    assert(out@.skip(out0.len() as int) =~= Seq::<char>::empty());
    assert(out@.take(out0.len() as int) =~= out0);
    assert(after(Seq::<char>::empty(), whole) == whole) by {
        if let Ok((o, t)) = whole {
            assert(Seq::<char>::empty() + o =~= o);
        }
    }
    while i < to
        invariant
            from <= i <= to <= lines@.len(),
            forall|j: int| 0 <= j < lines@.len() ==> #[trigger] lines@[j].0 <= lines@[j].1 <= s@.len(),
            table.wf(),
            out0 == old(out)@,
            hv == headers_view(headers@),
            whole == process_spec(old(table)@, s@, lines@, from as int, to as int, nested, hv, depth as nat),
            out@.len() >= out0.len(),
            out@.take(out0.len() as int) == out0,
            whole == after(
                out@.skip(out0.len() as int),
                process_spec(table@, s@, lines@, i as int, to as int, nested, hv, depth as nat),
            ),
        decreases to - i,
    {
        let (a, b, newline) = lines[i];
        let l = sub_chars(s, a, b);
        assert(l@ == line_at(s@, lines@, i as int));
        let ghost before = out@;
        let ghost here = process_spec(table@, s@, lines@, i as int, to as int, nested, hv, depth as nat);
        match directive_of(&l) {
            None => {
                let e = match expand_line(table, &l) {
                    Ok(e) => e,
                    Err(err) => {
                        return Err(err);
                    },
                };
                push_chars(out, &e);
                if newline {
                    out.push('\n');
                }
                proof {
                    let nl_text = if newline {
                        seq!['\n']
                    } else {
                        Seq::<char>::empty()
                    };
                    assert(out@ =~= before + (e@ + nl_text));
                    assert(out@.take(out0.len() as int) =~= before.take(out0.len() as int));
                    assert(out@.skip(out0.len() as int) =~= before.skip(out0.len() as int) + (e@ + nl_text));
                    lemma_after_after(
                        before.skip(out0.len() as int),
                        e@ + nl_text,
                        process_spec(table@, s@, lines@, i + 1, to as int, nested, hv, depth as nat),
                    );
                }
                i = i + 1;
            },
            Some((kind, k)) => {
                let ghost lead = if nested {
                    Seq::<char>::empty()
                } else {
                    l@.subrange(0, skip_hblanks(l@, 0))
                };
                if !nested {
                    let j = skip_hblanks_exec(&l, 0);
                    let lead_chars = sub_chars(&l, 0, j);
                    push_chars(out, &lead_chars);
                } else {
                    assert(out@ =~= before + lead);
                }
                proof {
                    assert(out@ =~= before + lead);
                    assert(out@.take(out0.len() as int) =~= before.take(out0.len() as int));
                    assert(out@.skip(out0.len() as int) =~= before.skip(out0.len() as int) + lead);
                }
                let ghost mid = out@;
                let ghost t_here = table@;
                match kind {
                    Directive::Define => {
                        match define_macro(&l, k, table, a) {
                            Ok(_) => {},
                            Err(e) => {
                                return Err(e);
                            },
                        }
                        proof {
                            lemma_after_after(
                                before.skip(out0.len() as int),
                                lead,
                                process_spec(table@, s@, lines@, i + 1, to as int, nested, hv, depth as nat),
                            );
                        }
                        i = i + 1;
                    },
                    Directive::Undef => {
                        match name_at(&l, k) {
                            Some((x, y)) => {
                                let name = sub_chars(&l, x, y);
                                table.remove(name.as_slice());
                            },
                            None => {
                                return Err(PreprocessError::InvalidDirective(a));
                            },
                        }
                        proof {
                            lemma_after_after(
                                before.skip(out0.len() as int),
                                lead,
                                process_spec(table@, s@, lines@, i + 1, to as int, nested, hv, depth as nat),
                            );
                        }
                        i = i + 1;
                    },
                    Directive::Include => {
                        let path = match include_path(&l, k) {
                            Some(p) => p,
                            None => {
                                return Err(PreprocessError::InvalidDirective(a));
                            },
                        };
                        let h = match find_header(headers, &path) {
                            Some(h) => h,
                            None => {
                                return Err(PreprocessError::MissingHeader(a));
                            },
                        };
                        if depth == 0 {
                            return Err(PreprocessError::IncludeTooDeep(a));
                        }
                        let text = match expand_header(headers[h].1.as_str(), headers, depth - 1) {
                            Ok(t) => t,
                            Err(e) => {
                                return Err(e);
                            },
                        };
                        assert(hv[h as int].1 == headers@[h as int].1@);
                        push_chars(out, &text);
                        proof {
                            assert(out@ =~= mid + text@);
                            assert(out@.take(out0.len() as int) =~= mid.take(out0.len() as int));
                            assert(out@.skip(out0.len() as int) =~= before.skip(out0.len() as int) + (lead
                                + text@));
                            lemma_after_after(
                                before.skip(out0.len() as int),
                                lead + text@,
                                process_spec(table@, s@, lines@, i + 1, to as int, nested, hv, depth as nat),
                            );
                        }
                        i = i + 1;
                    },
                    Directive::If | Directive::Ifdef | Directive::Ifndef => {
                        let (branches, end) = match conditional_branches(s, lines, i, to) {
                            Some(p) => p,
                            None => {
                                return Err(PreprocessError::UnbalancedConditional(a));
                            },
                        };
                        let chosen = match select_group_exec(s, lines, i, &l, kind, k, &branches, end, table) {
                            Ok(c) => c,
                            Err(e) => {
                                return Err(e);
                            },
                        };
                        match chosen {
                            Some((g0, g1)) => {
                                match process_lines(s, lines, g0, g1, true, table, headers, depth, out) {
                                    Ok(_) => {},
                                    Err(e) => {
                                        return Err(e);
                                    },
                                }
                                proof {
                                    let o = out@.skip(mid.len() as int);
                                    assert(out@ =~= mid + o) by {
                                        assert(out@.take(mid.len() as int) == mid);
                                    }
                                    assert(out@.take(out0.len() as int) =~= mid.take(out0.len() as int));
                                    assert(out@.skip(out0.len() as int) =~= before.skip(out0.len() as int) + (lead
                                        + o));
                                    lemma_after_after(
                                        before.skip(out0.len() as int),
                                        lead + o,
                                        process_spec(table@, s@, lines@, end + 1, to as int, nested, hv, depth as nat),
                                    );
                                }
                            },
                            None => {
                                proof {
                                    lemma_after_after(
                                        before.skip(out0.len() as int),
                                        lead,
                                        process_spec(table@, s@, lines@, end + 1, to as int, nested, hv, depth as nat),
                                    );
                                }
                            },
                        }
                        i = end + 1;
                    },
                    Directive::Elif | Directive::Else | Directive::Endif => {
                        return Err(PreprocessError::UnbalancedConditional(a));
                    },
                    Directive::Error => {
                        proof {
                            lemma_after_after(
                                before.skip(out0.len() as int),
                                lead,
                                process_spec(table@, s@, lines@, i + 1, to as int, nested, hv, depth as nat),
                            );
                        }
                        i = i + 1;
                    },
                    Directive::Pragma => {
                        return Err(PreprocessError::UnsupportedPragma(a));
                    },
                    Directive::Line => {
                        return Err(PreprocessError::UnsupportedLineDirective(a));
                    },
                    Directive::Unknown => {
                        return Err(PreprocessError::InvalidDirective(a));
                    },
                }
            },
        }
    }
    proof {
        assert(out@.skip(out0.len() as int) + Seq::<char>::empty() =~= out@.skip(out0.len() as int));
    }
    Ok(())
}

/// Lines none of which is a directive are processed by expanding each with
/// the macros in force, which stay as they are.
pub proof fn lemma_text_only_process(
    t: Map<Seq<char>, MacroSpec>,
    s: Seq<char>,
    lines: Seq<(usize, usize, bool)>,
    from: int,
    to: int,
    nested: bool,
    hs: Seq<(Seq<char>, Seq<char>)>,
    depth: nat,
)
    requires
        text_only(s, lines, from, to),
    ensures
        process_spec(t, s, lines, from, to, nested, hs, depth) == match expand_lines(t, s, lines, from, to) {
            Ok(o) => Ok::<(Seq<char>, Map<Seq<char>, MacroSpec>), PreprocessError>((o, t)),
            Err(e) => Err::<(Seq<char>, Map<Seq<char>, MacroSpec>), PreprocessError>(e),
        },
    decreases to - from,
{
    if 0 <= from < to && from < lines.len() {
        assert(!is_directive(s.subrange(lines[from].0 as int, lines[from].1 as int)));
        assert(text_only(s, lines, from + 1, to));
        lemma_text_only_process(t, s, lines, from + 1, to, nested, hs, depth);
        let l = line_at(s, lines, from);
        match expand_fix(t, l, RESCAN_LIMIT as nat) {
            Ok(x) => {
                let nl = if lines[from].2 {
                    seq!['\n']
                } else {
                    Seq::<char>::empty()
                };
                if let Ok(rest) = expand_lines(t, s, lines, from + 1, to) {
                    assert(x + nl + rest =~= (x + nl) + rest);
                }
            },
            Err(_) => {},
        }
    }
}

/// Phase 4 on `code`: directives carried out and macros expanded, with the
/// macros of `defined` in force and left bound in it at the end
/// (`process_spec` over the lines of `code`). `headers` holds the text of
/// each header that `#include` may name, by its path.
pub fn phase4(code: &str, defined: &mut MacroTable, headers: &Vec<(String, String)>) -> (r: Result<String, PreprocessError>)
    requires
        old(defined).wf(),
    ensures
        final(defined).wf(),
        match r {
            Ok(o) => process_spec(
                old(defined)@,
                code@,
                lines_of(code@),
                0,
                lines_of(code@).len() as int,
                false,
                headers_view(headers@),
                INCLUDE_DEPTH as nat,
            ) == Ok::<(Seq<char>, Map<Seq<char>, MacroSpec>), PreprocessError>((o@, final(defined)@)),
            Err(e) => process_spec(
                old(defined)@,
                code@,
                lines_of(code@),
                0,
                lines_of(code@).len() as int,
                false,
                headers_view(headers@),
                INCLUDE_DEPTH as nat,
            ) == Err::<(Seq<char>, Map<Seq<char>, MacroSpec>), PreprocessError>(e),
        },
        text_only(code@, lines_of(code@), 0, lines_of(code@).len() as int) ==> match r {
            Ok(o) => final(defined)@ == old(defined)@ && expand_lines(
                old(defined)@,
                code@,
                lines_of(code@),
                0,
                lines_of(code@).len() as int,
            ) == Ok::<Seq<char>, PreprocessError>(o@),
            Err(e) => expand_lines(old(defined)@, code@, lines_of(code@), 0, lines_of(code@).len() as int) == Err::<
                Seq<char>,
                PreprocessError,
            >(e),
        },
        old(defined)@ == Map::<Seq<char>, MacroSpec>::empty() && text_only(
            code@,
            lines_of(code@),
            0,
            lines_of(code@).len() as int,
        ) ==> (r matches Ok(o) && o@ == code@),
{
    let s = chars_of(code);
    proof {
        if old(defined)@ == Map::<Seq<char>, MacroSpec>::empty() {
            assert(s@.len() == s.len());
            law_plain_text_unchanged(old(defined)@, code@);
        }
        if text_only(code@, lines_of(code@), 0, lines_of(code@).len() as int) {
            lemma_text_only_process(
                old(defined)@,
                code@,
                lines_of(code@),
                0,
                lines_of(code@).len() as int,
                false,
                headers_view(headers@),
                INCLUDE_DEPTH as nat,
            );
        }
    }
    let lines = split_lines(&s);
    let mut out: Vec<char> = Vec::new();
    match process_lines(&s, &lines, 0, lines.len(), false, defined, headers, INCLUDE_DEPTH, &mut out) {
        Ok(_) => {},
        Err(e) => {
            return Err(e);
        },
    }
    assert(out@.skip(0) =~= out@);
    Ok(string_of(&out))
}

} // verus!
