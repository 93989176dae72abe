//! What phase 4 does with each line: the meaning of every directive, over
//! the macros in force as a map from names to macros.
use vstd::prelude::*;

use super::define::{build_body, lemma_paste_name, lemma_skip_hblanks, name_after, skip_hblanks, is_hblank};
use super::error::PreprocessError;
use super::expand::{lemma_pp_token_end, pp_token_end};
use super::expand_line::{expand_fix, RESCAN_LIMIT};
use super::macros::MacroSpec;
use super::phase2::phase2_spec;
use super::phase3::phase3_spec;
use super::phase4::{lines_of, Directive};
use crate::parse::lexer::{ident_end, is_ident_start};

verus! {

/// The directive a name after `#` spells.
pub open spec fn directive_word(w: Seq<char>) -> Directive {
    if w == "define"@ {
        Directive::Define
    } else if w == "undef"@ {
        Directive::Undef
    } else if w == "include"@ {
        Directive::Include
    } else if w == "if"@ {
        Directive::If
    } else if w == "ifdef"@ {
        Directive::Ifdef
    } else if w == "ifndef"@ {
        Directive::Ifndef
    } else if w == "elif"@ {
        Directive::Elif
    } else if w == "else"@ {
        Directive::Else
    } else if w == "endif"@ {
        Directive::Endif
    } else if w == "error"@ {
        Directive::Error
    } else if w == "pragma"@ {
        Directive::Pragma
    } else if w == "line"@ {
        Directive::Line
    } else {
        Directive::Unknown
    }
}

/// The directive line `l` holds, with the index just after its name, or
/// `None` when its first non-blank character is not `#`.
pub open spec fn directive_spec(l: Seq<char>) -> Option<(Directive, int)> {
    let j = skip_hblanks(l, 0);
    if !(0 <= j < l.len() && l[j] == '#') {
        None
    } else {
        let a = skip_hblanks(l, j + 1);
        let b = if a < l.len() {
            ident_end(l, a)
        } else {
            a
        };
        Some((directive_word(l.subrange(a, b)), b))
    }
}

/// The end of `l[a..b]` once the blanks at its end are dropped.
pub open spec fn trim_end(l: Seq<char>, a: int, b: int) -> int
    decreases b - a,
{
    if b > a && is_hblank(l[b - 1]) {
        trim_end(l, a, b - 1)
    } else {
        b
    }
}

/// `l[from..]` without the blanks at either end.
pub open spec fn trim_blanks(l: Seq<char>, from: int) -> Seq<char> {
    let a = skip_hblanks(l, from);
    l.subrange(a, trim_end(l, a, l.len() as int))
}

/// The parameters of a function-like macro read from `p` after `acc`: names
/// separated by commas, or `...` last, then `)`. The result holds the
/// parameters, whether the macro is variadic, and the index after `)`.
pub open spec fn params_from(l: Seq<char>, p: int, acc: Seq<Seq<char>>) -> Option<(Seq<Seq<char>>, bool, int)>
    decreases l.len() - p,
{
    if 0 <= p && p + 2 < l.len() && l[p] == '.' && l[p + 1] == '.' && l[p + 2] == '.' {
        let q = skip_hblanks(l, p + 3);
        if 0 <= q < l.len() && l[q] == ')' {
            Some((acc, true, q + 1))
        } else {
            None
        }
    } else if 0 <= p <= l.len() {
        match name_after(l, p) {
            None => None,
            Some((x, y)) => {
                proof {
                    lemma_paste_name(l, p);
                    lemma_skip_hblanks(l, y);
                }
                let q = skip_hblanks(l, y);
                if 0 <= q < l.len() && l[q] == ',' {
                    proof {
                        lemma_skip_hblanks(l, q + 1);
                    }
                    params_from(l, skip_hblanks(l, q + 1), acc.push(l.subrange(x, y)))
                } else if 0 <= q < l.len() && l[q] == ')' {
                    Some((acc.push(l.subrange(x, y)), false, q + 1))
                } else {
                    None
                }
            },
        }
    } else {
        None
    }
}

/// The name `#define` after its name at `k` binds, and the macro it binds
/// it to; `InvalidDirective(at)` when the line is malformed.
pub open spec fn define_spec(l: Seq<char>, k: int, at: usize) -> Result<(Seq<char>, MacroSpec), PreprocessError> {
    match name_after(l, k) {
        None => Err(PreprocessError::InvalidDirective(at)),
        Some((a, b)) => {
            let name = l.subrange(a, b);
            if 0 <= b < l.len() && l[b] == '(' {
                let p0 = skip_hblanks(l, b + 1);
                let read = if 0 <= p0 < l.len() && l[p0] == ')' {
                    Some((Seq::<Seq<char>>::empty(), false, p0 + 1))
                } else {
                    params_from(l, p0, Seq::empty())
                };
                match read {
                    None => Err(PreprocessError::InvalidDirective(at)),
                    Some((ps, v, p)) => {
                        let body = trim_blanks(l, p);
                        if body.len() == 0 {
                            Ok((name, MacroSpec::Function(ps, v, None)))
                        } else {
                            match build_body(ps, v, body, 0, Seq::empty(), Seq::empty()) {
                                Ok(r) => Ok((name, MacroSpec::Function(ps, v, Some(r)))),
                                Err(e) => Err(e),
                            }
                        }
                    },
                }
            } else {
                let body = trim_blanks(l, b);
                Ok(
                    (
                        name,
                        MacroSpec::Object(
                            if body.len() == 0 {
                                None
                            } else {
                                Some(body)
                            },
                        ),
                    ),
                )
            }
        },
    }
}

/// Whether a macro is bound to the first name from `i` on other than
/// `defined`; `InvalidDirective(at)` when there is none.
pub open spec fn first_name_defined(t: Map<Seq<char>, MacroSpec>, l: Seq<char>, i: int, at: usize) -> Result<
    bool,
    PreprocessError,
>
    decreases l.len() - i,
{
    if i < 0 || i >= l.len() {
        Err(PreprocessError::InvalidDirective(at))
    } else {
        let e = pp_token_end(l, i);
        proof {
            lemma_pp_token_end(l, i);
        }
        if is_ident_start(l[i]) && l.subrange(i, e) != "defined"@ {
            Ok(t.dom().contains(l.subrange(i, e)))
        } else {
            first_name_defined(t, l, e, at)
        }
    }
}

/// The truth of the condition of a conditional directive of kind `kind`
/// whose name ends at `k`: for `#ifdef` and `#ifndef` whether the name after
/// it is bound (negated for `#ifndef`); for `#if` and `#elif` whether the
/// first name in it other than `defined` is bound.
pub open spec fn condition_spec(t: Map<Seq<char>, MacroSpec>, l: Seq<char>, kind: Directive, k: int, at: usize) -> Result<
    bool,
    PreprocessError,
> {
    if kind == Directive::Ifdef || kind == Directive::Ifndef {
        match name_after(l, k) {
            None => Err(PreprocessError::InvalidDirective(at)),
            Some((a, b)) => {
                let found = t.dom().contains(l.subrange(a, b));
                Ok(
                    if kind == Directive::Ifndef {
                        !found
                    } else {
                        found
                    },
                )
            },
        }
    } else {
        first_name_defined(t, l, k, at)
    }
}

/// The first index from `b` on that holds `c`, or the length.
pub open spec fn find_close(l: Seq<char>, c: char, b: int) -> int
    decreases l.len() - b,
{
    if 0 <= b < l.len() && l[b] != c {
        find_close(l, c, b + 1)
    } else {
        b
    }
}

/// The header `#include` names after its name at `k`: the text between `"`
/// and `"` or between `<` and `>`.
pub open spec fn include_path_spec(l: Seq<char>, k: int) -> Option<Seq<char>> {
    let a = skip_hblanks(l, k);
    if a < 0 || a >= l.len() || (l[a] != '"' && l[a] != '<') {
        None
    } else {
        let b = find_close(
            l,
            if l[a] == '"' {
                '"'
            } else {
                '>'
            },
            a + 1,
        );
        if b >= l.len() {
            None
        } else {
            Some(l.subrange(a + 1, b))
        }
    }
}

/// The headers as paths and texts.
pub open spec fn headers_view(h: Seq<(String, String)>) -> Seq<(Seq<char>, Seq<char>)> {
    h.map_values(|p: (String, String)| (p.0@, p.1@))
}

/// The paths that the `#include` lines among the lines `from..` of `s`
/// name, in order.
pub open spec fn include_paths_from(s: Seq<char>, lines: Seq<(usize, usize, bool)>, from: int) -> Seq<Seq<char>>
    decreases lines.len() - from,
{
    if from < 0 || from >= lines.len() {
        Seq::empty()
    } else {
        let l = line_at(s, lines, from);
        let rest = include_paths_from(s, lines, from + 1);
        match directive_spec(l) {
            Some((Directive::Include, k)) => match include_path_spec(l, k) {
                Some(p) => seq![p] + rest,
                None => rest,
            },
            _ => rest,
        }
    }
}

/// The first header from `i` on whose path is `path`.
pub open spec fn find_header_spec(hs: Seq<(Seq<char>, Seq<char>)>, path: Seq<char>, i: int) -> Option<int>
    decreases hs.len() - i,
{
    if i < 0 || i >= hs.len() {
        None
    } else if hs[i].0 == path {
        Some(i)
    } else {
        find_header_spec(hs, path, i + 1)
    }
}

/// The line `k` of `s`.
pub open spec fn line_at(s: Seq<char>, lines: Seq<(usize, usize, bool)>, k: int) -> Seq<char> {
    s.subrange(lines[k].0 as int, lines[k].1 as int)
}

/// The rest of a conditional from line `k`, at nesting `depth` below it,
/// with the `#elif` and `#else` lines `br` of its own found so far: those
/// lines and the line of its `#endif`, or `None` when it has none before
/// line `to`.
pub open spec fn branches_spec(
    s: Seq<char>,
    lines: Seq<(usize, usize, bool)>,
    k: int,
    to: int,
    depth: nat,
    br: Seq<int>,
) -> Option<(Seq<int>, int)>
    decreases to - k,
{
    if k < 0 || k >= to || k >= lines.len() {
        None
    } else {
        match directive_spec(line_at(s, lines, k)) {
            Some((d, _)) => if d == Directive::If || d == Directive::Ifdef || d == Directive::Ifndef {
                branches_spec(s, lines, k + 1, to, depth + 1, br)
            } else if d == Directive::Endif {
                if depth == 0 {
                    Some((br, k))
                } else {
                    branches_spec(s, lines, k + 1, to, (depth - 1) as nat, br)
                }
            } else if d == Directive::Elif || d == Directive::Else {
                branches_spec(
                    s,
                    lines,
                    k + 1,
                    to,
                    depth,
                    if depth == 0 {
                        br.push(k)
                    } else {
                        br
                    },
                )
            } else {
                branches_spec(s, lines, k + 1, to, depth, br)
            },
            None => branches_spec(s, lines, k + 1, to, depth, br),
        }
    }
}

/// The group chosen among the `#elif` and `#else` lines `br` from the `q`-th
/// on (the last group ends at line `end`): the lines of the first whose
/// condition holds (an `#else` always does), or `None`.
pub open spec fn select_from(
    t: Map<Seq<char>, MacroSpec>,
    s: Seq<char>,
    lines: Seq<(usize, usize, bool)>,
    br: Seq<int>,
    end: int,
    q: int,
) -> Result<Option<(int, int)>, PreprocessError>
    decreases br.len() - q,
{
    if q < 0 || q >= br.len() {
        Ok(None)
    } else {
        let at = br[q];
        let bl = line_at(s, lines, at);
        let group_end = if q + 1 < br.len() {
            br[q + 1]
        } else {
            end
        };
        let holds = match directive_spec(bl) {
            Some((Directive::Elif, bk)) => condition_spec(t, bl, Directive::Elif, bk, lines[at].0),
            _ => Ok(true),
        };
        match holds {
            Err(e) => Err(e),
            Ok(true) => Ok(Some((at + 1, group_end))),
            Ok(false) => select_from(t, s, lines, br, end, q + 1),
        }
    }
}

/// The group a conditional that starts at line `i` (the directive `l` of
/// kind `kind`, its name ending at `k`, at offset `at`) takes: its first
/// group when its condition holds, else the first `#elif` or `#else` group
/// chosen.
pub open spec fn select_group(
    t: Map<Seq<char>, MacroSpec>,
    s: Seq<char>,
    lines: Seq<(usize, usize, bool)>,
    i: int,
    kind: Directive,
    k: int,
    br: Seq<int>,
    end: int,
) -> Result<Option<(int, int)>, PreprocessError> {
    match condition_spec(t, line_at(s, lines, i), kind, k, lines[i].0) {
        Err(e) => Err(e),
        Ok(true) => Ok(
            Some(
                (
                    i + 1,
                    if br.len() > 0 {
                        br[0]
                    } else {
                        end
                    },
                ),
            ),
        ),
        Ok(false) => select_from(t, s, lines, br, end, 0),
    }
}

/// The numbers of `v` as integers.
pub open spec fn as_ints(v: Seq<usize>) -> Seq<int> {
    v.map_values(|x: usize| x as int)
}

/// `r` with `p` in front of its text.
pub open spec fn after(p: Seq<char>, r: Result<(Seq<char>, Map<Seq<char>, MacroSpec>), PreprocessError>) -> Result<
    (Seq<char>, Map<Seq<char>, MacroSpec>),
    PreprocessError,
> {
    match r {
        Ok((o, t)) => Ok((p + o, t)),
        Err(e) => Err(e),
    }
}

/// Phase 4 on the lines `from..to` of `s` with the macros `t` in force
/// (`nested` tells whether they lie inside a conditional, `hs` holds the
/// headers by path, and `depth` is how deeply headers may still include):
/// the text written and the macros in force after them.
///
/// A text line is written with its macros expanded, followed by its
/// newline. At the outermost level a directive writes the blanks before its
/// `#`. `#define` and `#undef` bind and unbind a name; `#include` writes the
/// header, preprocessed with macros of its own; a conditional writes the
/// group it takes; `#error` is passed over. A stray `#elif`, `#else` or
/// `#endif`, `#pragma`, `#line` and any other directive are refused.
pub open spec fn process_spec(
    t: Map<Seq<char>, MacroSpec>,
    s: Seq<char>,
    lines: Seq<(usize, usize, bool)>,
    from: int,
    to: int,
    nested: bool,
    hs: Seq<(Seq<char>, Seq<char>)>,
    depth: nat,
) -> Result<(Seq<char>, Map<Seq<char>, MacroSpec>), PreprocessError>
    decreases depth, 1nat, to - from,
{
    if from < 0 || from >= to || from >= lines.len() {
        Ok((Seq::empty(), t))
    } else {
        let a = lines[from].0;
        let l = line_at(s, lines, from);
        match directive_spec(l) {
            None => match expand_fix(t, l, RESCAN_LIMIT as nat) {
                Err(e) => Err(e),
                Ok(x) => after(
                    x + if lines[from].2 {
                        seq!['\n']
                    } else {
                        Seq::empty()
                    },
                    process_spec(t, s, lines, from + 1, to, nested, hs, depth),
                ),
            },
            Some((kind, k)) => {
                let lead = if nested {
                    Seq::empty()
                } else {
                    l.subrange(0, skip_hblanks(l, 0))
                };
                if kind == Directive::Define {
                    match define_spec(l, k, a) {
                        Err(e) => Err(e),
                        Ok((n, m)) => after(lead, process_spec(t.insert(n, m), s, lines, from + 1, to, nested, hs, depth)),
                    }
                } else if kind == Directive::Undef {
                    match name_after(l, k) {
                        None => Err(PreprocessError::InvalidDirective(a)),
                        Some((x, y)) => after(
                            lead,
                            process_spec(t.remove(l.subrange(x, y)), s, lines, from + 1, to, nested, hs, depth),
                        ),
                    }
                } else if kind == Directive::Include {
                    match include_path_spec(l, k) {
                        None => Err(PreprocessError::InvalidDirective(a)),
                        Some(p) => match find_header_spec(hs, p, 0) {
                            None => Err(PreprocessError::MissingHeader(a)),
                            Some(h) => if depth == 0 {
                                Err(PreprocessError::IncludeTooDeep(a))
                            } else {
                                match header_spec(hs[h].1, hs, (depth - 1) as nat) {
                                    Err(e) => Err(e),
                                    Ok(text) => after(
                                        lead + text,
                                        process_spec(t, s, lines, from + 1, to, nested, hs, depth),
                                    ),
                                }
                            },
                        },
                    }
                } else if kind == Directive::If || kind == Directive::Ifdef || kind == Directive::Ifndef {
                    match branches_spec(s, lines, from + 1, to, 0, Seq::<int>::empty()) {
                        None => Err(PreprocessError::UnbalancedConditional(a)),
                        Some((br, end)) => {
                            proof {
                                lemma_branches_bounds(s, lines, from + 1, to, 0, Seq::<int>::empty());
                            }
                            match select_group(t, s, lines, from, kind, k, br, end) {
                                Err(e) => Err(e),
                                Ok(None) => after(lead, process_spec(t, s, lines, end + 1, to, nested, hs, depth)),
                                Ok(Some((g0, g1))) => {
                                    proof {
                                        lemma_select_bounds(t, s, lines, from, kind, k, br, end);
                                    }
                                    match process_spec(t, s, lines, g0, g1, true, hs, depth) {
                                        Err(e) => Err(e),
                                        Ok((o, t1)) => after(
                                            lead + o,
                                            process_spec(t1, s, lines, end + 1, to, nested, hs, depth),
                                        ),
                                    }
                                },
                            }
                        },
                    }
                } else if kind == Directive::Elif || kind == Directive::Else || kind == Directive::Endif {
                    Err(PreprocessError::UnbalancedConditional(a))
                } else if kind == Directive::Error {
                    after(lead, process_spec(t, s, lines, from + 1, to, nested, hs, depth))
                } else if kind == Directive::Pragma {
                    Err(PreprocessError::UnsupportedPragma(a))
                } else if kind == Directive::Line {
                    Err(PreprocessError::UnsupportedLineDirective(a))
                } else {
                    Err(PreprocessError::InvalidDirective(a))
                }
            },
        }
    }
}

/// Putting `p` and then `q` in front is putting `p + q` in front.
pub proof fn lemma_after_after(
    p: Seq<char>,
    q: Seq<char>,
    r: Result<(Seq<char>, Map<Seq<char>, MacroSpec>), PreprocessError>,
)
    ensures
        after(p, after(q, r)) == after(p + q, r),
{
    if let Ok((o, t)) = r {
        assert(p + (q + o) =~= (p + q) + o);
    }
}

/// A header's text preprocessed through phases 2 to 4 with no macro in
/// force.
pub open spec fn header_spec(text: Seq<char>, hs: Seq<(Seq<char>, Seq<char>)>, depth: nat) -> Result<
    Seq<char>,
    PreprocessError,
>
    decreases depth, 2nat, 0int,
{
    match phase3_spec(phase2_spec(text)) {
        Err(e) => Err(e),
        Ok(c) => match process_spec(Map::empty(), c, lines_of(c), 0, lines_of(c).len() as int, false, hs, depth) {
            Err(e) => Err(e),
            Ok((o, _)) => Ok(o),
        },
    }
}

/// The lines a conditional's scan reports lie after where it starts, in
/// order, before its end, which lies before `to`.
pub proof fn lemma_branches_bounds(
    s: Seq<char>,
    lines: Seq<(usize, usize, bool)>,
    k: int,
    to: int,
    depth: nat,
    br: Seq<int>,
)
    ensures
        branches_spec(s, lines, k, to, depth, br) matches Some((bs, e)) ==> {
            &&& k <= e < to
            &&& e < lines.len()
            &&& bs.len() >= br.len()
            &&& bs.take(br.len() as int) == br
            &&& forall|j: int| br.len() <= j < bs.len() ==> k <= #[trigger] bs[j] < e
            &&& forall|j: int, m: int| br.len() <= j < m < bs.len() ==> bs[j] < bs[m]
        },
    decreases to - k,
{
    if 0 <= k < to && k < lines.len() {
        let l = line_at(s, lines, k);
        match directive_spec(l) {
            Some((d, _)) => {
                if d == Directive::If || d == Directive::Ifdef || d == Directive::Ifndef {
                    lemma_branches_bounds(s, lines, k + 1, to, depth + 1, br);
                } else if d == Directive::Endif {
                    if depth == 0 {
                        assert(br.take(br.len() as int) =~= br);
                    } else {
                        lemma_branches_bounds(s, lines, k + 1, to, (depth - 1) as nat, br);
                    }
                } else if d == Directive::Elif || d == Directive::Else {
                    if depth == 0 {
                        let br2 = br.push(k);
                        lemma_branches_bounds(s, lines, k + 1, to, depth, br2);
                        match branches_spec(s, lines, k + 1, to, depth, br2) {
                            Some((bs, e)) => {
                                assert(bs.take(br.len() as int) =~= bs.take(br2.len() as int).take(br.len() as int));
                                assert(br2.take(br.len() as int) =~= br);
                                assert(bs[br.len() as int] == bs.take(br2.len() as int)[br.len() as int]);
                                assert(bs[br.len() as int] == k);
                            },
                            None => {},
                        }
                    } else {
                        lemma_branches_bounds(s, lines, k + 1, to, depth, br);
                    }
                } else {
                    lemma_branches_bounds(s, lines, k + 1, to, depth, br);
                }
            },
            None => {
                lemma_branches_bounds(s, lines, k + 1, to, depth, br);
            },
        }
    }
}

/// The group a conditional takes lies strictly inside it.
pub proof fn lemma_select_bounds(
    t: Map<Seq<char>, MacroSpec>,
    s: Seq<char>,
    lines: Seq<(usize, usize, bool)>,
    i: int,
    kind: Directive,
    k: int,
    br: Seq<int>,
    end: int,
)
    requires
        forall|j: int| 0 <= j < br.len() ==> i < #[trigger] br[j] < end,
        forall|j: int, m: int| 0 <= j < m < br.len() ==> br[j] < br[m],
        i < end,
    ensures
        select_group(t, s, lines, i, kind, k, br, end) matches Ok(Some((g0, g1))) ==> i < g0 <= g1 <= end,
{
    lemma_select_from_bounds(t, s, lines, i, br, end, 0);
    if br.len() > 0 {
        assert(i < br[0]);
    }
}

proof fn lemma_select_from_bounds(
    t: Map<Seq<char>, MacroSpec>,
    s: Seq<char>,
    lines: Seq<(usize, usize, bool)>,
    i: int,
    br: Seq<int>,
    end: int,
    q: int,
)
    requires
        forall|j: int| 0 <= j < br.len() ==> i < #[trigger] br[j] < end,
        forall|j: int, m: int| 0 <= j < m < br.len() ==> br[j] < br[m],
    ensures
        select_from(t, s, lines, br, end, q) matches Ok(Some((g0, g1))) ==> i < g0 <= g1 <= end,
    decreases br.len() - q,
{
    if 0 <= q < br.len() {
        lemma_select_from_bounds(t, s, lines, i, br, end, q + 1);
        if q + 1 < br.len() {
            assert(br[q] < br[q + 1]);
        }
    }
}

} // verus!
