//! Translation phase 6: adjacent string literals, separated only by blanks,
//! are joined into one literal. Character literals are copied unchanged.
use vstd::prelude::*;

use super::error::PreprocessError;
use super::phase3::prepend;
use super::scan::{find_quote_end, lemma_quote_end, quote_end};
use crate::text::{chars_of, string_of};

verus! {

pub open spec fn is_blank(c: char) -> bool {
    c == ' ' || c == '\t' || c == '\n' || c == '\r'
}

/// The index of the first non-blank character at or after `i`, or the length of `s`.
pub open spec fn skip_blanks(s: Seq<char>, i: int) -> int
    decreases s.len() - i,
{
    if i >= s.len() || !is_blank(s[i]) {
        i
    } else {
        skip_blanks(s, i + 1)
    }
}

pub proof fn lemma_skip_blanks(s: Seq<char>, i: int)
    ensures
        i <= skip_blanks(s, i),
        i <= s.len() ==> skip_blanks(s, i) <= s.len(),
    decreases s.len() - i,
{
    if i < s.len() && is_blank(s[i]) {
        lemma_skip_blanks(s, i + 1);
    }
}

/// `r` with `p` in front of the joined contents, errors passed through.
pub open spec fn prepend_run(p: Seq<char>, r: Result<(int, Seq<char>), PreprocessError>) -> Result<(int, Seq<char>), PreprocessError> {
    match r {
        Ok((end, c)) => Ok((end, p + c)),
        Err(e) => Err(e),
    }
}

/// For the string literal that opens at `i`, the index just past the last of
/// the literals that follow it separated only by blanks, and the bodies of
/// all of them (without their quotes) joined in order.
pub open spec fn literal_run(s: Seq<char>, i: int) -> Result<(int, Seq<char>), PreprocessError>
    decreases s.len() - i,
{
    if i < 0 || i >= s.len() {
        Err(PreprocessError::UnterminatedLiteral(i as usize))
    } else {
        match quote_end(s, i + 1, '"') {
            None => Err(PreprocessError::UnterminatedLiteral(i as usize)),
            Some(e) => {
                proof {
                    lemma_quote_end(s, i + 1, '"');
                    lemma_skip_blanks(s, e);
                }
                let body = s.subrange(i + 1, e - 1);
                let j = skip_blanks(s, e);
                if j < s.len() && s[j] == '"' {
                    prepend_run(body, literal_run(s, j))
                } else {
                    Ok((e, body))
                }
            },
        }
    }
}

pub proof fn lemma_literal_run(s: Seq<char>, i: int)
    ensures
        literal_run(s, i) matches Ok((end, _)) ==> i < end <= s.len(),
    decreases s.len() - i,
{
    if 0 <= i < s.len() {
        lemma_quote_end(s, i + 1, '"');
        if let Some(e) = quote_end(s, i + 1, '"') {
            lemma_skip_blanks(s, e);
            let j = skip_blanks(s, e);
            if j < s.len() && s[j] == '"' {
                lemma_literal_run(s, j);
            }
        }
    }
}

/// The result of phase 6 on the part of `s` from index `i` on.
pub open spec fn phase6_from(s: Seq<char>, i: int) -> Result<Seq<char>, PreprocessError>
    decreases s.len() - i,
{
    if i < 0 || i >= s.len() {
        Ok(Seq::empty())
    } else if s[i] == '"' {
        match literal_run(s, i) {
            Err(e) => Err(e),
            Ok((end, c)) => {
                proof {
                    lemma_literal_run(s, i);
                }
                prepend(seq!['"'] + c + seq!['"'], phase6_from(s, end))
            },
        }
    } else if s[i] == '\'' {
        match quote_end(s, i + 1, '\'') {
            None => Err(PreprocessError::UnterminatedLiteral(i as usize)),
            Some(e) => {
                proof {
                    lemma_quote_end(s, i + 1, '\'');
                }
                prepend(s.subrange(i, e), phase6_from(s, e))
            },
        }
    } else {
        prepend(seq![s[i]], phase6_from(s, i + 1))
    }
}

/// The result of phase 6 on `s`.
pub open spec fn phase6_spec(s: Seq<char>) -> Result<Seq<char>, PreprocessError> {
    phase6_from(s, 0)
}

proof fn lemma_phase6_plain_from(s: Seq<char>, i: int)
    requires
        0 <= i <= s.len(),
        forall|k: int| 0 <= k < s.len() ==> #[trigger] s[k] != '"' && s[k] != '\'',
    ensures
        phase6_from(s, i) == Ok::<Seq<char>, PreprocessError>(s.subrange(i, s.len() as int)),
    decreases s.len() - i,
{
    if i < s.len() {
        lemma_phase6_plain_from(s, i + 1);
        assert(seq![s[i]] + s.subrange(i + 1, s.len() as int) =~= s.subrange(i, s.len() as int));
    } else {
        assert(s.subrange(i, s.len() as int) =~= Seq::<char>::empty());
    }
}

/// A text with no literal has nothing to join: phase 6 leaves it as it is.
pub proof fn law_phase6_keeps_plain_text(s: Seq<char>)
    requires
        forall|k: int| 0 <= k < s.len() ==> #[trigger] s[k] != '"' && s[k] != '\'',
    ensures
        phase6_spec(s) == Ok::<Seq<char>, PreprocessError>(s),
{
    lemma_phase6_plain_from(s, 0);
    assert(s.subrange(0, s.len() as int) =~= s);
}

proof fn lemma_quote_end_plain(s: Seq<char>, i: int, e: int)
    requires
        0 <= i <= e < s.len(),
        s[e] == '"',
        forall|k: int| i <= k < e ==> #[trigger] s[k] != '"' && s[k] != '\\' && s[k] != '\n',
    ensures
        quote_end(s, i, '"') == Some(e + 1),
    decreases e - i,
{
    if i < e {
        lemma_quote_end_plain(s, i + 1, e);
    }
}

proof fn lemma_skip_blanks_to(s: Seq<char>, i: int, e: int)
    requires
        0 <= i <= e < s.len(),
        !is_blank(s[e]),
        forall|k: int| i <= k < e ==> is_blank(#[trigger] s[k]),
    ensures
        skip_blanks(s, i) == e,
    decreases e - i,
{
    if i < e {
        lemma_skip_blanks_to(s, i + 1, e);
    }
}

/// Two string literals separated only by blanks become one literal holding
/// both bodies.
pub proof fn law_phase6_joins_two_literals(a: Seq<char>, b: Seq<char>, gap: Seq<char>)
    requires
        forall|k: int| 0 <= k < a.len() ==> #[trigger] a[k] != '"' && a[k] != '\\' && a[k] != '\n',
        forall|k: int| 0 <= k < b.len() ==> #[trigger] b[k] != '"' && b[k] != '\\' && b[k] != '\n',
        forall|k: int| 0 <= k < gap.len() ==> is_blank(#[trigger] gap[k]),
    ensures
        phase6_spec(seq!['"'] + a + seq!['"'] + gap + seq!['"'] + b + seq!['"']) == Ok::<
            Seq<char>,
            PreprocessError,
        >(seq!['"'] + (a + b) + seq!['"']),
{
    let s = seq!['"'] + a + seq!['"'] + gap + seq!['"'] + b + seq!['"'];
    let la = a.len() as int;
    let lg = gap.len() as int;
    let lb = b.len() as int;
    let p = la + 2 + lg;
    let n = p + 2 + lb;
    assert(s.len() == n);
    assert(s[0] == '"' && s[la + 1] == '"' && s[p] == '"' && s[n - 1] == '"');
    assert forall|k: int| 1 <= k < la + 1 implies #[trigger] s[k] != '"' && s[k] != '\\' && s[k] != '\n' by {
        assert(s[k] == a[k - 1]);
    }
    assert forall|k: int| la + 2 <= k < p implies is_blank(#[trigger] s[k]) by {
        assert(s[k] == gap[k - la - 2]);
    }
    assert forall|k: int| p + 1 <= k < n - 1 implies #[trigger] s[k] != '"' && s[k] != '\\' && s[k] != '\n' by {
        assert(s[k] == b[k - p - 1]);
    }
    lemma_quote_end_plain(s, 1, la + 1);
    lemma_skip_blanks_to(s, la + 2, p);
    lemma_quote_end_plain(s, p + 1, n - 1);
    assert(s.subrange(1, la + 1) =~= a);
    assert(s.subrange(p + 1, n - 1) =~= b);
    assert(skip_blanks(s, n) == n);
    assert(literal_run(s, p) == Ok::<(int, Seq<char>), PreprocessError>((n, b)));
    assert(literal_run(s, 0) == Ok::<(int, Seq<char>), PreprocessError>((n, a + b)));
    assert(phase6_from(s, n) == Ok::<Seq<char>, PreprocessError>(Seq::empty()));
    assert(seq!['"'] + (a + b) + seq!['"'] + Seq::<char>::empty() =~= seq!['"'] + (a + b) + seq!['"']);
}

proof fn lemma_prepend_assoc(a: Seq<char>, b: Seq<char>, r: Result<Seq<char>, PreprocessError>)
    ensures
        prepend(a, prepend(b, r)) == prepend(a + b, r),
{
    if let Ok(x) = r {
        assert(a + (b + x) =~= (a + b) + x);
    }
}

proof fn lemma_prepend_run_assoc(a: Seq<char>, b: Seq<char>, r: Result<(int, Seq<char>), PreprocessError>)
    ensures
        prepend_run(a, prepend_run(b, r)) == prepend_run(a + b, r),
{
    if let Ok((end, x)) = r {
        assert(a + (b + x) =~= (a + b) + x);
    }
}

/// The characters of `t` from `m` on are those of `o`, one for one.
proof fn lemma_tail(t: Seq<char>, m: int, o: Seq<char>)
    requires
        0 <= m <= t.len(),
        t.subrange(m, t.len() as int) == o,
    ensures
        t.len() == m + o.len(),
        forall|x: int| 0 <= x < o.len() ==> t[m + x] == #[trigger] o[x],
{
    assert forall|x: int| 0 <= x < o.len() implies t[m + x] == #[trigger] o[x] by {
        assert(t.subrange(m, t.len() as int)[x] == t[m + x]);
    }
}

/// Scanning a quoted literal goes through the characters that a scan of
/// another text went through, wherever they stand: it lands just past them.
proof fn lemma_quote_end_through(s: Seq<char>, j: int, q: char, e: int, t: Seq<char>, m: int)
    requires
        0 <= j,
        q != '\\',
        quote_end(s, j, q) == Some(e),
        0 <= m,
        m + (e - 1 - j) <= t.len(),
        t.subrange(m, m + (e - 1 - j)) == s.subrange(j, e - 1),
    ensures
        j < e <= s.len(),
        s[e - 1] == q,
        quote_end(t, m, q) == quote_end(t, m + (e - 1 - j), q),
    decreases s.len() - j,
{
    lemma_quote_end(s, j, q);
    if s[j] == q {
    } else if s[j] == '\\' {
        lemma_quote_end(s, j + 2, q);
        assert(t[m] == t.subrange(m, m + (e - 1 - j))[0]);
        assert(t[m + 1] == t.subrange(m, m + (e - 1 - j))[1]);
        assert(t.subrange(m + 2, m + (e - 1 - j)) =~= t.subrange(m, m + (e - 1 - j)).subrange(2, e - 1 - j));
        assert(s.subrange(j + 2, e - 1) =~= s.subrange(j, e - 1).subrange(2, e - 1 - j));
        lemma_quote_end_through(s, j + 2, q, e, t, m + 2);
    } else {
        lemma_quote_end(s, j + 1, q);
        assert(t[m] == t.subrange(m, m + (e - 1 - j))[0]);
        assert(t.subrange(m + 1, m + (e - 1 - j)) =~= t.subrange(m, m + (e - 1 - j)).subrange(1, e - 1 - j));
        assert(s.subrange(j + 1, e - 1) =~= s.subrange(j, e - 1).subrange(1, e - 1 - j));
        lemma_quote_end_through(s, j + 1, q, e, t, m + 1);
    }
}

/// The joined bodies of a run of literals, put between quotes, scan as one
/// literal; and no further literal follows the run.
proof fn lemma_literal_run_scan(s: Seq<char>, i: int, end: int, c: Seq<char>, t: Seq<char>, m: int)
    requires
        literal_run(s, i) == Ok::<(int, Seq<char>), PreprocessError>((end, c)),
        0 <= m,
        m + c.len() < t.len(),
        t.subrange(m, m + c.len()) == c,
        t[m + c.len()] == '"',
    ensures
        quote_end(t, m, '"') == Some(m + c.len() + 1),
        skip_blanks(s, end) >= s.len() || s[skip_blanks(s, end)] != '"',
    decreases s.len() - i,
{
    let e = quote_end(s, i + 1, '"')->0;
    lemma_quote_end(s, i + 1, '"');
    lemma_skip_blanks(s, e);
    let body = s.subrange(i + 1, e - 1);
    let j = skip_blanks(s, e);
    if j < s.len() && s[j] == '"' {
        let (end2, c2) = literal_run(s, j)->Ok_0;
        assert(c == body + c2);
        assert(t.subrange(m, m + body.len()) =~= c.subrange(0, body.len() as int));
        assert(c.subrange(0, body.len() as int) =~= body);
        lemma_quote_end_through(s, i + 1, '"', e, t, m);
        assert(t.subrange(m + body.len(), m + body.len() + c2.len()) =~= c.subrange(body.len() as int, c.len() as int));
        assert(c.subrange(body.len() as int, c.len() as int) =~= c2);
        lemma_literal_run_scan(s, j, end2, c2, t, m + body.len());
    } else {
        lemma_quote_end_through(s, i + 1, '"', e, t, m);
        assert(quote_end(t, m + c.len(), '"') == Some(m + c.len() + 1));
    }
}

/// Blanks are copied as they are: where no literal follows the blanks at
/// `k`, none follows the blanks at the start of what phase 6 makes of them.
proof fn lemma_no_literal_after(s: Seq<char>, k: int, o: Seq<char>, t: Seq<char>, p: int)
    requires
        0 <= k,
        phase6_from(s, k) == Ok::<Seq<char>, PreprocessError>(o),
        skip_blanks(s, k) >= s.len() || s[skip_blanks(s, k)] != '"',
        0 <= p <= t.len(),
        t.subrange(p, t.len() as int) == o,
    ensures
        skip_blanks(t, p) >= t.len() || t[skip_blanks(t, p)] != '"',
    decreases s.len() - k,
{
    lemma_tail(t, p, o);
    if k >= s.len() {
        assert(o.len() == 0);
    } else if s[k] == '\'' {
        let e = quote_end(s, k + 1, '\'')->0;
        lemma_quote_end(s, k + 1, '\'');
        let o2 = phase6_from(s, e)->Ok_0;
        assert(o == s.subrange(k, e) + o2);
        assert(o[0] == s.subrange(k, e)[0]);
        assert(t[p + 0] == o[0]);
        assert(skip_blanks(t, p) == p);
    } else if s[k] == '"' {
    } else {
        let o2 = phase6_from(s, k + 1)->Ok_0;
        assert(o == seq![s[k]] + o2);
        assert(t[p + 0] == o[0]);
        if is_blank(s[k]) {
            assert(t.subrange(p + 1, t.len() as int) =~= o2) by {
                assert forall|x: int| 0 <= x < o2.len() implies #[trigger] t.subrange(p + 1, t.len() as int)[x] == o2[x] by {
                    assert(t[p + (1 + x)] == o[1 + x]);
                }
            }
            assert(skip_blanks(s, k) == skip_blanks(s, k + 1));
            assert(skip_blanks(t, p) == skip_blanks(t, p + 1));
            lemma_no_literal_after(s, k + 1, o2, t, p + 1);
        } else {
            assert(skip_blanks(s, k) == k);
            assert(skip_blanks(t, p) == p);
        }
    }
}

/// What phase 6 makes of the text from `i` on is its own result: run again
/// over it, wherever it stands, phase 6 gives it back unchanged.
proof fn lemma_phase6_stable(s: Seq<char>, i: int, o: Seq<char>, t: Seq<char>, m: int)
    requires
        0 <= i,
        phase6_from(s, i) == Ok::<Seq<char>, PreprocessError>(o),
        0 <= m <= t.len(),
        t.subrange(m, t.len() as int) == o,
    ensures
        phase6_from(t, m) == Ok::<Seq<char>, PreprocessError>(o),
    decreases s.len() - i,
{
    lemma_tail(t, m, o);
    if i >= s.len() {
        assert(o.len() == 0);
    } else if s[i] == '"' {
        let (end, c) = literal_run(s, i)->Ok_0;
        lemma_literal_run(s, i);
        let o2 = phase6_from(s, end)->Ok_0;
        assert(o == seq!['"'] + c + seq!['"'] + o2);
        let m2 = m + c.len() + 2;
        assert(t[m] == o[0]);
        assert(t.subrange(m + 1, m + 1 + c.len()) =~= c) by {
            assert forall|x: int| 0 <= x < c.len() implies t.subrange(m + 1, m + 1 + c.len())[x] == c[x] by {
                assert(t[m + (1 + x)] == o[1 + x]);
            }
        }
        assert(t[m + (1 + c.len())] == o[(1 + c.len()) as int]);
        lemma_literal_run_scan(s, i, end, c, t, m + 1);
        assert(t.subrange(m2, t.len() as int) =~= o2) by {
            assert forall|x: int| 0 <= x < o2.len() implies t.subrange(m2, t.len() as int)[x] == o2[x] by {
                assert(t[m + (c.len() + 2 + x)] == o[c.len() + 2 + x]);
            }
        }
        lemma_no_literal_after(s, end, o2, t, m2);
        assert(t.subrange(m + 1, m2 - 1) =~= c);
        assert(literal_run(t, m) == Ok::<(int, Seq<char>), PreprocessError>((m2, c)));
        lemma_phase6_stable(s, end, o2, t, m2);
    } else if s[i] == '\'' {
        let e = quote_end(s, i + 1, '\'')->0;
        lemma_quote_end(s, i + 1, '\'');
        let o2 = phase6_from(s, e)->Ok_0;
        let d = e - i;
        assert(o == s.subrange(i, e) + o2);
        assert(t.subrange(m, m + d) =~= s.subrange(i, e)) by {
            assert forall|x: int| 0 <= x < d implies t.subrange(m, m + d)[x] == s.subrange(i, e)[x] by {
                assert(t[m + x] == o[x]);
            }
        }
        assert(o[0] == s.subrange(i, e)[0]);
        assert(t[m + 0] == o[0]);
        assert(t.subrange(m + 1, m + d - 1) =~= s.subrange(i + 1, e - 1)) by {
            assert forall|x: int| 0 <= x < d - 2 implies #[trigger] t.subrange(m + 1, m + d - 1)[x] == s.subrange(i + 1, e - 1)[x] by {
                assert(t[m + (1 + x)] == o[1 + x]);
            }
        }
        lemma_quote_end_through(s, i + 1, '\'', e, t, m + 1);
        assert(t[m + (d - 1)] == o[d - 1]);
        assert(quote_end(t, m + d - 1, '\'') == Some(m + d));
        assert(t.subrange(m + d, t.len() as int) =~= o2) by {
            assert forall|x: int| 0 <= x < o2.len() implies t.subrange(m + d, t.len() as int)[x] == o2[x] by {
                assert(t[m + (d + x)] == o[d + x]);
            }
        }
        lemma_phase6_stable(s, e, o2, t, m + d);
    } else {
        let o2 = phase6_from(s, i + 1)->Ok_0;
        assert(o == seq![s[i]] + o2);
        assert(t[m] == o[0]);
        assert(t.subrange(m + 1, t.len() as int) =~= o2) by {
            assert forall|x: int| 0 <= x < o2.len() implies t.subrange(m + 1, t.len() as int)[x] == o2[x] by {
                assert(t[m + (1 + x)] == o[1 + x]);
            }
        }
        lemma_phase6_stable(s, i + 1, o2, t, m + 1);
    }
}

/// Phase 6 is idempotent: once adjacent literals are joined, a second pass
/// over the result changes nothing.
pub proof fn law_phase6_idempotent(s: Seq<char>)
    requires
        phase6_spec(s) is Ok,
    ensures
        phase6_spec(phase6_spec(s)->Ok_0) == phase6_spec(s),
{
    let o = phase6_spec(s)->Ok_0;
    assert(o.subrange(0, o.len() as int) =~= o);
    lemma_phase6_stable(s, 0, o, o, 0);
}

fn find_literal_run(chars: &Vec<char>, i: usize) -> (r: Result<(usize, Vec<char>), PreprocessError>)
    requires
        i < chars@.len(),
        chars@[i as int] == '"',
    ensures
        match r {
            Ok((end, c)) => literal_run(chars@, i as int) == Ok::<(int, Seq<char>), PreprocessError>(
                (end as int, c@),
            ),
            Err(e) => literal_run(chars@, i as int) == Err::<(int, Seq<char>), PreprocessError>(e),
        },
{
    let ghost s = chars@;
    let mut content: Vec<char> = Vec::new();
    let mut cur = i;
    assert(prepend_run(content@, literal_run(s, cur as int)) == literal_run(s, cur as int)) by {
        if let Ok((end, x)) = literal_run(s, cur as int) {
            assert(content@ + x =~= x);
        }
    }
    loop
        invariant
            cur < chars.len(),
            s == chars@,
            literal_run(s, i as int) == prepend_run(content@, literal_run(s, cur as int)),
        decreases chars@.len() - cur,
    {
        match find_quote_end(chars, cur + 1, '"') {
            None => {
                return Err(PreprocessError::UnterminatedLiteral(cur));
            },
            Some(e) => {
                proof {
                    lemma_quote_end(s, cur + 1, '"');
                    lemma_skip_blanks(s, e as int);
                }
                let ghost before = content@;
                let mut k = cur + 1;
                while k < e - 1
                    invariant
                        cur + 1 <= k <= e - 1,
                        e <= chars@.len(),
                        s == chars@,
                        content@ == before + s.subrange(cur + 1, k as int),
                    decreases e - 1 - k,
                {
                    content.push(chars[k]);
                    k = k + 1;
                    assert(content@ =~= before + s.subrange(cur + 1, k as int));
                }
                let mut j = e;
                while j < chars.len() && (chars[j] == ' ' || chars[j] == '\t' || chars[j] == '\n' || chars[j] == '\r')
                    invariant
                        e <= j <= chars@.len(),
                        s == chars@,
                        skip_blanks(s, j as int) == skip_blanks(s, e as int),
                    decreases chars@.len() - j,
                {
                    j = j + 1;
                }
                proof {
                    lemma_prepend_run_assoc(before, s.subrange(cur + 1, e - 1), literal_run(s, j as int));
                }
                if j < chars.len() && chars[j] == '"' {
                    cur = j;
                } else {
                    return Ok((e, content));
                }
            },
        }
    }
}

/// Joins adjacent string literals; fails on a literal that is not closed.
pub fn phase6(code: &str) -> (r: Result<String, PreprocessError>)
    ensures
        match r {
            Ok(o) => phase6_spec(code@) == Ok::<Seq<char>, PreprocessError>(o@),
            Err(e) => phase6_spec(code@) == Err::<Seq<char>, PreprocessError>(e),
        },
{
    let chars = chars_of(code);
    let ghost s = chars@;
    let mut out: Vec<char> = Vec::new();
    let mut i: usize = 0;
    while i < chars.len()
        invariant
            i <= chars@.len(),
            s == chars@,
            s == code@,
            phase6_spec(s) == prepend(out@, phase6_from(s, i as int)),
        decreases chars@.len() - i,
    {
        let ghost before = out@;
        if chars[i] == '"' {
            match find_literal_run(&chars, i) {
                Err(e) => {
                    return Err(e);
                },
                Ok((end, content)) => {
                    proof {
                        lemma_literal_run(s, i as int);
                        lemma_prepend_assoc(before, seq!['"'] + content@ + seq!['"'], phase6_from(s, end as int));
                    }
                    out.push('"');
                    let mut k: usize = 0;
                    while k < content.len()
                        invariant
                            k <= content@.len(),
                            out@ == before + seq!['"'] + content@.take(k as int),
                        decreases content@.len() - k,
                    {
                        out.push(content[k]);
                        k = k + 1;
                        assert(out@ =~= before + seq!['"'] + content@.take(k as int));
                    }
                    out.push('"');
                    assert(out@ =~= before + (seq!['"'] + content@ + seq!['"']));
                    i = end;
                },
            }
        } else if chars[i] == '\'' {
            match find_quote_end(&chars, i + 1, '\'') {
                None => {
                    return Err(PreprocessError::UnterminatedLiteral(i));
                },
                Some(e) => {
                    proof {
                        lemma_quote_end(s, i + 1, '\'');
                        lemma_prepend_assoc(before, s.subrange(i as int, e as int), phase6_from(s, e as int));
                    }
                    let mut k = i;
                    while k < e
                        invariant
                            i <= k <= e <= chars@.len(),
                            s == chars@,
                            out@ == before + s.subrange(i as int, k as int),
                        decreases e - k,
                    {
                        out.push(chars[k]);
                        k = k + 1;
                        assert(out@ =~= before + s.subrange(i as int, k as int));
                    }
                    i = e;
                },
            }
        } else {
            proof {
                lemma_prepend_assoc(before, seq![s[i as int]], phase6_from(s, i + 1));
            }
            out.push(chars[i]);
            assert(before + seq![s[i as int]] =~= out@);
            i = i + 1;
        }
    }
    assert(out@ + Seq::<char>::empty() =~= out@);
    Ok(string_of(&out))
}

} // verus!
