//! Translation phase 3: each comment is replaced — a `//` comment together
//! with the newline that ends it by one newline, a `/* */` comment by one
//! space. String and character literals are copied unchanged, so comment
//! markers inside them are not comments.
use vstd::prelude::*;

use super::error::PreprocessError;
use super::scan::{
    block_comment_end, find_block_comment_end, find_line_end, find_quote_end, lemma_block_comment_end,
    lemma_line_end, lemma_quote_end, line_end, quote_end,
};
use crate::text::{chars_of, string_of};

verus! {

/// `r` with `p` in front of its text, errors passed through.
pub open spec fn prepend(p: Seq<char>, r: Result<Seq<char>, PreprocessError>) -> Result<Seq<char>, PreprocessError> {
    match r {
        Ok(x) => Ok(p + x),
        Err(e) => Err(e),
    }
}

/// The result of phase 3 on the part of `s` from index `i` on.
pub open spec fn phase3_from(s: Seq<char>, i: int) -> Result<Seq<char>, PreprocessError>
    decreases s.len() - i,
{
    if i < 0 || i >= s.len() {
        Ok(Seq::empty())
    } else if s[i] == '/' && i + 1 < s.len() && s[i + 1] == '/' {
        let e = line_end(s, i + 2);
        proof {
            lemma_line_end(s, i + 2);
        }
        if e < s.len() {
            prepend(seq!['\n'], phase3_from(s, e + 1))
        } else {
            Ok(seq!['\n'])
        }
    } else if s[i] == '/' && i + 1 < s.len() && s[i + 1] == '*' {
        match block_comment_end(s, i + 2) {
            None => Err(PreprocessError::UnterminatedComment(i as usize)),
            Some(e) => {
                proof {
                    lemma_block_comment_end(s, i + 2);
                }
                prepend(seq![' '], phase3_from(s, e))
            },
        }
    } else if s[i] == '"' || s[i] == '\'' {
        match quote_end(s, i + 1, s[i]) {
            None => Err(PreprocessError::UnterminatedLiteral(i as usize)),
            Some(e) => {
                proof {
                    lemma_quote_end(s, i + 1, s[i]);
                }
                prepend(s.subrange(i, e), phase3_from(s, e))
            },
        }
    } else {
        prepend(seq![s[i]], phase3_from(s, i + 1))
    }
}

/// The result of phase 3 on `s`.
pub open spec fn phase3_spec(s: Seq<char>) -> Result<Seq<char>, PreprocessError> {
    phase3_from(s, 0)
}

/// From index `i` on, no comment opens outside the literals of `s`, and
/// every string or character literal is closed on its line.
pub open spec fn no_comment_from(s: Seq<char>, i: int) -> bool
    decreases s.len() - i,
{
    if i < 0 || i >= s.len() {
        true
    } else if s[i] == '/' && i + 1 < s.len() && (s[i + 1] == '/' || s[i + 1] == '*') {
        false
    } else if s[i] == '"' || s[i] == '\'' {
        match quote_end(s, i + 1, s[i]) {
            None => false,
            Some(e) => {
                proof {
                    lemma_quote_end(s, i + 1, s[i]);
                }
                no_comment_from(s, e)
            },
        }
    } else {
        no_comment_from(s, i + 1)
    }
}

proof fn lemma_phase3_plain_from(s: Seq<char>, i: int)
    requires
        0 <= i <= s.len(),
        no_comment_from(s, i),
    ensures
        phase3_from(s, i) == Ok::<Seq<char>, PreprocessError>(s.subrange(i, s.len() as int)),
    decreases s.len() - i,
{
    if i < s.len() {
        if s[i] == '"' || s[i] == '\'' {
            let e = quote_end(s, i + 1, s[i])->0;
            lemma_quote_end(s, i + 1, s[i]);
            lemma_phase3_plain_from(s, e);
            assert(s.subrange(i, e) + s.subrange(e, s.len() as int) =~= s.subrange(i, s.len() as int));
        } else {
            lemma_phase3_plain_from(s, i + 1);
            assert(seq![s[i]] + s.subrange(i + 1, s.len() as int) =~= s.subrange(i, s.len() as int));
        }
    } else {
        assert(s.subrange(i, s.len() as int) =~= Seq::<char>::empty());
    }
}

/// A text in which no comment opens (outside its literals, which are all
/// closed) is left as it is by phase 3.
pub proof fn law_phase3_keeps_plain_text(s: Seq<char>)
    requires
        no_comment_from(s, 0),
    ensures
        phase3_spec(s) == Ok::<Seq<char>, PreprocessError>(s),
{
    lemma_phase3_plain_from(s, 0);
    assert(s.subrange(0, s.len() as int) =~= s);
}

proof fn lemma_prepend_assoc(a: Seq<char>, b: Seq<char>, r: Result<Seq<char>, PreprocessError>)
    ensures
        prepend(a, prepend(b, r)) == prepend(a + b, r),
{
    if let Ok(x) = r {
        assert(a + (b + x) =~= (a + b) + x);
    }
}

/// Replaces comments; fails on a comment or literal that is not closed.
pub fn phase3(code: &str) -> (r: Result<String, PreprocessError>)
    ensures
        match r {
            Ok(o) => phase3_spec(code@) == Ok::<Seq<char>, PreprocessError>(o@),
            Err(e) => phase3_spec(code@) == Err::<Seq<char>, PreprocessError>(e),
        },
{
    let chars = chars_of(code);
    let ghost s = chars@;
    let mut out: Vec<char> = Vec::new();
    let mut i: usize = 0;
    while i < chars.len()
        invariant
            i <= chars@.len(),
            s == chars@,
            s == code@,
            phase3_spec(s) == prepend(out@, phase3_from(s, i as int)),
        decreases chars@.len() - i,
    {
        let ghost before = out@;
        if chars[i] == '/' && i + 1 < chars.len() && chars[i + 1] == '/' {
            let e = find_line_end(&chars, i + 2);
            proof {
                lemma_line_end(s, i + 2);
            }
            out.push('\n');
            if e < chars.len() {
                proof {
                    lemma_prepend_assoc(before, seq!['\n'], phase3_from(s, e + 1));
                    assert(before + seq!['\n'] =~= out@);
                }
                i = e + 1;
            } else {
                proof {
                    assert(before + seq!['\n'] =~= out@);
                    assert(phase3_from(s, e as int) == Ok::<Seq<char>, PreprocessError>(Seq::empty()));
                    assert(out@ + Seq::<char>::empty() =~= out@);
                }
                i = e;
            }
        } else if chars[i] == '/' && i + 1 < chars.len() && chars[i + 1] == '*' {
            match find_block_comment_end(&chars, i + 2) {
                None => {
                    return Err(PreprocessError::UnterminatedComment(i));
                },
                Some(e) => {
                    proof {
                        lemma_block_comment_end(s, i + 2);
                        lemma_prepend_assoc(before, seq![' '], phase3_from(s, e as int));
                    }
                    out.push(' ');
                    assert(before + seq![' '] =~= out@);
                    i = e;
                },
            }
        } else if chars[i] == '"' || chars[i] == '\'' {
            match find_quote_end(&chars, i + 1, chars[i]) {
                None => {
                    return Err(PreprocessError::UnterminatedLiteral(i));
                },
                Some(e) => {
                    proof {
                        lemma_quote_end(s, i + 1, s[i as int]);
                        lemma_prepend_assoc(before, s.subrange(i as int, e as int), phase3_from(s, e as int));
                    }
                    let mut k = i;
                    while k < e
                        invariant
                            i <= k <= e <= chars@.len(),
                            s == chars@,
                            out@ == before + s.subrange(i as int, k as int),
                        decreases e - k,
                    {
                        out.push(chars[k]);
                        k = k + 1;
                        assert(out@ =~= before + s.subrange(i as int, k as int));
                    }
                    i = e;
                },
            }
        } else {
            proof {
                lemma_prepend_assoc(before, seq![s[i as int]], phase3_from(s, i + 1));
            }
            out.push(chars[i]);
            assert(before + seq![s[i as int]] =~= out@);
            i = i + 1;
        }
    }
    assert(out@ + Seq::<char>::empty() =~= out@);
    Ok(string_of(&out))
}

} // verus!
