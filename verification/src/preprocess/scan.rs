//! Scanning comments and literals in a sequence of characters.
use vstd::prelude::*;

verus! {

/// The index of the first newline at or after `i`, or the length of `s`.
pub open spec fn line_end(s: Seq<char>, i: int) -> int
    decreases s.len() - i,
{
    if i >= s.len() {
        s.len() as int
    } else if s[i] == '\n' {
        i
    } else {
        line_end(s, i + 1)
    }
}

/// The index just past the first `*/` at or after `i`, if there is one.
pub open spec fn block_comment_end(s: Seq<char>, i: int) -> Option<int>
    decreases s.len() - i,
{
    if i + 1 >= s.len() {
        None
    } else if s[i] == '*' && s[i + 1] == '/' {
        Some(i + 2)
    } else {
        block_comment_end(s, i + 1)
    }
}

/// The index just past the quote `q` that closes a literal whose body starts
/// at `i`; a backslash escapes the character after it, and a newline or the
/// end of the text before the closing quote leaves the literal unterminated.
pub open spec fn quote_end(s: Seq<char>, i: int, q: char) -> Option<int>
    decreases s.len() - i,
{
    if i >= s.len() || s[i] == '\n' {
        None
    } else if s[i] == q {
        Some(i + 1)
    } else if s[i] == '\\' {
        if i + 1 < s.len() && s[i + 1] != '\n' {
            quote_end(s, i + 2, q)
        } else {
            None
        }
    } else {
        quote_end(s, i + 1, q)
    }
}

pub proof fn lemma_line_end(s: Seq<char>, i: int)
    requires
        0 <= i,
    ensures
        i <= line_end(s, i) || i > s.len(),
        line_end(s, i) <= s.len(),
        line_end(s, i) < s.len() ==> s[line_end(s, i)] == '\n',
    decreases s.len() - i,
{
    if i < s.len() && s[i] != '\n' {
        lemma_line_end(s, i + 1);
    }
}

pub proof fn lemma_block_comment_end(s: Seq<char>, i: int)
    requires
        0 <= i,
    ensures
        block_comment_end(s, i) matches Some(e) ==> i + 2 <= e <= s.len(),
    decreases s.len() - i,
{
    if i + 1 < s.len() && !(s[i] == '*' && s[i + 1] == '/') {
        lemma_block_comment_end(s, i + 1);
    }
}

pub proof fn lemma_quote_end(s: Seq<char>, i: int, q: char)
    requires
        0 <= i,
    ensures
        quote_end(s, i, q) matches Some(e) ==> i + 1 <= e <= s.len(),
    decreases s.len() - i,
{
    if i < s.len() && s[i] != '\n' && s[i] != q {
        if s[i] == '\\' {
            if i + 1 < s.len() && s[i + 1] != '\n' {
                lemma_quote_end(s, i + 2, q);
            }
        } else {
            lemma_quote_end(s, i + 1, q);
        }
    }
}

/// Finds `line_end(chars, i)`.
pub fn find_line_end(chars: &Vec<char>, i: usize) -> (e: usize)
    requires
        i <= chars@.len(),
    ensures
        e == line_end(chars@, i as int),
{
    let mut k = i;
    while k < chars.len() && chars[k] != '\n'
        invariant
            i <= k <= chars@.len(),
            line_end(chars@, k as int) == line_end(chars@, i as int),
        decreases chars@.len() - k,
    {
        k = k + 1;
    }
    k
}

/// Finds `block_comment_end(chars, i)`.
pub fn find_block_comment_end(chars: &Vec<char>, i: usize) -> (e: Option<usize>)
    requires
        i <= chars@.len(),
    ensures
        match e {
            Some(k) => block_comment_end(chars@, i as int) == Some(k as int),
            None => block_comment_end(chars@, i as int) is None,
        },
{
    let mut k = i;
    while k < chars.len() && k + 1 < chars.len()
        invariant
            i <= k <= chars@.len(),
            block_comment_end(chars@, k as int) == block_comment_end(chars@, i as int),
        decreases chars@.len() - k,
    {
        if chars[k] == '*' && chars[k + 1] == '/' {
            return Some(k + 2);
        }
        k = k + 1;
    }
    None
}

/// Finds `quote_end(chars, i, q)`.
pub fn find_quote_end(chars: &Vec<char>, i: usize, q: char) -> (e: Option<usize>)
    requires
        i <= chars@.len(),
    ensures
        match e {
            Some(k) => quote_end(chars@, i as int, q) == Some(k as int),
            None => quote_end(chars@, i as int, q) is None,
        },
{
    let mut k = i;
    while k < chars.len()
        invariant
            i <= k <= chars@.len() + 1,
            quote_end(chars@, k as int, q) == quote_end(chars@, i as int, q),
        decreases chars@.len() + 1 - k,
    {
        let c = chars[k];
        if c == '\n' {
            return None;
        }
        if c == q {
            return Some(k + 1);
        }
        if c == '\\' {
            if k + 1 < chars.len() && chars[k + 1] != '\n' {
                k = k + 2;
            } else {
                return None;
            }
        } else {
            k = k + 1;
        }
    }
    None
}

} // verus!
