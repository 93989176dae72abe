//! The values of constants and string literals.
use vstd::prelude::*;

use super::error::ParseError;
use crate::ast::ExpressionEnum;
use crate::preprocess::expand::{escape_char, escape_spec};
use crate::text::{append_range, push_char};

verus! {

/// The character an escape sequence `\c` stands for, for the escapes that are
/// supported: `\'`, `\"`, `\?`, `\\`, `\a`, `\b`, `\f`, `\n`, `\r`, `\t`,
/// `\v` and `\0`.
pub open spec fn escape_value(c: char) -> Option<char> {
    if c == '\'' {
        Some('\'')
    } else if c == '"' {
        Some('"')
    } else if c == '?' {
        Some('?')
    } else if c == '\\' {
        Some('\\')
    } else if c == 'a' {
        Some('\x07')
    } else if c == 'b' {
        Some('\x08')
    } else if c == 'f' {
        Some('\x0c')
    } else if c == 'n' {
        Some('\n')
    } else if c == 'r' {
        Some('\r')
    } else if c == 't' {
        Some('\t')
    } else if c == 'v' {
        Some('\x0b')
    } else if c == '0' {
        Some('\0')
    } else {
        None
    }
}

pub fn build_escape_sequence(c: char) -> (r: Option<char>)
    ensures
        r == escape_value(c),
{
    if c == '\'' {
        Some('\'')
    } else if c == '"' {
        Some('"')
    } else if c == '?' {
        Some('?')
    } else if c == '\\' {
        Some('\\')
    } else if c == 'a' {
        Some('\x07')
    } else if c == 'b' {
        Some('\x08')
    } else if c == 'f' {
        Some('\x0c')
    } else if c == 'n' {
        Some('\n')
    } else if c == 'r' {
        Some('\r')
    } else if c == 't' {
        Some('\t')
    } else if c == 'v' {
        Some('\x0b')
    } else if c == '0' {
        Some('\0')
    } else {
        None
    }
}

/// The characters a literal body stands for once its escapes are replaced,
/// or `None` when it holds an unsupported escape.
pub open spec fn unescape(b: Seq<char>) -> Option<Seq<char>>
    decreases b.len(),
{
    if b.len() == 0 {
        Some(Seq::empty())
    } else if b[0] == '\\' {
        if b.len() >= 2 && escape_value(b[1]) is Some {
            match unescape(b.skip(2)) {
                Some(r) => Some(seq![escape_value(b[1]).unwrap()] + r),
                None => None,
            }
        } else {
            None
        }
    } else {
        match unescape(b.skip(1)) {
            Some(r) => Some(seq![b[0]] + r),
            None => None,
        }
    }
}

proof fn lemma_escape_spec_front(s: Seq<char>)
    requires
        s.len() > 0,
    ensures
        escape_spec(s) == escape_char(s[0]) + escape_spec(s.skip(1)),
    decreases s.len(),
{
    if s.len() == 1 {
        assert(s.drop_last() =~= Seq::<char>::empty());
        assert(s.skip(1) =~= Seq::<char>::empty());
        assert(escape_spec(s.drop_last()) == Seq::<char>::empty());
        assert(escape_spec(s.skip(1)) == Seq::<char>::empty());
        assert(s.last() == s[0]);
        assert(escape_spec(s) == escape_spec(s.drop_last()) + escape_char(s.last()));
        assert(escape_spec(s) =~= escape_char(s[0]) + escape_spec(s.skip(1)));
    } else {
        let d = s.drop_last();
        lemma_escape_spec_front(d);
        assert(d.skip(1) =~= s.skip(1).drop_last());
        assert(s.skip(1).last() == s.last());
        assert(d[0] == s[0]);
        assert(escape_spec(s.skip(1)) == escape_spec(s.skip(1).drop_last()) + escape_char(s.skip(1).last()));
        assert(escape_spec(s) =~= escape_char(s[0]) + escape_spec(s.skip(1)));
    }
}

proof fn lemma_unescape_escaped_char(c: char, rest: Seq<char>)
    requires
        c != ' ',
    ensures
        unescape(escape_char(c) + rest) == (match unescape(rest) {
            Some(r) => Some(seq![c] + r),
            None => None::<Seq<char>>,
        }),
{
    let b = escape_char(c) + rest;
    if escape_char(c).len() == 2 {
        assert(b.skip(2) =~= rest);
    } else {
        assert(b.skip(1) =~= rest);
    }
}

/// Escaping a text the way `escape_string::escape` does and reading the
/// result back as the body of a C literal gives the text again: each of
/// BEL, BS, tab, newline, VT, FF, CR and backslash, written as a backslash
/// and its letter (`\a \b \t \n \v \f \r \\`), stands for that character, so
/// `\n` is the newline U+000A. (A space, which that escape writes as a
/// backslash and a space, has no C escape.)
pub proof fn law_escapes_read_back(s: Seq<char>)
    requires
        forall|i: int| 0 <= i < s.len() ==> #[trigger] s[i] != ' ',
    ensures
        unescape(escape_spec(s)) == Some(s),
    decreases s.len(),
{
    if s.len() == 0 {
        assert(escape_spec(s) =~= Seq::<char>::empty());
    } else {
        lemma_escape_spec_front(s);
        let t = s.skip(1);
        assert forall|i: int| 0 <= i < t.len() implies #[trigger] t[i] != ' ' by {
            assert(t[i] == s[i + 1]);
        }
        law_escapes_read_back(t);
        lemma_unescape_escaped_char(s[0], escape_spec(t));
        assert(seq![s[0]] + t =~= s);
    }
}

/// What the escapes denote: a backslash before a quote, a double quote, a
/// question mark or a backslash stands for that character itself, and every
/// other escape for a control character (code below 32); the octal escape
/// `\0` stands for the character of code 0; and no two escapes stand for the
/// same character.
pub proof fn law_escape_meanings(c: char, d: char)
    ensures
        (c == '\'' || c == '"' || c == '?' || c == '\\') ==> escape_value(c) == Some(c),
        escape_value(c) matches Some(v) ==> (v == c || (v as u32) < 0x20),
        ('0' <= c <= '7') ==> (escape_value(c) matches Some(v) ==> v as u32 == (c as u32) - ('0' as u32)),
        escape_value(c) matches Some(v) ==> (escape_value(d) matches Some(w) ==> (v == w ==> c == d)),
{
}

/// The text of `chars[start..end]` with its escapes replaced.
pub fn unescape_exec(chars: &Vec<char>, start: usize, end: usize) -> (r: Option<String>)
    requires
        start <= end <= chars@.len(),
    ensures
        match r {
            Some(s) => unescape(chars@.subrange(start as int, end as int)) == Some(s@),
            None => unescape(chars@.subrange(start as int, end as int)) is None,
        },
{
    let ghost b = chars@.subrange(start as int, end as int);
    let mut out = String::new();
    let mut k = start;
    assert(b.skip(0) =~= b);
    while k < end
        invariant
            start <= k <= end <= chars@.len(),
            b == chars@.subrange(start as int, end as int),
            unescape(b) == (match unescape(b.skip(k - start)) {
                Some(r) => Some(out@ + r),
                None => None,
            }),
        decreases end - k,
    {
        let ghost rest = b.skip(k - start);
        let ghost before = out@;
        if chars[k] == '\\' {
            if k + 1 < end {
                match build_escape_sequence(chars[k + 1]) {
                    Some(v) => {
                        assert(rest.skip(2) =~= b.skip(k + 2 - start));
                        push_char(&mut out, v);
                        k = k + 2;
                        proof {
                            if let Some(r) = unescape(b.skip(k - start)) {
                                assert(before + (seq![v] + r) =~= out@ + r);
                            }
                        }
                    },
                    None => {
                        return None;
                    },
                }
            } else {
                return None;
            }
        } else {
            assert(rest.skip(1) =~= b.skip(k + 1 - start));
            push_char(&mut out, chars[k]);
            k = k + 1;
            proof {
                if let Some(r) = unescape(b.skip(k - start)) {
                    assert(before + (seq![chars@[k - 1]] + r) =~= out@ + r);
                }
            }
        }
    }
    assert(b.skip(end - start) =~= Seq::<char>::empty());
    assert(out@ + Seq::<char>::empty() =~= out@);
    Some(out)
}

/// The value of a string literal token `chars[start..end]` (quotes included).
pub fn build_string_literal(chars: &Vec<char>, start: usize, end: usize) -> (r: Result<ExpressionEnum, ParseError>)
    requires
        start + 2 <= end <= chars@.len(),
    ensures
        match r {
            Ok(e) => e matches ExpressionEnum::StringLiteral(s) && unescape(
                chars@.subrange(start + 1, end - 1),
            ) == Some(s@),
            Err(e) => e == ParseError::UnsupportedEscape(start) && unescape(
                chars@.subrange(start + 1, end - 1),
            ) is None,
        },
{
    match unescape_exec(chars, start + 1, end - 1) {
        Some(s) => Ok(ExpressionEnum::StringLiteral(s)),
        None => Err(ParseError::UnsupportedEscape(start)),
    }
}

/// The value of a character constant token `chars[start..end]` (quotes
/// included): one character, or one supported escape sequence.
pub fn build_character_constant(chars: &Vec<char>, start: usize, end: usize) -> (r: Result<ExpressionEnum, ParseError>)
    requires
        start + 2 <= end <= chars@.len(),
    ensures
        match r {
            Ok(e) => e matches ExpressionEnum::CharacterConstant(c) && unescape(
                chars@.subrange(start + 1, end - 1),
            ) == Some(seq![c]),
            Err(e) => !(unescape(chars@.subrange(start + 1, end - 1)) matches Some(v) && v.len() == 1)
                && !(e is Lex),
        },
{
    match unescape_exec(chars, start + 1, end - 1) {
        Some(s) => {
            let v = crate::text::chars_of(s.as_str());
            if v.len() == 1 {
                assert(v@ =~= seq![v@[0]]);
                Ok(ExpressionEnum::CharacterConstant(v[0]))
            } else {
                Err(ParseError::InvalidConstant(start))
            }
        },
        None => Err(ParseError::UnsupportedEscape(start)),
    }
}

/// The suffix of an integer constant.
#[derive(Debug, Clone, Copy, PartialEq, Eq, Structural)]
pub enum IntegerSuffix {
    NoSuffix,
    U,
    L,
    UL,
    LL,
    ULL,
}

/// The value of the digits `d` in base `b`, most significant first.
pub open spec fn digits_value(d: Seq<nat>, b: nat) -> nat
    decreases d.len(),
{
    if d.len() == 0 {
        0
    } else {
        digits_value(d.drop_last(), b) * b + d.last()
    }
}

/// The value of digit character `c` in base `b`, if it is one.
pub open spec fn digit_in(c: char, b: nat) -> Option<nat> {
    let v: int = if '0' <= c <= '9' {
        c as int - '0' as int
    } else if 'a' <= c <= 'f' {
        c as int - 'a' as int + 10
    } else if 'A' <= c <= 'F' {
        c as int - 'A' as int + 10
    } else {
        16
    };
    if 0 <= v < b {
        Some(v as nat)
    } else {
        None
    }
}

/// The constant a value of an integer constant denotes, chosen by its suffix
/// and base as C does: the first type of the list that can hold the value,
/// unsigned types being tried only for octal, hexadecimal and binary
/// constants (and for `u` suffixes).
pub open spec fn integer_constant_of(v: nat, suffix: IntegerSuffix, decimal: bool) -> Option<ExpressionEnum> {
    match suffix {
        IntegerSuffix::ULL => if v <= u64::MAX {
            Some(ExpressionEnum::UnsignedLongLongConstant(v as u64))
        } else {
            None
        },
        IntegerSuffix::LL => if v <= i64::MAX {
            Some(ExpressionEnum::LongLongConstant(v as i64))
        } else if !decimal && v <= u64::MAX {
            Some(ExpressionEnum::UnsignedLongLongConstant(v as u64))
        } else {
            None
        },
        IntegerSuffix::UL => if v <= u64::MAX {
            Some(ExpressionEnum::UnsignedLongConstant(v as u64))
        } else {
            None
        },
        IntegerSuffix::L => if v <= i64::MAX {
            Some(ExpressionEnum::LongConstant(v as i64))
        } else if !decimal && v <= u64::MAX {
            Some(ExpressionEnum::UnsignedLongConstant(v as u64))
        } else {
            None
        },
        IntegerSuffix::U => if v <= u32::MAX {
            Some(ExpressionEnum::UnsignedIntegerConstant(v as u32))
        } else if v <= u64::MAX {
            Some(ExpressionEnum::UnsignedLongConstant(v as u64))
        } else {
            None
        },
        IntegerSuffix::NoSuffix => if v <= i32::MAX {
            Some(ExpressionEnum::IntegerConstant(v as i32))
        } else if !decimal && v <= u32::MAX {
            Some(ExpressionEnum::UnsignedIntegerConstant(v as u32))
        } else if v <= i64::MAX {
            Some(ExpressionEnum::LongConstant(v as i64))
        } else if !decimal && v <= u64::MAX {
            Some(ExpressionEnum::UnsignedLongLongConstant(v as u64))
        } else {
            None
        },
    }
}

fn digit_in_exec(c: char, b: u32) -> (r: Option<u32>)
    requires
        2 <= b <= 16,
    ensures
        match r {
            Some(v) => digit_in(c, b as nat) == Some(v as nat),
            None => digit_in(c, b as nat) is None,
        },
{
    let v: u32 = if '0' <= c && c <= '9' {
        (c as u32) - ('0' as u32)
    } else if 'a' <= c && c <= 'f' {
        (c as u32) - ('a' as u32) + 10
    } else if 'A' <= c && c <= 'F' {
        (c as u32) - ('A' as u32) + 10
    } else {
        16
    };
    if v < b {
        Some(v)
    } else {
        None
    }
}

/// How many of the characters of `w` satisfy `u` (`u` or `U`) or, when
/// `!u`, are `l` or `L`.
pub open spec fn count_letter(w: Seq<char>, u: bool) -> nat
    decreases w.len(),
{
    if w.len() == 0 {
        0
    } else {
        count_letter(w.drop_last(), u) + if (u && (w.last() == 'u' || w.last() == 'U')) || (!u && (w.last()
            == 'l' || w.last() == 'L')) {
            1nat
        } else {
            0nat
        }
    }
}

/// Whether `w` holds `ll` or `LL`.
pub open spec fn has_double_l(w: Seq<char>) -> bool {
    exists|j: int| 0 <= j && j + 1 < w.len() && ((#[trigger] w[j] == 'l' && w[j + 1] == 'l') || (w[j] == 'L' && w[j + 1] == 'L'))
}

/// The integer suffix `w` spells: letters `u` and `l` in either case, at most
/// one `u` and at most two `l`, two `l` written together in the same case.
pub open spec fn suffix_spec(w: Seq<char>) -> Option<IntegerSuffix> {
    let us = count_letter(w, true);
    let ls = count_letter(w, false);
    if w.len() == 0 {
        Some(IntegerSuffix::NoSuffix)
    } else if us + ls != w.len() || us > 1 || ls > 2 {
        None
    } else if ls == 2 {
        if !has_double_l(w) {
            None
        } else if us == 1 {
            Some(IntegerSuffix::ULL)
        } else {
            Some(IntegerSuffix::LL)
        }
    } else if ls == 1 {
        if us == 1 {
            Some(IntegerSuffix::UL)
        } else {
            Some(IntegerSuffix::L)
        }
    } else {
        Some(IntegerSuffix::U)
    }
}

/// The suffix spelled by `chars[start..end]`.
pub fn suffix_of(chars: &Vec<char>, start: usize, end: usize) -> (r: Option<IntegerSuffix>)
    requires
        start <= end <= chars@.len(),
    ensures
        r == suffix_spec(chars@.subrange(start as int, end as int)),
{
    let ghost w = chars@.subrange(start as int, end as int);
    let n = end - start;
    if n == 0 {
        return Some(IntegerSuffix::NoSuffix);
    }
    let mut us: usize = 0;
    let mut ls: usize = 0;
    let mut k = start;
    while k < end
        invariant
            start <= k <= end <= chars@.len(),
            w == chars@.subrange(start as int, end as int),
            us == count_letter(w.take(k - start), true),
            ls == count_letter(w.take(k - start), false),
            us + ls == k - start,
        decreases end - k,
    {
        let c = chars[k];
        proof {
            assert(w.take(k - start + 1).drop_last() =~= w.take(k - start));
            assert(w.take(k - start + 1).last() == c);
        }
        if c == 'u' || c == 'U' {
            us = us + 1;
        } else if c == 'l' || c == 'L' {
            ls = ls + 1;
        } else {
            proof {
                lemma_count_letter_bound(w, k - start + 1);
            }
            return None;
        }
        k = k + 1;
    }
    assert(w.take(n as int) =~= w);
    if us > 1 || ls > 2 {
        return None;
    }
    if ls == 2 {
        let mut j = start;
        let mut ok = false;
        while j < end && j + 1 < end
            invariant
                start <= j <= end,
                end <= chars@.len(),
                w == chars@.subrange(start as int, end as int),
                ok ==> has_double_l(w),
                !ok ==> forall|m: int| 0 <= m < j - start && m + 1 < w.len() ==> !((#[trigger] w[m] == 'l' && w[m + 1] == 'l') || (w[m] == 'L' && w[m + 1] == 'L')),
            decreases end - j,
        {
            if (chars[j] == 'l' && chars[j + 1] == 'l') || (chars[j] == 'L' && chars[j + 1] == 'L') {
                assert(w[j - start] == chars@[j as int] && w[j - start + 1] == chars@[j + 1]);
                ok = true;
            }
            j = j + 1;
        }
        if !ok {
            return None;
        }
        if us == 1 {
            Some(IntegerSuffix::ULL)
        } else {
            Some(IntegerSuffix::LL)
        }
    } else if ls == 1 {
        if us == 1 {
            Some(IntegerSuffix::UL)
        } else {
            Some(IntegerSuffix::L)
        }
    } else {
        Some(IntegerSuffix::U)
    }
}

proof fn lemma_count_letter_bound(w: Seq<char>, k: int)
    requires
        0 <= k <= w.len(),
    ensures
        count_letter(w.take(k), true) + count_letter(w.take(k), false) <= k,
        (count_letter(w.take(k), true) + count_letter(w.take(k), false) < k) ==> count_letter(w, true)
            + count_letter(w, false) < w.len(),
    decreases w.len() - k,
{
    lemma_letters_le(w.take(k));
    if k < w.len() {
        lemma_count_letter_bound(w, k + 1);
        assert(w.take(k + 1).drop_last() =~= w.take(k));
    } else {
        assert(w.take(k) =~= w);
    }
}

proof fn lemma_letters_le(w: Seq<char>)
    ensures
        count_letter(w, true) + count_letter(w, false) <= w.len(),
    decreases w.len(),
{
    if w.len() > 0 {
        lemma_letters_le(w.drop_last());
    }
}

/// Where the run of digits of base `b` that starts at `i` ends.
pub open spec fn digit_run_end(s: Seq<char>, i: int, b: nat) -> int
    decreases s.len() - i,
{
    if 0 <= i < s.len() && digit_in(s[i], b) is Some {
        digit_run_end(s, i + 1, b)
    } else {
        i
    }
}

/// The digit values of the characters of `w` in base `b`.
pub open spec fn digits_of(w: Seq<char>, b: nat) -> Seq<nat> {
    w.map_values(|c: char| digit_in(c, b)->0)
}

/// The base of an integer constant `w`, the length of its prefix, and
/// whether it is decimal.
pub open spec fn base_of(w: Seq<char>) -> (nat, int, bool) {
    if w[0] == '0' && w.len() >= 2 && (w[1] == 'x' || w[1] == 'X') {
        (16, 2, false)
    } else if w[0] == '0' && w.len() >= 2 && (w[1] == 'b' || w[1] == 'B') {
        (2, 2, false)
    } else if w[0] == '0' {
        (8, 1, false)
    } else {
        (10, 0, true)
    }
}

/// The constant the token `w` denotes, errors reported at offset `at`: its
/// prefix gives the base, the digits that follow its value, and the rest
/// must be an integer suffix.
pub open spec fn integer_constant_spec(w: Seq<char>, at: usize) -> Result<ExpressionEnum, ParseError> {
    let (b, p, decimal) = base_of(w);
    let de = digit_run_end(w, p, b);
    if de == p && b != 8 {
        Err(ParseError::InvalidConstant(at))
    } else {
        match suffix_spec(w.subrange(de, w.len() as int)) {
            None => Err(ParseError::InvalidConstant(at)),
            Some(suffix) => match integer_constant_of(digits_value(digits_of(w.subrange(p, de), b), b), suffix, decimal) {
                Some(e) => Ok(e),
                None => Err(ParseError::IntegerOverflow(at)),
            },
        }
    }
}

proof fn lemma_digit_run_end(s: Seq<char>, i: int, b: nat)
    requires
        0 <= i <= s.len(),
    ensures
        i <= digit_run_end(s, i, b) <= s.len(),
        forall|k: int| i <= k < digit_run_end(s, i, b) ==> digit_in(#[trigger] s[k], b) is Some,
        digit_run_end(s, i, b) < s.len() ==> digit_in(s[digit_run_end(s, i, b)], b) is None,
    decreases s.len() - i,
{
    if 0 <= i < s.len() && digit_in(s[i], b) is Some {
        lemma_digit_run_end(s, i + 1, b);
    }
}

proof fn lemma_digits_value_grows(d: Seq<nat>, b: nat)
    requires
        b >= 1,
        d.len() > 0,
    ensures
        digits_value(d, b) >= digits_value(d.drop_last(), b),
{
    assert(digits_value(d.drop_last(), b) * b >= digits_value(d.drop_last(), b)) by (nonlinear_arith)
        requires
            b >= 1,
    ;
}

/// The value of an integer constant token `chars[start..end]`: decimal,
/// octal (leading `0`), hexadecimal (`0x`) or binary (`0b`), typed by its
/// suffix and value.
pub fn build_integer_constant(chars: &Vec<char>, start: usize, end: usize) -> (r: Result<ExpressionEnum, ParseError>)
    requires
        start < end <= chars@.len(),
    ensures
        match r {
            Ok(e) => integer_constant_spec(chars@.subrange(start as int, end as int), start)
                == Ok::<ExpressionEnum, ParseError>(e),
            Err(e) => integer_constant_spec(chars@.subrange(start as int, end as int), start)
                == Err::<ExpressionEnum, ParseError>(e),
        },
{
    let ghost w = chars@.subrange(start as int, end as int);
    let mut base: u32 = 10;
    let mut k = start;
    let decimal: bool;
    if chars[start] == '0' && end - start >= 2 && (chars[start + 1] == 'x' || chars[start + 1] == 'X') {
        base = 16;
        k = start + 2;
        decimal = false;
    } else if chars[start] == '0' && end - start >= 2 && (chars[start + 1] == 'b' || chars[start + 1] == 'B') {
        base = 2;
        k = start + 2;
        decimal = false;
    } else if chars[start] == '0' {
        base = 8;
        k = start + 1;
        decimal = false;
    } else {
        decimal = true;
    }
    let digits_start = k;
    assert(base_of(w) == (base as nat, (digits_start - start) as int, decimal));
    let ghost p = (digits_start - start) as int;
    proof {
        lemma_digit_run_end(w, p, base as nat);
        assert(w.subrange(p, p) =~= Seq::<char>::empty());
        assert(digits_of(Seq::<char>::empty(), base as nat) =~= Seq::<nat>::empty());
    }
    let mut value: u128 = 0;
    let mut big = false;
    while k < end
        invariant
            start <= digits_start <= k <= end <= chars@.len(),
            w == chars@.subrange(start as int, end as int),
            p == digits_start - start,
            2 <= base <= 16,
            value <= u64::MAX,
            digit_run_end(w, k - start, base as nat) == digit_run_end(w, p, base as nat),
            !big ==> value == digits_value(digits_of(w.subrange(p, k - start), base as nat), base as nat),
            big ==> digits_value(digits_of(w.subrange(p, k - start), base as nat), base as nat) > u64::MAX,
        ensures
            start <= digits_start <= k <= end,
            w == chars@.subrange(start as int, end as int),
            value <= u64::MAX,
            digit_run_end(w, k - start, base as nat) == digit_run_end(w, p, base as nat),
            !big ==> value == digits_value(digits_of(w.subrange(p, k - start), base as nat), base as nat),
            big ==> digits_value(digits_of(w.subrange(p, k - start), base as nat), base as nat) > u64::MAX,
            k < end ==> digit_in(w[k - start], base as nat) is None,
        decreases end - k,
    {
        assert(w[k - start] == chars@[k as int]);
        match digit_in_exec(chars[k], base) {
            Some(d) => {
                let ghost ds = digits_of(w.subrange(p, k + 1 - start), base as nat);
                proof {
                    assert(ds.drop_last() =~= digits_of(w.subrange(p, k - start), base as nat));
                    assert(ds.last() == d as nat);
                    lemma_digits_value_grows(ds, base as nat);
                }
                if !big {
                    assert(value * (base as u128) <= 0xffff_ffff_ffff_ffffu128 * 16) by (nonlinear_arith)
                        requires
                            value <= 0xffff_ffff_ffff_ffffu128,
                            base <= 16,
                    ;
                    assert(d < 16) by {
                        assert(digit_in(chars@[k as int], base as nat) == Some(d as nat));
                    }
                    let next: u128 = value * (base as u128) + (d as u128);
                    if next > 0xffff_ffff_ffff_ffffu128 {
                        big = true;
                    } else {
                        value = next;
                    }
                }
                k = k + 1;
            },
            None => {
                assert(digit_in(w[k - start], base as nat) is None);
                break;
            },
        }
    }
    let digits_end = k;
    assert(digit_run_end(w, k - start, base as nat) == k - start) by {
        if k - start < w.len() {
            assert(digit_in(w[k - start], base as nat) is None);
        }
    }
    if digits_end == digits_start && base != 8 {
        return Err(ParseError::InvalidConstant(start));
    }
    proof {
        assert(chars@.subrange(digits_end as int, end as int) =~= w.subrange(k - start, w.len() as int));
    }
    let suffix = match suffix_of(chars, digits_end, end) {
        Some(s) => s,
        None => {
            return Err(ParseError::InvalidConstant(start));
        },
    };
    if big {
        return Err(ParseError::IntegerOverflow(start));
    }
    let v = value as u64;
    let r = match suffix {
        IntegerSuffix::ULL => Some(ExpressionEnum::UnsignedLongLongConstant(v)),
        IntegerSuffix::LL => if v <= 0x7fff_ffff_ffff_ffffu64 {
            Some(ExpressionEnum::LongLongConstant(v as i64))
        } else if !decimal {
            Some(ExpressionEnum::UnsignedLongLongConstant(v))
        } else {
            None
        },
        IntegerSuffix::UL => Some(ExpressionEnum::UnsignedLongConstant(v)),
        IntegerSuffix::L => if v <= 0x7fff_ffff_ffff_ffffu64 {
            Some(ExpressionEnum::LongConstant(v as i64))
        } else if !decimal {
            Some(ExpressionEnum::UnsignedLongConstant(v))
        } else {
            None
        },
        IntegerSuffix::U => if v <= 0xffff_ffffu64 {
            Some(ExpressionEnum::UnsignedIntegerConstant(v as u32))
        } else {
            Some(ExpressionEnum::UnsignedLongConstant(v))
        },
        IntegerSuffix::NoSuffix => if v <= 0x7fff_ffffu64 {
            Some(ExpressionEnum::IntegerConstant(v as i32))
        } else if !decimal && v <= 0xffff_ffffu64 {
            Some(ExpressionEnum::UnsignedIntegerConstant(v as u32))
        } else if v <= 0x7fff_ffff_ffff_ffffu64 {
            Some(ExpressionEnum::LongConstant(v as i64))
        } else if !decimal {
            Some(ExpressionEnum::UnsignedLongLongConstant(v))
        } else {
            None
        },
    };
    assert(r == integer_constant_of(v as nat, suffix, decimal));
    match r {
        Some(e) => Ok(e),
        None => Err(ParseError::IntegerOverflow(start)),
    }
}

fn is_digit_exec(c: char) -> (r: bool)
    ensures
        r == ('0' <= c <= '9'),
{
    '0' <= c && c <= '9'
}

/// The end of the exponent part of the body `b` of a floating constant at
/// `k` (`e` or `E`, an optional sign, digits), `k` itself when there is
/// none, or `None` when the exponent has no digits.
pub open spec fn exponent_end(b: Seq<char>, k: int) -> Option<int> {
    if 0 <= k < b.len() && (b[k] == 'e' || b[k] == 'E') {
        let s = if k + 1 < b.len() && (b[k + 1] == '+' || b[k + 1] == '-') {
            k + 2
        } else {
            k + 1
        };
        let e = digit_run_end(b, s, 10);
        if e == s {
            None
        } else {
            Some(e)
        }
    } else {
        Some(k)
    }
}

/// A decimal floating constant token `w` (at offset `start`): its body
/// without the suffix and whether it is a `float` (suffix `f` or `F`), or
/// the error it is refused with. The body is digits, an optional `.` and
/// digits (at least one digit in all), and an optional exponent.
pub open spec fn floating_constant_spec(w: Seq<char>, start: usize) -> Result<(Seq<char>, bool), ParseError> {
    if w.len() >= 2 && w[0] == '0' && (w[1] == 'x' || w[1] == 'X') {
        Err(ParseError::UnsupportedFloat(start))
    } else {
        let last = w[w.len() - 1];
        let is_float = last == 'f' || last == 'F';
        let body = if is_float || last == 'l' || last == 'L' {
            w.drop_last()
        } else {
            w
        };
        let k1 = digit_run_end(body, 0, 10);
        let k2 = if k1 < body.len() && body[k1] == '.' {
            digit_run_end(body, k1 + 1, 10)
        } else {
            k1
        };
        let digits = if k1 < body.len() && body[k1] == '.' {
            k2 - 1
        } else {
            k2
        };
        if digits == 0 {
            Err(ParseError::InvalidConstant(start))
        } else {
            match exponent_end(body, k2) {
                Some(k3) => if k3 == body.len() {
                    Ok((body, is_float))
                } else {
                    Err(ParseError::InvalidConstant(start))
                },
                None => Err(ParseError::InvalidConstant(start)),
            }
        }
    }
}

/// The value of a floating constant token `chars[start..end]`: its digits
/// (suffix removed), as a `float` with suffix `f`/`F` and a `double`
/// otherwise (`floating_constant_spec`). Hexadecimal floating constants are
/// not supported.
#[verifier::rlimit(40)]
pub fn build_floating_constant(chars: &Vec<char>, start: usize, end: usize) -> (r: Result<ExpressionEnum, ParseError>)
    requires
        start < end <= chars@.len(),
    ensures
        match r {
            Ok(e) => match floating_constant_spec(chars@.subrange(start as int, end as int), start) {
                Ok((body, true)) => e matches ExpressionEnum::FloatConstant(s) && s@ == body,
                Ok((body, false)) => e matches ExpressionEnum::DoubleConstant(s) && s@ == body,
                Err(_) => false,
            },
            Err(e) => floating_constant_spec(chars@.subrange(start as int, end as int), start) == Err::<
                (Seq<char>, bool),
                ParseError,
            >(e),
        },
        r matches Err(e) ==> !(e is Lex),
{
    let ghost w = chars@.subrange(start as int, end as int);
    if end - start >= 2 && chars[start] == '0' && (chars[start + 1] == 'x' || chars[start + 1] == 'X') {
        return Err(ParseError::UnsupportedFloat(start));
    }
    let last = chars[end - 1];
    let is_float = last == 'f' || last == 'F';
    let has_suffix = is_float || last == 'l' || last == 'L';
    let body_end = if has_suffix {
        end - 1
    } else {
        end
    };
    let ghost body = chars@.subrange(start as int, body_end as int);
    assert(body =~= (if has_suffix {
        w.drop_last()
    } else {
        w
    }));
    // digits [. digits] [(e|E) [+|-] digits], with at least one mantissa digit
    let mut k = start;
    let mut mantissa_digits: usize = 0;
    while k < body_end && is_digit_exec(chars[k])
        invariant
            start <= k <= body_end <= end <= chars@.len(),
            mantissa_digits == k - start,
            body == chars@.subrange(start as int, body_end as int),
            digit_run_end(body, 0, 10) == digit_run_end(body, k - start, 10),
        decreases body_end - k,
    {
        k = k + 1;
        mantissa_digits = mantissa_digits + 1;
    }
    let ghost k1 = k - start;
    assert(digit_run_end(body, k1, 10) == k1) by {
        if k1 < body.len() {
            assert(body[k1] == chars@[k as int]);
        }
    }
    if k < body_end && chars[k] == '.' {
        k = k + 1;
        while k < body_end && is_digit_exec(chars[k])
            invariant
                start < k <= body_end <= end <= chars@.len(),
                k1 + 1 <= k - start,
                mantissa_digits == k - start - 1,
                body == chars@.subrange(start as int, body_end as int),
                digit_run_end(body, k1 + 1, 10) == digit_run_end(body, k - start, 10),
            decreases body_end - k,
        {
            k = k + 1;
            mantissa_digits = mantissa_digits + 1;
        }
    }
    let ghost k2 = k - start;
    assert(k2 == (if k1 < body.len() && body[k1] == '.' {
        digit_run_end(body, k1 + 1, 10)
    } else {
        k1
    })) by {
        if k1 < body.len() && body[k1] == '.' {
            assert(body[k1] == chars@[start + k1]);
            if k2 < body.len() {
                assert(body[k2] == chars@[k as int]);
            }
        }
    }
    assert(mantissa_digits == (if k1 < body.len() && body[k1] == '.' {
        k2 - 1
    } else {
        k2
    }));
    if mantissa_digits == 0 {
        return Err(ParseError::InvalidConstant(start));
    }
    if k < body_end && (chars[k] == 'e' || chars[k] == 'E') {
        k = k + 1;
        if k < body_end && (chars[k] == '+' || chars[k] == '-') {
            k = k + 1;
        }
        let exp_start = k;
        while k < body_end && is_digit_exec(chars[k])
            invariant
                exp_start <= k <= body_end <= end <= chars@.len(),
                start <= exp_start,
                body == chars@.subrange(start as int, body_end as int),
                digit_run_end(body, exp_start - start, 10) == digit_run_end(body, k - start, 10),
            decreases body_end - k,
        {
            k = k + 1;
        }
        assert(digit_run_end(body, k - start, 10) == k - start) by {
            if k < body_end {
                assert(body[k - start] == chars@[k as int]);
            }
        }
        assert(exponent_end(body, k2) == (if k == exp_start {
            None
        } else {
            Some(k - start)
        })) by {
            assert(body[k2] == chars@[start + k2]);
            if k2 + 1 < body.len() {
                assert(body[k2 + 1] == chars@[start + k2 + 1]);
            }
        }
        if k == exp_start {
            return Err(ParseError::InvalidConstant(start));
        }
    } else {
        assert(exponent_end(body, k2) == Some(k2)) by {
            if k2 < body.len() {
                assert(body[k2] == chars@[start + k2]);
            }
        }
    }
    if k != body_end {
        return Err(ParseError::InvalidConstant(start));
    }
    assert(floating_constant_spec(w, start) == Ok::<(Seq<char>, bool), ParseError>((body, is_float)));
    let mut s = String::new();
    append_range(&mut s, chars, start, body_end);
    if is_float {
        Ok(ExpressionEnum::FloatConstant(s))
    } else {
        Ok(ExpressionEnum::DoubleConstant(s))
    }
}

} // verus!
