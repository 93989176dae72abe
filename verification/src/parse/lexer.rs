//! The tokens of C: identifiers, keywords, constants, string literals and
//! punctuators, each with the range of characters it was read from.
use vstd::prelude::*;

use crate::preprocess::scan::{find_quote_end, lemma_quote_end, quote_end};
use crate::text::chars_of;

verus! {

#[derive(Debug, Clone, Copy, PartialEq, Eq, Structural)]
pub enum Keyword {
    Auto,
    Break,
    Case,
    Char,
    Const,
    Continue,
    Default,
    Do,
    Double,
    Else,
    Enum,
    Extern,
    Float,
    For,
    Goto,
    If,
    Inline,
    Int,
    Long,
    Register,
    Restrict,
    Return,
    Short,
    Signed,
    Sizeof,
    Static,
    Struct,
    Switch,
    Typedef,
    Union,
    Unsigned,
    Void,
    Volatile,
    While,
    Bool,
    Complex,
    Imaginary,
    Noreturn,
    ThreadLocal,
    Atomic,
    As,
}

#[derive(Debug, Clone, Copy, PartialEq, Eq, Structural)]
pub enum Punct {
    Ellipsis,
    ShlAssign,
    ShrAssign,
    Arrow,
    Inc,
    Dec,
    Shl,
    Shr,
    Le,
    Ge,
    EqEq,
    Ne,
    AndAnd,
    OrOr,
    MulAssign,
    DivAssign,
    ModAssign,
    AddAssign,
    SubAssign,
    AndAssign,
    XorAssign,
    OrAssign,
    HashHash,
    LBracket,
    RBracket,
    LParen,
    RParen,
    LBrace,
    RBrace,
    Dot,
    Amp,
    Star,
    Plus,
    Minus,
    Tilde,
    Bang,
    Slash,
    Percent,
    Lt,
    Gt,
    Caret,
    Pipe,
    Question,
    Colon,
    Semicolon,
    Assign,
    Comma,
    Hash,
}

#[derive(Debug, Clone, Copy, PartialEq, Eq, Structural)]
pub enum TokenKind {
    Identifier,
    Keyword(Keyword),
    /// an integer constant (digits, optional prefix and suffix)
    Integer,
    /// a floating constant
    Floating,
    /// a character constant, quotes included
    Character,
    /// a string literal, quotes included
    StringLiteral,
    Punct(Punct),
}

/// A token: its kind and the characters `[start, end)` it was read from.
#[derive(Debug, Clone, Copy, PartialEq, Eq, Structural)]
pub struct Token {
    pub kind: TokenKind,
    pub start: usize,
    pub end: usize,
}

/// A character that cannot start any token, at the given offset.
#[derive(Debug, Clone, Copy, PartialEq, Eq, Structural)]
pub enum LexError {
    UnexpectedCharacter(usize),
    UnterminatedLiteral(usize),
}

pub open spec fn is_space(c: char) -> bool {
    c == ' ' || c == '\t' || c == '\n' || c == '\r' || c == '\x0b' || c == '\x0c'
}

pub open spec fn is_digit(c: char) -> bool {
    '0' <= c <= '9'
}

pub open spec fn is_ident_start(c: char) -> bool {
    ('a' <= c <= 'z') || ('A' <= c <= 'Z') || c == '_'
}

pub open spec fn is_ident_char(c: char) -> bool {
    is_ident_start(c) || is_digit(c)
}

/// The end of the run of identifier characters that starts at `i`.
pub open spec fn ident_end(s: Seq<char>, i: int) -> int
    decreases s.len() - i,
{
    if i < s.len() && is_ident_char(s[i]) {
        ident_end(s, i + 1)
    } else {
        i
    }
}

/// The end of the preprocessing number that starts at `i`: letters, digits,
/// `_` and `.`, and a sign right after an exponent letter `e`, `E`, `p` or `P`.
pub open spec fn number_end(s: Seq<char>, i: int) -> int
    decreases s.len() - i,
{
    if i < s.len() && (is_ident_char(s[i]) || s[i] == '.') {
        number_end(s, i + 1)
    } else if i < s.len() && (s[i] == '+' || s[i] == '-') && i > 0 && (s[i - 1] == 'e' || s[i - 1] == 'E'
        || s[i - 1] == 'p' || s[i - 1] == 'P') {
        number_end(s, i + 1)
    } else {
        i
    }
}

/// The keyword spelled by `w`, if it is one.
pub open spec fn keyword_of(w: Seq<char>) -> Option<Keyword> {
    if w == "auto"@ {
        Some(Keyword::Auto)
    } else if w == "break"@ {
        Some(Keyword::Break)
    } else if w == "case"@ {
        Some(Keyword::Case)
    } else if w == "char"@ {
        Some(Keyword::Char)
    } else if w == "const"@ {
        Some(Keyword::Const)
    } else if w == "continue"@ {
        Some(Keyword::Continue)
    } else if w == "default"@ {
        Some(Keyword::Default)
    } else if w == "do"@ {
        Some(Keyword::Do)
    } else if w == "double"@ {
        Some(Keyword::Double)
    } else if w == "else"@ {
        Some(Keyword::Else)
    } else if w == "enum"@ {
        Some(Keyword::Enum)
    } else if w == "extern"@ {
        Some(Keyword::Extern)
    } else if w == "float"@ {
        Some(Keyword::Float)
    } else if w == "for"@ {
        Some(Keyword::For)
    } else if w == "goto"@ {
        Some(Keyword::Goto)
    } else if w == "if"@ {
        Some(Keyword::If)
    } else if w == "inline"@ {
        Some(Keyword::Inline)
    } else if w == "int"@ {
        Some(Keyword::Int)
    } else if w == "long"@ {
        Some(Keyword::Long)
    } else if w == "register"@ {
        Some(Keyword::Register)
    } else if w == "restrict"@ {
        Some(Keyword::Restrict)
    } else if w == "return"@ {
        Some(Keyword::Return)
    } else if w == "short"@ {
        Some(Keyword::Short)
    } else if w == "signed"@ {
        Some(Keyword::Signed)
    } else if w == "sizeof"@ {
        Some(Keyword::Sizeof)
    } else if w == "static"@ {
        Some(Keyword::Static)
    } else if w == "struct"@ {
        Some(Keyword::Struct)
    } else if w == "switch"@ {
        Some(Keyword::Switch)
    } else if w == "typedef"@ {
        Some(Keyword::Typedef)
    } else if w == "union"@ {
        Some(Keyword::Union)
    } else if w == "unsigned"@ {
        Some(Keyword::Unsigned)
    } else if w == "void"@ {
        Some(Keyword::Void)
    } else if w == "volatile"@ {
        Some(Keyword::Volatile)
    } else if w == "while"@ {
        Some(Keyword::While)
    } else if w == "_Bool"@ {
        Some(Keyword::Bool)
    } else if w == "_Complex"@ {
        Some(Keyword::Complex)
    } else if w == "_Imaginary"@ {
        Some(Keyword::Imaginary)
    } else if w == "_Noreturn"@ {
        Some(Keyword::Noreturn)
    } else if w == "_Thread_local"@ {
        Some(Keyword::ThreadLocal)
    } else if w == "_Atomic"@ {
        Some(Keyword::Atomic)
    } else if w == "as"@ {
        Some(Keyword::As)
    } else {
        None
    }
}

/// The longest punctuator that starts at `i`, with its length.
pub open spec fn punct_at(s: Seq<char>, i: int) -> Option<(Punct, int)> {
    if i + 3 <= s.len() && s[i + 0] == '.' && s[i + 1] == '.' && s[i + 2] == '.' {
        Some((Punct::Ellipsis, 3))
    } else if i + 3 <= s.len() && s[i + 0] == '<' && s[i + 1] == '<' && s[i + 2] == '=' {
        Some((Punct::ShlAssign, 3))
    } else if i + 3 <= s.len() && s[i + 0] == '>' && s[i + 1] == '>' && s[i + 2] == '=' {
        Some((Punct::ShrAssign, 3))
    } else if i + 2 <= s.len() && s[i + 0] == '-' && s[i + 1] == '>' {
        Some((Punct::Arrow, 2))
    } else if i + 2 <= s.len() && s[i + 0] == '+' && s[i + 1] == '+' {
        Some((Punct::Inc, 2))
    } else if i + 2 <= s.len() && s[i + 0] == '-' && s[i + 1] == '-' {
        Some((Punct::Dec, 2))
    } else if i + 2 <= s.len() && s[i + 0] == '<' && s[i + 1] == '<' {
        Some((Punct::Shl, 2))
    } else if i + 2 <= s.len() && s[i + 0] == '>' && s[i + 1] == '>' {
        Some((Punct::Shr, 2))
    } else if i + 2 <= s.len() && s[i + 0] == '<' && s[i + 1] == '=' {
        Some((Punct::Le, 2))
    } else if i + 2 <= s.len() && s[i + 0] == '>' && s[i + 1] == '=' {
        Some((Punct::Ge, 2))
    } else if i + 2 <= s.len() && s[i + 0] == '=' && s[i + 1] == '=' {
        Some((Punct::EqEq, 2))
    } else if i + 2 <= s.len() && s[i + 0] == '!' && s[i + 1] == '=' {
        Some((Punct::Ne, 2))
    } else if i + 2 <= s.len() && s[i + 0] == '&' && s[i + 1] == '&' {
        Some((Punct::AndAnd, 2))
    } else if i + 2 <= s.len() && s[i + 0] == '|' && s[i + 1] == '|' {
        Some((Punct::OrOr, 2))
    } else if i + 2 <= s.len() && s[i + 0] == '*' && s[i + 1] == '=' {
        Some((Punct::MulAssign, 2))
    } else if i + 2 <= s.len() && s[i + 0] == '/' && s[i + 1] == '=' {
        Some((Punct::DivAssign, 2))
    } else if i + 2 <= s.len() && s[i + 0] == '%' && s[i + 1] == '=' {
        Some((Punct::ModAssign, 2))
    } else if i + 2 <= s.len() && s[i + 0] == '+' && s[i + 1] == '=' {
        Some((Punct::AddAssign, 2))
    } else if i + 2 <= s.len() && s[i + 0] == '-' && s[i + 1] == '=' {
        Some((Punct::SubAssign, 2))
    } else if i + 2 <= s.len() && s[i + 0] == '&' && s[i + 1] == '=' {
        Some((Punct::AndAssign, 2))
    } else if i + 2 <= s.len() && s[i + 0] == '^' && s[i + 1] == '=' {
        Some((Punct::XorAssign, 2))
    } else if i + 2 <= s.len() && s[i + 0] == '|' && s[i + 1] == '=' {
        Some((Punct::OrAssign, 2))
    } else if i + 2 <= s.len() && s[i + 0] == '#' && s[i + 1] == '#' {
        Some((Punct::HashHash, 2))
    } else if i + 1 <= s.len() && s[i + 0] == '[' {
        Some((Punct::LBracket, 1))
    } else if i + 1 <= s.len() && s[i + 0] == ']' {
        Some((Punct::RBracket, 1))
    } else if i + 1 <= s.len() && s[i + 0] == '(' {
        Some((Punct::LParen, 1))
    } else if i + 1 <= s.len() && s[i + 0] == ')' {
        Some((Punct::RParen, 1))
    } else if i + 1 <= s.len() && s[i + 0] == '{' {
        Some((Punct::LBrace, 1))
    } else if i + 1 <= s.len() && s[i + 0] == '}' {
        Some((Punct::RBrace, 1))
    } else if i + 1 <= s.len() && s[i + 0] == '.' {
        Some((Punct::Dot, 1))
    } else if i + 1 <= s.len() && s[i + 0] == '&' {
        Some((Punct::Amp, 1))
    } else if i + 1 <= s.len() && s[i + 0] == '*' {
        Some((Punct::Star, 1))
    } else if i + 1 <= s.len() && s[i + 0] == '+' {
        Some((Punct::Plus, 1))
    } else if i + 1 <= s.len() && s[i + 0] == '-' {
        Some((Punct::Minus, 1))
    } else if i + 1 <= s.len() && s[i + 0] == '~' {
        Some((Punct::Tilde, 1))
    } else if i + 1 <= s.len() && s[i + 0] == '!' {
        Some((Punct::Bang, 1))
    } else if i + 1 <= s.len() && s[i + 0] == '/' {
        Some((Punct::Slash, 1))
    } else if i + 1 <= s.len() && s[i + 0] == '%' {
        Some((Punct::Percent, 1))
    } else if i + 1 <= s.len() && s[i + 0] == '<' {
        Some((Punct::Lt, 1))
    } else if i + 1 <= s.len() && s[i + 0] == '>' {
        Some((Punct::Gt, 1))
    } else if i + 1 <= s.len() && s[i + 0] == '^' {
        Some((Punct::Caret, 1))
    } else if i + 1 <= s.len() && s[i + 0] == '|' {
        Some((Punct::Pipe, 1))
    } else if i + 1 <= s.len() && s[i + 0] == '?' {
        Some((Punct::Question, 1))
    } else if i + 1 <= s.len() && s[i + 0] == ':' {
        Some((Punct::Colon, 1))
    } else if i + 1 <= s.len() && s[i + 0] == ';' {
        Some((Punct::Semicolon, 1))
    } else if i + 1 <= s.len() && s[i + 0] == '=' {
        Some((Punct::Assign, 1))
    } else if i + 1 <= s.len() && s[i + 0] == ',' {
        Some((Punct::Comma, 1))
    } else if i + 1 <= s.len() && s[i + 0] == '#' {
        Some((Punct::Hash, 1))
    } else {
        None
    }
}

/// Whether the number `w` is a floating constant: it has a `.`, or an
/// exponent `e`/`E` (when not hexadecimal), or a binary exponent `p`/`P`
/// (when hexadecimal).
pub open spec fn is_floating(w: Seq<char>) -> bool {
    let hex = w.len() >= 2 && w[0] == '0' && (w[1] == 'x' || w[1] == 'X');
    exists|k: int|
        0 <= k < w.len() && (w[k] == '.' || (!hex && (w[k] == 'e' || w[k] == 'E')) || (hex && (w[k]
            == 'p' || w[k] == 'P')))
}

/// The token that starts at `i` (which is not a blank), or the error there.
pub open spec fn token_at(s: Seq<char>, i: int) -> Result<Token, LexError> {
    if is_ident_start(s[i]) {
        let e = ident_end(s, i);
        match keyword_of(s.subrange(i, e)) {
            Some(k) => Ok(Token { kind: TokenKind::Keyword(k), start: i as usize, end: e as usize }),
            None => Ok(Token { kind: TokenKind::Identifier, start: i as usize, end: e as usize }),
        }
    } else if is_digit(s[i]) || (s[i] == '.' && i + 1 < s.len() && is_digit(s[i + 1])) {
        let e = number_end(s, i);
        if is_floating(s.subrange(i, e)) {
            Ok(Token { kind: TokenKind::Floating, start: i as usize, end: e as usize })
        } else {
            Ok(Token { kind: TokenKind::Integer, start: i as usize, end: e as usize })
        }
    } else if s[i] == '\'' || s[i] == '"' {
        match quote_end(s, i + 1, s[i]) {
            None => Err(LexError::UnterminatedLiteral(i as usize)),
            Some(e) => Ok(
                Token {
                    kind: if s[i] == '"' {
                        TokenKind::StringLiteral
                    } else {
                        TokenKind::Character
                    },
                    start: i as usize,
                    end: e as usize,
                },
            ),
        }
    } else {
        match punct_at(s, i) {
            Some((p, n)) => Ok(Token { kind: TokenKind::Punct(p), start: i as usize, end: (i + n) as usize }),
            None => Err(LexError::UnexpectedCharacter(i as usize)),
        }
    }
}

pub proof fn lemma_ident_end(s: Seq<char>, i: int)
    requires
        0 <= i <= s.len(),
    ensures
        i <= ident_end(s, i) <= s.len(),
        forall|k: int| i <= k < ident_end(s, i) ==> is_ident_char(#[trigger] s[k]),
    decreases s.len() - i,
{
    if i < s.len() && is_ident_char(s[i]) {
        lemma_ident_end(s, i + 1);
    }
}

pub proof fn lemma_number_end(s: Seq<char>, i: int)
    requires
        0 <= i <= s.len(),
    ensures
        i <= number_end(s, i) <= s.len(),
    decreases s.len() - i,
{
    if i < s.len() && (is_ident_char(s[i]) || s[i] == '.' || s[i] == '+' || s[i] == '-') {
        lemma_number_end(s, i + 1);
    }
}

pub proof fn lemma_token_at(s: Seq<char>, i: int)
    requires
        0 <= i < s.len(),
        s.len() <= usize::MAX,
    ensures
        token_at(s, i) matches Ok(t) ==> t.start == i && i < t.end <= s.len(),
{
    lemma_ident_end(s, i);
    lemma_number_end(s, i);
    lemma_quote_end(s, i + 1, s[i]);
    if is_ident_start(s[i]) {
        lemma_ident_end(s, i + 1);
    }
    if is_digit(s[i]) || (s[i] == '.' && i + 1 < s.len() && is_digit(s[i + 1])) {
        lemma_number_end(s, i + 1);
    }
}

/// The tokens of `s` from index `i` on, blanks skipped.
pub open spec fn lex_from(s: Seq<char>, i: int) -> Result<Seq<Token>, LexError>
    decreases s.len() - i,
{
    if i < 0 || i >= s.len() || s.len() > usize::MAX {
        Ok(Seq::empty())
    } else if is_space(s[i]) {
        lex_from(s, i + 1)
    } else {
        match token_at(s, i) {
            Err(e) => Err(e),
            Ok(t) => {
                proof {
                    lemma_token_at(s, i);
                }
                match lex_from(s, t.end as int) {
                    Err(e) => Err(e),
                    Ok(rest) => Ok(seq![t] + rest),
                }
            },
        }
    }
}

/// Every token that lexing from `i` produces lies within the characters.
#[verifier::spinoff_prover]
pub proof fn lemma_lex_from_bounds(s: Seq<char>, i: int)
    requires
        0 <= i,
    ensures
        lex_from(s, i) matches Ok(ts) ==> forall|j: int|
            0 <= j < ts.len() ==> #[trigger] ts[j].start < ts[j].end <= s.len(),
    decreases s.len() - i,
{
    if i < 0 || i >= s.len() || s.len() > usize::MAX {
    } else if is_space(s[i]) {
        lemma_lex_from_bounds(s, i + 1);
    } else {
        match token_at(s, i) {
            Err(e) => {},
            Ok(t) => {
                lemma_token_at(s, i);
                lemma_lex_from_bounds(s, t.end as int);
                match lex_from(s, t.end as int) {
                    Err(e) => {},
                    Ok(rest) => {
                        let ts = seq![t] + rest;
                        assert forall|j: int| 0 <= j < ts.len() implies #[trigger] ts[j].start < ts[j].end <= s.len() by {
                            if j > 0 {
                                assert(ts[j] == rest[j - 1]);
                            }
                        }
                        assert(lex_from(s, i) == Ok::<Seq<Token>, LexError>(ts));
                    },
                }
            },
        }
    }
}

proof fn lemma_lex_from_order(s: Seq<char>, i: int)
    requires
        0 <= i,
    ensures
        lex_from(s, i) matches Ok(ts) ==> (forall|j: int| 0 <= j < ts.len() ==> i <= #[trigger] ts[j].start) && (
        forall|j: int| 0 <= j && j + 1 < ts.len() ==> #[trigger] ts[j].end <= ts[j + 1].start),
    decreases s.len() - i,
{
    if i < 0 || i >= s.len() || s.len() > usize::MAX {
    } else if is_space(s[i]) {
        lemma_lex_from_order(s, i + 1);
    } else {
        match token_at(s, i) {
            Err(e) => {},
            Ok(t) => {
                lemma_token_at(s, i);
                lemma_lex_from_order(s, t.end as int);
                match lex_from(s, t.end as int) {
                    Err(e) => {},
                    Ok(rest) => {
                        let ts = seq![t] + rest;
                        assert forall|j: int| 0 <= j < ts.len() implies i <= #[trigger] ts[j].start by {
                            if j > 0 {
                                assert(ts[j] == rest[j - 1]);
                            }
                        }
                        assert forall|j: int| 0 <= j && j + 1 < ts.len() implies #[trigger] ts[j].end <= ts[j + 1].start by {
                            assert(ts[j + 1] == rest[j]);
                            if j > 0 {
                                assert(ts[j] == rest[j - 1]);
                            }
                        }
                    },
                }
            },
        }
    }
}

/// The tokens of a text lie within it, each non-empty, in order and without
/// overlapping.
pub proof fn law_tokens_in_order(s: Seq<char>)
    ensures
        lex_spec(s) matches Ok(ts) ==> (forall|j: int| 0 <= j < ts.len() ==> #[trigger] ts[j].start < ts[j].end <= s.len())
            && (forall|j: int| 0 <= j && j + 1 < ts.len() ==> #[trigger] ts[j].end <= ts[j + 1].start),
{
    lemma_lex_from_bounds(s, 0);
    lemma_lex_from_order(s, 0);
}

/// The tokens of `s`.
pub open spec fn lex_spec(s: Seq<char>) -> Result<Seq<Token>, LexError> {
    lex_from(s, 0)
}

/// Whether the characters `chars[start..end]` spell `w`.
pub fn word_eq(chars: &Vec<char>, start: usize, end: usize, w: &str) -> (r: bool)
    requires
        start <= end <= chars@.len(),
    ensures
        r == (chars@.subrange(start as int, end as int) == w@),
{
    let wc = chars_of(w);
    if end - start != wc.len() {
        return false;
    }
    let mut k: usize = 0;
    while k < wc.len()
        invariant
            k <= wc@.len(),
            end - start == wc@.len(),
            start <= end <= chars@.len(),
            wc@ == w@,
            forall|j: int| 0 <= j < k ==> chars@[start + j] == wc@[j],
        decreases wc@.len() - k,
    {
        if chars[start + k] != wc[k] {
            assert(chars@.subrange(start as int, end as int)[k as int] != w@[k as int]);
            return false;
        }
        k = k + 1;
    }
    assert(chars@.subrange(start as int, end as int) =~= w@);
    true
}

pub(crate) fn keyword_exec(chars: &Vec<char>, start: usize, end: usize) -> (r: Option<Keyword>)
    requires
        start <= end <= chars@.len(),
    ensures
        r == keyword_of(chars@.subrange(start as int, end as int)),
{
    if word_eq(chars, start, end, "auto") {
        Some(Keyword::Auto)
    } else if word_eq(chars, start, end, "break") {
        Some(Keyword::Break)
    } else if word_eq(chars, start, end, "case") {
        Some(Keyword::Case)
    } else if word_eq(chars, start, end, "char") {
        Some(Keyword::Char)
    } else if word_eq(chars, start, end, "const") {
        Some(Keyword::Const)
    } else if word_eq(chars, start, end, "continue") {
        Some(Keyword::Continue)
    } else if word_eq(chars, start, end, "default") {
        Some(Keyword::Default)
    } else if word_eq(chars, start, end, "do") {
        Some(Keyword::Do)
    } else if word_eq(chars, start, end, "double") {
        Some(Keyword::Double)
    } else if word_eq(chars, start, end, "else") {
        Some(Keyword::Else)
    } else if word_eq(chars, start, end, "enum") {
        Some(Keyword::Enum)
    } else if word_eq(chars, start, end, "extern") {
        Some(Keyword::Extern)
    } else if word_eq(chars, start, end, "float") {
        Some(Keyword::Float)
    } else if word_eq(chars, start, end, "for") {
        Some(Keyword::For)
    } else if word_eq(chars, start, end, "goto") {
        Some(Keyword::Goto)
    } else if word_eq(chars, start, end, "if") {
        Some(Keyword::If)
    } else if word_eq(chars, start, end, "inline") {
        Some(Keyword::Inline)
    } else if word_eq(chars, start, end, "int") {
        Some(Keyword::Int)
    } else if word_eq(chars, start, end, "long") {
        Some(Keyword::Long)
    } else if word_eq(chars, start, end, "register") {
        Some(Keyword::Register)
    } else if word_eq(chars, start, end, "restrict") {
        Some(Keyword::Restrict)
    } else if word_eq(chars, start, end, "return") {
        Some(Keyword::Return)
    } else if word_eq(chars, start, end, "short") {
        Some(Keyword::Short)
    } else if word_eq(chars, start, end, "signed") {
        Some(Keyword::Signed)
    } else if word_eq(chars, start, end, "sizeof") {
        Some(Keyword::Sizeof)
    } else if word_eq(chars, start, end, "static") {
        Some(Keyword::Static)
    } else if word_eq(chars, start, end, "struct") {
        Some(Keyword::Struct)
    } else if word_eq(chars, start, end, "switch") {
        Some(Keyword::Switch)
    } else if word_eq(chars, start, end, "typedef") {
        Some(Keyword::Typedef)
    } else if word_eq(chars, start, end, "union") {
        Some(Keyword::Union)
    } else if word_eq(chars, start, end, "unsigned") {
        Some(Keyword::Unsigned)
    } else if word_eq(chars, start, end, "void") {
        Some(Keyword::Void)
    } else if word_eq(chars, start, end, "volatile") {
        Some(Keyword::Volatile)
    } else if word_eq(chars, start, end, "while") {
        Some(Keyword::While)
    } else if word_eq(chars, start, end, "_Bool") {
        Some(Keyword::Bool)
    } else if word_eq(chars, start, end, "_Complex") {
        Some(Keyword::Complex)
    } else if word_eq(chars, start, end, "_Imaginary") {
        Some(Keyword::Imaginary)
    } else if word_eq(chars, start, end, "_Noreturn") {
        Some(Keyword::Noreturn)
    } else if word_eq(chars, start, end, "_Thread_local") {
        Some(Keyword::ThreadLocal)
    } else if word_eq(chars, start, end, "_Atomic") {
        Some(Keyword::Atomic)
    } else if word_eq(chars, start, end, "as") {
        Some(Keyword::As)
    } else {
        None
    }
}

fn punct_exec(chars: &Vec<char>, i: usize) -> (r: Option<(Punct, usize)>)
    requires
        i < chars.len(),
    ensures
        match r {
            Some((p, n)) => punct_at(chars@, i as int) == Some((p, n as int)),
            None => punct_at(chars@, i as int) is None,
        },
{
    if chars.len() - i >= 3 && chars[i + 0] == '.' && chars[i + 1] == '.' && chars[i + 2] == '.' {
        Some((Punct::Ellipsis, 3))
    } else if chars.len() - i >= 3 && chars[i + 0] == '<' && chars[i + 1] == '<' && chars[i + 2] == '=' {
        Some((Punct::ShlAssign, 3))
    } else if chars.len() - i >= 3 && chars[i + 0] == '>' && chars[i + 1] == '>' && chars[i + 2] == '=' {
        Some((Punct::ShrAssign, 3))
    } else if chars.len() - i >= 2 && chars[i + 0] == '-' && chars[i + 1] == '>' {
        Some((Punct::Arrow, 2))
    } else if chars.len() - i >= 2 && chars[i + 0] == '+' && chars[i + 1] == '+' {
        Some((Punct::Inc, 2))
    } else if chars.len() - i >= 2 && chars[i + 0] == '-' && chars[i + 1] == '-' {
        Some((Punct::Dec, 2))
    } else if chars.len() - i >= 2 && chars[i + 0] == '<' && chars[i + 1] == '<' {
        Some((Punct::Shl, 2))
    } else if chars.len() - i >= 2 && chars[i + 0] == '>' && chars[i + 1] == '>' {
        Some((Punct::Shr, 2))
    } else if chars.len() - i >= 2 && chars[i + 0] == '<' && chars[i + 1] == '=' {
        Some((Punct::Le, 2))
    } else if chars.len() - i >= 2 && chars[i + 0] == '>' && chars[i + 1] == '=' {
        Some((Punct::Ge, 2))
    } else if chars.len() - i >= 2 && chars[i + 0] == '=' && chars[i + 1] == '=' {
        Some((Punct::EqEq, 2))
    } else if chars.len() - i >= 2 && chars[i + 0] == '!' && chars[i + 1] == '=' {
        Some((Punct::Ne, 2))
    } else if chars.len() - i >= 2 && chars[i + 0] == '&' && chars[i + 1] == '&' {
        Some((Punct::AndAnd, 2))
    } else if chars.len() - i >= 2 && chars[i + 0] == '|' && chars[i + 1] == '|' {
        Some((Punct::OrOr, 2))
    } else if chars.len() - i >= 2 && chars[i + 0] == '*' && chars[i + 1] == '=' {
        Some((Punct::MulAssign, 2))
    } else if chars.len() - i >= 2 && chars[i + 0] == '/' && chars[i + 1] == '=' {
        Some((Punct::DivAssign, 2))
    } else if chars.len() - i >= 2 && chars[i + 0] == '%' && chars[i + 1] == '=' {
        Some((Punct::ModAssign, 2))
    } else if chars.len() - i >= 2 && chars[i + 0] == '+' && chars[i + 1] == '=' {
        Some((Punct::AddAssign, 2))
    } else if chars.len() - i >= 2 && chars[i + 0] == '-' && chars[i + 1] == '=' {
        Some((Punct::SubAssign, 2))
    } else if chars.len() - i >= 2 && chars[i + 0] == '&' && chars[i + 1] == '=' {
        Some((Punct::AndAssign, 2))
    } else if chars.len() - i >= 2 && chars[i + 0] == '^' && chars[i + 1] == '=' {
        Some((Punct::XorAssign, 2))
    } else if chars.len() - i >= 2 && chars[i + 0] == '|' && chars[i + 1] == '=' {
        Some((Punct::OrAssign, 2))
    } else if chars.len() - i >= 2 && chars[i + 0] == '#' && chars[i + 1] == '#' {
        Some((Punct::HashHash, 2))
    } else if chars.len() - i >= 1 && chars[i + 0] == '[' {
        Some((Punct::LBracket, 1))
    } else if chars.len() - i >= 1 && chars[i + 0] == ']' {
        Some((Punct::RBracket, 1))
    } else if chars.len() - i >= 1 && chars[i + 0] == '(' {
        Some((Punct::LParen, 1))
    } else if chars.len() - i >= 1 && chars[i + 0] == ')' {
        Some((Punct::RParen, 1))
    } else if chars.len() - i >= 1 && chars[i + 0] == '{' {
        Some((Punct::LBrace, 1))
    } else if chars.len() - i >= 1 && chars[i + 0] == '}' {
        Some((Punct::RBrace, 1))
    } else if chars.len() - i >= 1 && chars[i + 0] == '.' {
        Some((Punct::Dot, 1))
    } else if chars.len() - i >= 1 && chars[i + 0] == '&' {
        Some((Punct::Amp, 1))
    } else if chars.len() - i >= 1 && chars[i + 0] == '*' {
        Some((Punct::Star, 1))
    } else if chars.len() - i >= 1 && chars[i + 0] == '+' {
        Some((Punct::Plus, 1))
    } else if chars.len() - i >= 1 && chars[i + 0] == '-' {
        Some((Punct::Minus, 1))
    } else if chars.len() - i >= 1 && chars[i + 0] == '~' {
        Some((Punct::Tilde, 1))
    } else if chars.len() - i >= 1 && chars[i + 0] == '!' {
        Some((Punct::Bang, 1))
    } else if chars.len() - i >= 1 && chars[i + 0] == '/' {
        Some((Punct::Slash, 1))
    } else if chars.len() - i >= 1 && chars[i + 0] == '%' {
        Some((Punct::Percent, 1))
    } else if chars.len() - i >= 1 && chars[i + 0] == '<' {
        Some((Punct::Lt, 1))
    } else if chars.len() - i >= 1 && chars[i + 0] == '>' {
        Some((Punct::Gt, 1))
    } else if chars.len() - i >= 1 && chars[i + 0] == '^' {
        Some((Punct::Caret, 1))
    } else if chars.len() - i >= 1 && chars[i + 0] == '|' {
        Some((Punct::Pipe, 1))
    } else if chars.len() - i >= 1 && chars[i + 0] == '?' {
        Some((Punct::Question, 1))
    } else if chars.len() - i >= 1 && chars[i + 0] == ':' {
        Some((Punct::Colon, 1))
    } else if chars.len() - i >= 1 && chars[i + 0] == ';' {
        Some((Punct::Semicolon, 1))
    } else if chars.len() - i >= 1 && chars[i + 0] == '=' {
        Some((Punct::Assign, 1))
    } else if chars.len() - i >= 1 && chars[i + 0] == ',' {
        Some((Punct::Comma, 1))
    } else if chars.len() - i >= 1 && chars[i + 0] == '#' {
        Some((Punct::Hash, 1))
    } else {
        None
    }
}

pub(crate) fn ident_end_exec(chars: &Vec<char>, i: usize) -> (e: usize)
    requires
        i <= chars@.len(),
    ensures
        e == ident_end(chars@, i as int),
{
    let mut k = i;
    while k < chars.len() && (('a' <= chars[k] && chars[k] <= 'z') || ('A' <= chars[k] && chars[k] <= 'Z')
        || chars[k] == '_' || ('0' <= chars[k] && chars[k] <= '9'))
        invariant
            i <= k <= chars@.len(),
            ident_end(chars@, k as int) == ident_end(chars@, i as int),
        decreases chars@.len() - k,
    {
        k = k + 1;
    }
    k
}

pub(crate) fn number_end_exec(chars: &Vec<char>, i: usize) -> (e: usize)
    requires
        i <= chars@.len(),
    ensures
        e == number_end(chars@, i as int),
{
    let mut k = i;
    loop
        invariant
            i <= k <= chars@.len(),
            number_end(chars@, k as int) == number_end(chars@, i as int),
        decreases chars@.len() - k,
    {
        if k < chars.len() && (('a' <= chars[k] && chars[k] <= 'z') || ('A' <= chars[k] && chars[k] <= 'Z')
            || chars[k] == '_' || ('0' <= chars[k] && chars[k] <= '9') || chars[k] == '.') {
            k = k + 1;
        } else if k < chars.len() && (chars[k] == '+' || chars[k] == '-') && k > 0 && (chars[k - 1] == 'e'
            || chars[k - 1] == 'E' || chars[k - 1] == 'p' || chars[k - 1] == 'P') {
            k = k + 1;
        } else {
            return k;
        }
    }
}

fn is_floating_exec(chars: &Vec<char>, start: usize, end: usize) -> (r: bool)
    requires
        start <= end <= chars@.len(),
    ensures
        r == is_floating(chars@.subrange(start as int, end as int)),
{
    let ghost w = chars@.subrange(start as int, end as int);
    let hex = end - start >= 2 && chars[start] == '0' && (chars[start + 1] == 'x' || chars[start + 1] == 'X');
    let mut k = start;
    while k < end
        invariant
            start <= k <= end <= chars@.len(),
            w == chars@.subrange(start as int, end as int),
            hex == (w.len() >= 2 && w[0] == '0' && (w[1] == 'x' || w[1] == 'X')),
            forall|j: int|
                0 <= j < k - start ==> !(w[j] == '.' || (!hex && (w[j] == 'e' || w[j] == 'E')) || (hex && (w[j]
                    == 'p' || w[j] == 'P'))),
        decreases end - k,
    {
        let c = chars[k];
        if c == '.' || (!hex && (c == 'e' || c == 'E')) || (hex && (c == 'p' || c == 'P')) {
            assert(w[k - start] == c);
            return true;
        }
        k = k + 1;
    }
    false
}

fn token_at_exec(chars: &Vec<char>, i: usize) -> (r: Result<Token, LexError>)
    requires
        i < chars.len(),
    ensures
        r == token_at(chars@, i as int),
{
    let c = chars[i];
    if ('a' <= c && c <= 'z') || ('A' <= c && c <= 'Z') || c == '_' {
        let e = ident_end_exec(chars, i);
        proof {
            lemma_ident_end(chars@, i as int);
        }
        match keyword_exec(chars, i, e) {
            Some(k) => Ok(Token { kind: TokenKind::Keyword(k), start: i, end: e }),
            None => Ok(Token { kind: TokenKind::Identifier, start: i, end: e }),
        }
    } else if ('0' <= c && c <= '9') || (c == '.' && chars.len() - i > 1 && '0' <= chars[i + 1] && chars[i
        + 1] <= '9') {
        let e = number_end_exec(chars, i);
        proof {
            lemma_number_end(chars@, i as int);
        }
        if is_floating_exec(chars, i, e) {
            Ok(Token { kind: TokenKind::Floating, start: i, end: e })
        } else {
            Ok(Token { kind: TokenKind::Integer, start: i, end: e })
        }
    } else if c == '\'' || c == '"' {
        match find_quote_end(chars, i + 1, c) {
            None => Err(LexError::UnterminatedLiteral(i)),
            Some(e) => Ok(
                Token {
                    kind: if c == '"' {
                        TokenKind::StringLiteral
                    } else {
                        TokenKind::Character
                    },
                    start: i,
                    end: e,
                },
            ),
        }
    } else {
        match punct_exec(chars, i) {
            Some((p, n)) => Ok(Token { kind: TokenKind::Punct(p), start: i, end: i + n }),
            None => Err(LexError::UnexpectedCharacter(i)),
        }
    }
}

/// The tokens of `chars`.
pub fn lex(chars: &Vec<char>) -> (r: Result<Vec<Token>, LexError>)
    ensures
        match r {
            Ok(ts) => lex_spec(chars@) == Ok::<Seq<Token>, LexError>(ts@),
            Err(e) => lex_spec(chars@) == Err::<Seq<Token>, LexError>(e),
        },
{
    let ghost s = chars@;
    let mut out: Vec<Token> = Vec::new();
    let mut i: usize = 0;
    while i < chars.len()
        invariant
            i <= chars@.len(),
            s == chars@,
            lex_spec(s) == (match lex_from(s, i as int) {
                Ok(rest) => Ok(out@ + rest),
                Err(e) => Err(e),
            }),
        decreases chars@.len() - i,
    {
        let c = chars[i];
        if c == ' ' || c == '\t' || c == '\n' || c == '\r' || c == '\x0b' || c == '\x0c' {
            i = i + 1;
        } else {
            match token_at_exec(chars, i) {
                Err(e) => {
                    return Err(e);
                },
                Ok(t) => {
                    proof {
                        assert(s.len() <= usize::MAX);
                        lemma_token_at(s, i as int);
                        match lex_from(s, t.end as int) {
                            Ok(rest) => {
                                assert(out@ + (seq![t] + rest) =~= out@.push(t) + rest);
                            },
                            Err(_) => {},
                        }
                    }
                    out.push(t);
                    i = t.end;
                },
            }
        }
    }
    assert(out@ + Seq::<Token>::empty() =~= out@);
    Ok(out)
}

} // verus!
