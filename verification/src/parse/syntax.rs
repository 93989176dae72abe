//! The grammar of expressions, as relations between a stretch of tokens and
//! the syntax tree it denotes. `expression(src, i, j, e)` says that the
//! tokens `i..j` of `src` form the expression `e`; the other relations are
//! the levels of the grammar below it, from the comma operator down to
//! primary expressions. `statement(src, i, j, s)` does the same for
//! statements; declarations inside them are only located, not described.
use vstd::prelude::*;

use super::declarations::{
    declaration_in, declaration_rel, externals_rel, init_declarators_rel, local_declaration_in, named_of, nodes_of,
    parameter_split, plain_type_name_end, specifiers_rel, type_name_at,
};
use super::grammar::Src;
use super::lexer::{lex_spec, Keyword, LexError, Punct, Token, TokenKind};
use super::literal::{floating_constant_spec, integer_constant_spec, unescape};
use crate::ast::{
    AssignOperationEnum, BinaryOperationEnum, Declaration, Expression, ExpressionEnum, ForInitClause,
    ForInitClauseEnum, Span, Statement, StatementEnum, StatementOrDeclaration, StatementOrDeclarationEnum, Type,
    UnaryOperationEnum,
};

verus! {

/// The characters of token `k`.
pub open spec fn tok_text(src: Src, k: int) -> Seq<char> {
    src.chars@.subrange(src.toks@[k].start as int, src.toks@[k].end as int)
}

/// The span from the start of token `a` to the end of token `b - 1`.
pub open spec fn tok_span(src: Src, a: int, b: int) -> Span {
    Span { start: src.toks@[a].start, end: src.toks@[b - 1].end }
}

/// Whether token `k` is the punctuator `p`.
pub open spec fn is_punct(src: Src, k: int, p: Punct) -> bool {
    0 <= k < src.toks@.len() && src.toks@[k].kind == TokenKind::Punct(p)
}

/// Whether token `k` is the keyword `w`.
pub open spec fn is_keyword(src: Src, k: int, w: Keyword) -> bool {
    0 <= k < src.toks@.len() && src.toks@[k].kind == TokenKind::Keyword(w)
}

/// The keywords that specify a basic type.
pub open spec fn is_type_keyword_spec(k: Keyword) -> bool {
    k == Keyword::Void || k == Keyword::Char || k == Keyword::Short || k == Keyword::Int || k == Keyword::Long || k
        == Keyword::Signed || k == Keyword::Unsigned || k == Keyword::Bool || k == Keyword::Float || k
        == Keyword::Double
}

/// The keywords that qualify a type.
pub open spec fn is_qualifier_keyword(k: Keyword) -> bool {
    k == Keyword::Const || k == Keyword::Volatile || k == Keyword::Restrict || k == Keyword::Atomic
}

/// Whether a type name starts at token `k`: a type keyword, a qualifier,
/// `struct` or `union`.
pub open spec fn starts_type_name_spec(src: Src, k: int) -> bool {
    0 <= k < src.toks@.len() && match src.toks@[k].kind {
        TokenKind::Keyword(w) => is_type_keyword_spec(w) || is_qualifier_keyword(w) || w == Keyword::Struct || w
            == Keyword::Union,
        _ => false,
    }
}

/// The prefix operator a punctuator spells.
pub open spec fn prefix_op_spec(p: Punct) -> Option<UnaryOperationEnum> {
    if p == Punct::Inc {
        Some(UnaryOperationEnum::PrefixIncrement)
    } else if p == Punct::Dec {
        Some(UnaryOperationEnum::PrefixDecrement)
    } else if p == Punct::Plus {
        Some(UnaryOperationEnum::UnaryPlus)
    } else if p == Punct::Minus {
        Some(UnaryOperationEnum::UnaryMinus)
    } else if p == Punct::Bang {
        Some(UnaryOperationEnum::LogicalNot)
    } else if p == Punct::Tilde {
        Some(UnaryOperationEnum::BitwiseNot)
    } else if p == Punct::Star {
        Some(UnaryOperationEnum::Dereference)
    } else if p == Punct::Amp {
        Some(UnaryOperationEnum::Reference)
    } else {
        None
    }
}

/// The assignment operator a punctuator spells.
pub open spec fn assign_op_spec(p: Punct) -> Option<AssignOperationEnum> {
    if p == Punct::Assign {
        Some(AssignOperationEnum::Naive)
    } else if p == Punct::AddAssign {
        Some(AssignOperationEnum::Addition)
    } else if p == Punct::SubAssign {
        Some(AssignOperationEnum::Subtraction)
    } else if p == Punct::MulAssign {
        Some(AssignOperationEnum::Multiplication)
    } else if p == Punct::DivAssign {
        Some(AssignOperationEnum::Division)
    } else if p == Punct::ModAssign {
        Some(AssignOperationEnum::Modulo)
    } else if p == Punct::AndAssign {
        Some(AssignOperationEnum::BitwiseAnd)
    } else if p == Punct::OrAssign {
        Some(AssignOperationEnum::BitwiseOr)
    } else if p == Punct::XorAssign {
        Some(AssignOperationEnum::BitwiseXor)
    } else if p == Punct::ShlAssign {
        Some(AssignOperationEnum::LeftShift)
    } else if p == Punct::ShrAssign {
        Some(AssignOperationEnum::RightShift)
    } else {
        None
    }
}

/// The binary operator of precedence `level` (12 for `||` down to 3 for
/// `*`, `/`, `%`) that token kind `kind` spells.
pub open spec fn binary_op_spec(kind: TokenKind, level: int) -> Option<BinaryOperationEnum> {
    match kind {
        TokenKind::Punct(p) => if level == 12 && p == Punct::OrOr {
            Some(BinaryOperationEnum::LogicalOr)
        } else if level == 11 && p == Punct::AndAnd {
            Some(BinaryOperationEnum::LogicalAnd)
        } else if level == 10 && p == Punct::Pipe {
            Some(BinaryOperationEnum::BitwiseOr)
        } else if level == 9 && p == Punct::Caret {
            Some(BinaryOperationEnum::BitwiseXor)
        } else if level == 8 && p == Punct::Amp {
            Some(BinaryOperationEnum::BitwiseAnd)
        } else if level == 7 && p == Punct::EqEq {
            Some(BinaryOperationEnum::Equal)
        } else if level == 7 && p == Punct::Ne {
            Some(BinaryOperationEnum::NotEqual)
        } else if level == 6 && p == Punct::Lt {
            Some(BinaryOperationEnum::LessThan)
        } else if level == 6 && p == Punct::Gt {
            Some(BinaryOperationEnum::GreaterThan)
        } else if level == 6 && p == Punct::Le {
            Some(BinaryOperationEnum::LessThanOrEqual)
        } else if level == 6 && p == Punct::Ge {
            Some(BinaryOperationEnum::GreaterThanOrEqual)
        } else if level == 5 && p == Punct::Shl {
            Some(BinaryOperationEnum::LeftShift)
        } else if level == 5 && p == Punct::Shr {
            Some(BinaryOperationEnum::RightShift)
        } else if level == 4 && p == Punct::Plus {
            Some(BinaryOperationEnum::Addition)
        } else if level == 4 && p == Punct::Minus {
            Some(BinaryOperationEnum::Subtraction)
        } else if level == 3 && p == Punct::Star {
            Some(BinaryOperationEnum::Multiplication)
        } else if level == 3 && p == Punct::Slash {
            Some(BinaryOperationEnum::Division)
        } else if level == 3 && p == Punct::Percent {
            Some(BinaryOperationEnum::Modulo)
        } else {
            None
        },
        _ => None,
    }
}

/// Where lone operands separated by commas, starting at token `j`, end at
/// the closing `)`.
pub open spec fn atom_args_end(src: Src, j: int) -> Option<int>
    decreases src.toks@.len() - j,
{
    if atom_at(src, j) {
        if is_punct(src, j + 1, Punct::Comma) {
            atom_args_end(src, j + 2)
        } else if is_punct(src, j + 1, Punct::RParen) {
            Some(j + 1)
        } else {
            None
        }
    } else {
        None
    }
}

/// Arguments that are lone operands end at a `)`.
pub proof fn lemma_atom_args_end(src: Src, j: int)
    requires
        atom_args_end(src, j) is Some,
    ensures
        is_punct(src, atom_args_end(src, j)->0, Punct::RParen),
        j < atom_args_end(src, j)->0,
    decreases src.toks@.len() - j,
{
    if is_punct(src, j + 1, Punct::Comma) {
        lemma_atom_args_end(src, j + 2);
    }
}

/// Where the postfix operators after a lone operand, from token `k` on,
/// end: `++`, `--`, member accesses, subscripts and call arguments that are
/// lone operands, and casts to plain type names.
pub open spec fn simple_postfix_rest_end(src: Src, k: int) -> Option<int>
    decreases src.toks@.len() - k,
{
    let n = src.toks@.len();
    if k < 0 || k > n {
        None
    } else if is_punct(src, k, Punct::Inc) || is_punct(src, k, Punct::Dec) {
        simple_postfix_rest_end(src, k + 1)
    } else if is_punct(src, k, Punct::Dot) || is_punct(src, k, Punct::Arrow) {
        if k + 1 < n && src.toks@[k + 1].kind == TokenKind::Identifier {
            simple_postfix_rest_end(src, k + 2)
        } else {
            None
        }
    } else if is_punct(src, k, Punct::LBracket) {
        if atom_at(src, k + 1) && is_punct(src, k + 2, Punct::RBracket) {
            simple_postfix_rest_end(src, k + 3)
        } else {
            None
        }
    } else if is_punct(src, k, Punct::LParen) {
        if is_punct(src, k + 1, Punct::RParen) {
            simple_postfix_rest_end(src, k + 2)
        } else {
            match atom_args_end(src, k + 1) {
                Some(c) => if c <= k || c >= n {
                    None
                } else {
                    simple_postfix_rest_end(src, c + 1)
                },
                None => None,
            }
        }
    } else if is_keyword(src, k, Keyword::As) {
        match plain_type_name_end(src, k + 1) {
            Some(e) => if e <= k || e > n {
                None
            } else {
                simple_postfix_rest_end(src, e)
            },
            None => None,
        }
    } else {
        Some(k)
    }
}

/// Where a postfix expression over a lone operand that starts at token `p`
/// ends (`simple_postfix_rest_end`).
pub open spec fn simple_postfix_end(src: Src, p: int) -> Option<int> {
    if atom_at(src, p) {
        simple_postfix_rest_end(src, p + 1)
    } else {
        None
    }
}

/// Where an operand of precedence `level` made of lone operands and binary
/// operators, starting at token `p`, ends: below level 4 a lone operand
/// that no postfix operator follows, above it a chain of the level below.
#[verifier::opaque]
pub open spec fn flat_operand_end(src: Src, p: int, level: int) -> Option<int>
    decreases src.toks@.len() - p, level, 1int,
{
    if level <= 3 {
        simple_postfix_end(src, p)
    } else {
        flat_chain_end(src, p, level - 1)
    }
}

/// Where the rest of a chain of operators of precedence `level` that
/// continues at token `k` ends: each operator of that level and the operand
/// after it, until a token that is no such operator.
#[verifier::opaque]
pub open spec fn flat_rest_end(src: Src, k: int, level: int) -> Option<int>
    decreases src.toks@.len() - k, level, 0int,
{
    if 0 <= k < src.toks@.len() && binary_op_spec(src.toks@[k].kind, level) is Some {
        match flat_operand_end(src, k + 1, level) {
            Some(m) => if m <= k || m > src.toks@.len() {
                None
            } else {
                flat_rest_end(src, m, level)
            },
            None => None,
        }
    } else {
        Some(k)
    }
}

/// Where a chain of binary operators of precedence `level` or tighter over
/// lone operands, starting at token `p`, ends.
#[verifier::opaque]
pub open spec fn flat_chain_end(src: Src, p: int, level: int) -> Option<int>
    decreases src.toks@.len() - p, level, 2int,
{
    if level < 3 || level > 12 {
        None
    } else {
        match flat_operand_end(src, p, level) {
            Some(m) => if m <= p || m > src.toks@.len() {
                None
            } else {
                flat_rest_end(src, m, level)
            },
            None => None,
        }
    }
}

/// Where an assignment expression over lone operands that starts at token
/// `p` ends: lone operands each followed by an assignment operator, then a
/// chain of binary operators over lone operands that no `?` and no
/// assignment operator follows.
#[verifier::opaque]
pub open spec fn flat_assignment_end(src: Src, p: int) -> Option<int>
    decreases src.toks@.len() - p,
{
    if atom_at(src, p) && postfix_stops(src, p + 1) && p + 1 < src.toks@.len() && assign_op_at(src, p + 1) is Some {
        flat_assignment_end(src, p + 2)
    } else {
        match flat_chain_end(src, p, 12) {
            Some(n) => if is_punct(src, n, Punct::Question) || (0 <= n < src.toks@.len() && assign_op_at(src, n) is Some) {
                None
            } else {
                Some(n)
            },
            None => None,
        }
    }
}

/// Where the rest of an expression over lone operands that continues at
/// token `k` ends: commas, each followed by such an assignment expression.
#[verifier::opaque]
pub open spec fn flat_expression_rest_end(src: Src, k: int) -> Option<int>
    decreases src.toks@.len() - k,
{
    if is_punct(src, k, Punct::Comma) {
        match flat_assignment_end(src, k + 1) {
            Some(m) => if m <= k || m > src.toks@.len() {
                None
            } else {
                flat_expression_rest_end(src, m)
            },
            None => None,
        }
    } else {
        Some(k)
    }
}

/// Where an expression over lone operands that starts at token `p` ends:
/// assignment expressions joined by commas.
#[verifier::opaque]
pub open spec fn flat_expression_end(src: Src, p: int) -> Option<int> {
    match flat_assignment_end(src, p) {
        Some(m) => if m <= p {
            None
        } else {
            flat_expression_rest_end(src, m)
        },
        None => None,
    }
}

/// Token `p` is an operand on its own: an identifier, or an integer
/// constant that is well formed.
pub open spec fn atom_at(src: Src, p: int) -> bool {
    0 <= p < src.toks@.len() && (src.toks@[p].kind == TokenKind::Identifier || (src.toks@[p].kind
        == TokenKind::Integer && integer_constant_spec(tok_text(src, p), src.toks@[p].start) is Ok))
}

/// Token `n` closes any expression before it: the tokens end, or it is `,`,
/// `;`, `)`, `]`, `:` or `}`.
pub open spec fn closes_expression(src: Src, n: int) -> bool {
    n == src.toks@.len() || is_punct(src, n, Punct::Comma) || is_punct(src, n, Punct::Semicolon) || is_punct(
        src,
        n,
        Punct::RParen,
    ) || is_punct(src, n, Punct::RBracket) || is_punct(src, n, Punct::Colon) || is_punct(src, n, Punct::RBrace)
}

/// No binary operator of precedence `level` or tighter (down to 3) is at
/// token `n`: an operand chain that ends before `n` cannot go on there.
pub open spec fn binary_stops(src: Src, n: int, level: int) -> bool {
    0 <= n < src.toks@.len() ==> forall|l: int| 3 <= l <= level ==> #[trigger] binary_op_spec(src.toks@[n].kind, l) is None
}

/// A postfix expression that ends before token `n` cannot go on there: no
/// `(`, `[`, `.`, `->`, `++`, `--` or `as` is at `n`.
pub open spec fn postfix_stops(src: Src, n: int) -> bool {
    !(is_punct(src, n, Punct::LParen) || is_punct(src, n, Punct::LBracket) || is_punct(src, n, Punct::Dot)
        || is_punct(src, n, Punct::Arrow) || is_punct(src, n, Punct::Inc) || is_punct(src, n, Punct::Dec)
        || is_keyword(src, n, Keyword::As))
}

/// An assignment or conditional expression that ends before token `n`
/// cannot go on there: no binary operator and no `?` is at `n`.
pub open spec fn expression_stops(src: Src, n: int) -> bool {
    binary_stops(src, n, 12) && !is_punct(src, n, Punct::Question)
}

/// The assignment operator token `k` spells.
pub open spec fn assign_op_at(src: Src, k: int) -> Option<AssignOperationEnum> {
    match src.toks@[k].kind {
        TokenKind::Punct(p) => assign_op_spec(p),
        _ => None,
    }
}

/// A split of a postfix expression at token `k`, after the expression
/// `prev`. It holds of every split; it names the split for the solver.
pub open spec fn split_at(k: int, prev: Expression) -> bool {
    true
}

/// The single token `i` is a constant or a string literal denoting `e`.
pub open spec fn constant_at(src: Src, i: int, e: Expression) -> bool {
    let t = src.toks@[i];
    let body = src.chars@.subrange(t.start + 1, t.end - 1);
    &&& e.span == tok_span(src, i, i + 1)
    &&& match t.kind {
        TokenKind::Identifier => e.node matches ExpressionEnum::Identifier(s) && s@ == tok_text(src, i),
        TokenKind::Integer => integer_constant_spec(tok_text(src, i), t.start) == Ok::<ExpressionEnum, super::error::ParseError>(e.node),
        TokenKind::Floating => match floating_constant_spec(tok_text(src, i), t.start) {
            Ok((b, true)) => e.node matches ExpressionEnum::FloatConstant(s) && s@ == b,
            Ok((b, false)) => e.node matches ExpressionEnum::DoubleConstant(s) && s@ == b,
            Err(_) => false,
        },
        TokenKind::Character => t.end - t.start >= 2 && (e.node matches ExpressionEnum::CharacterConstant(c)
            && unescape(body) == Some(seq![c])),
        TokenKind::StringLiteral => t.end - t.start >= 2 && (e.node matches ExpressionEnum::StringLiteral(s)
            && unescape(body) == Some(s@)),
        _ => false,
    }
}

/// A primary expression: an identifier, a constant or a string literal, or
/// an expression in parentheses, which denotes the expression inside.
pub open spec fn primary(src: Src, i: int, j: int, e: Expression) -> bool
    decreases j - i, 0int,
{
    &&& 0 <= i < j <= src.toks@.len()
    &&& {
        ||| (j == i + 1 && constant_at(src, i, e))
        ||| (i + 2 < j && is_punct(src, i, Punct::LParen) && is_punct(src, j - 1, Punct::RParen) && expression(
            src,
            i + 1,
            j - 1,
            e,
        ))
    }
}

/// The arguments of a call in the tokens `a..b` between its parentheses:
/// assignment expressions separated by commas, or nothing.
pub open spec fn call_args(src: Src, a: int, b: int, args: Seq<Expression>) -> bool
    decreases b - a, 43int,
{
    if args.len() == 0 {
        a == b
    } else if args.len() == 1 {
        0 <= a < b && assignment(src, a, b, args[0])
    } else {
        0 <= a < b && exists|m: int|
            #![trigger is_punct(src, m, Punct::Comma)]
            a < m < b - 1 && is_punct(src, m, Punct::Comma) && call_args(src, a, m, args.drop_last()) && assignment(
                src,
                m + 1,
                b,
                args.last(),
            )
    }
}

/// What a postfix operator in the tokens `k..j` makes of the expression
/// `prev` before it: `++` and `--`, a call, a subscript (which adds its
/// index to a subscript before it), a member access with `.` or `->`, or a
/// cast with `as`. The result starts where `prev` does.
pub open spec fn postfix_step(src: Src, k: int, j: int, prev: Expression, e: Expression) -> bool
    decreases j - k, 44int,
{
    let start = prev.span.start;
    &&& 0 <= k < j <= src.toks@.len()
    &&& {
        ||| (j == k + 1 && e.span == Span { start, end: src.toks@[k].end } && (e.node matches ExpressionEnum::Unary(
            op,
            x,
        ) && *x == prev && op.span == tok_span(src, k, k + 1) && ((is_punct(src, k, Punct::Inc) && op.node
            == UnaryOperationEnum::PostfixIncrement) || (is_punct(src, k, Punct::Dec) && op.node
            == UnaryOperationEnum::PostfixDecrement))))
        ||| (k + 2 <= j && is_punct(src, k, Punct::LParen) && is_punct(src, j - 1, Punct::RParen) && e.span == Span {
            start,
            end: src.toks@[j - 1].end,
        } && (e.node matches ExpressionEnum::FunctionCall(f, args) && *f == prev && call_args(
            src,
            k + 1,
            j - 1,
            args@,
        )))
        ||| (k + 3 <= j && is_punct(src, k, Punct::LBracket) && is_punct(src, j - 1, Punct::RBracket) && e.span
            == Span { start, end: src.toks@[j - 2].end } && (e.node matches ExpressionEnum::ArraySubscript(b, idx)
            && idx@.len() >= 1 && expression(src, k + 1, j - 1, idx@.last()) && match prev.node {
            ExpressionEnum::ArraySubscript(pb, pidx) => b == pb && idx@.drop_last() == pidx@,
            _ => *b == prev && idx@.len() == 1,
        }))
        ||| (j == k + 2 && src.toks@[k + 1].kind == TokenKind::Identifier && e.span == Span {
            start,
            end: src.toks@[k + 1].end,
        } && ((is_punct(src, k, Punct::Dot) && (e.node matches ExpressionEnum::MemberOfObject(x, m) && *x == prev
            && m@ == tok_text(src, k + 1))) || (is_punct(src, k, Punct::Arrow)
            && (e.node matches ExpressionEnum::MemberOfPointer(x, m) && *x == prev && m@ == tok_text(src, k + 1)))))
        ||| (k + 1 < j && is_keyword(src, k, Keyword::As) && e.span == Span {
            start,
            end: src.toks@[j - 1].end,
        } && (e.node matches ExpressionEnum::TypeCast(t, x) && *x == prev && type_name_at(src, k + 1, j, t)))
    }
}

/// A postfix expression: a primary expression followed by postfix
/// operators, applied left to right.
pub open spec fn postfix(src: Src, i: int, j: int, e: Expression) -> bool
    decreases j - i, 1int,
{
    &&& 0 <= i < j <= src.toks@.len()
    &&& {
        ||| primary(src, i, j, e)
        ||| exists|k: int, prev: Expression|
            #![trigger split_at(k, prev)]
            split_at(k, prev) && i < k < j && postfix(src, i, k, prev) && postfix_step(src, k, j, prev, e)
    }
}

/// A unary expression: a postfix expression, a prefix operator applied to a
/// unary expression (`sizeof` among them), or `sizeof ( type name )`.
pub open spec fn unary(src: Src, i: int, j: int, e: Expression) -> bool
    decreases j - i, 2int,
{
    &&& 0 <= i < j <= src.toks@.len()
    &&& {
        ||| postfix(src, i, j, e)
        ||| (i + 1 < j && e.span == tok_span(src, i, j) && (e.node matches ExpressionEnum::Unary(op, x) && op.span
            == tok_span(src, i, i + 1) && unary(src, i + 1, j, *x) && (match src.toks@[i].kind {
            TokenKind::Punct(p) => prefix_op_spec(p) == Some(op.node),
            TokenKind::Keyword(w) => w == Keyword::Sizeof && op.node == UnaryOperationEnum::SizeofExpr && !(is_punct(
                src,
                i + 1,
                Punct::LParen,
            ) && starts_type_name_spec(src, i + 2)),
            _ => false,
        })))
        ||| (i + 3 < j && is_keyword(src, i, Keyword::Sizeof) && is_punct(src, i + 1, Punct::LParen)
            && starts_type_name_spec(src, i + 2) && is_punct(src, j - 1, Punct::RParen) && e.span == tok_span(
            src,
            i,
            j,
        ) && (e.node matches ExpressionEnum::SizeofType(t) && type_name_at(src, i + 2, j - 1, t)))
    }
}

/// The operand of an operator of precedence `level`: an expression of the
/// level below, or a unary expression below level 3.
pub open spec fn operand(src: Src, level: int, i: int, j: int, e: Expression) -> bool
    decreases j - i, 3 * level,
{
    if level < 3 || level > 12 {
        false
    } else if level == 3 {
        unary(src, i, j, e)
    } else {
        binary(src, level - 1, i, j, e)
    }
}

/// A chain of operands joined by operators of precedence `level`, grouped
/// from the left; each operator node spans `sp`, the whole chain, while a
/// lone operand keeps its own span.
pub open spec fn chain(src: Src, level: int, i: int, j: int, sp: Span, e: Expression) -> bool
    decreases j - i, 3 * level + 1,
{
    &&& 3 <= level <= 12
    &&& 0 <= i < j <= src.toks@.len()
    &&& {
        ||| operand(src, level, i, j, e)
        ||| (e.span == sp && (e.node matches ExpressionEnum::Binary(op, l, r) && exists|p: int|
            #![trigger binary_op_spec(src.toks@[p].kind, level)]
            i < p < j - 1 && chain(src, level, i, p, sp, *l) && binary_op_spec(src.toks@[p].kind, level) == Some(
                op.node,
            ) && op.span == tok_span(src, p, p + 1) && operand(src, level, p + 1, j, *r)))
    }
}

/// An expression of precedence `level` (12 for `||` down to 3 for `*`):
/// a chain of its operators spanning the tokens `i..j`.
pub open spec fn binary(src: Src, level: int, i: int, j: int, e: Expression) -> bool
    decreases j - i, 3 * level + 2,
{
    3 <= level <= 12 && 0 <= i < j <= src.toks@.len() && chain(src, level, i, j, tok_span(src, i, j), e)
}

/// A conditional expression `c ? t : f`, or a logical-or expression.
pub open spec fn conditional(src: Src, i: int, j: int, e: Expression) -> bool
    decreases j - i, 40int,
{
    &&& 0 <= i < j <= src.toks@.len()
    &&& {
        ||| binary(src, 12, i, j, e)
        ||| (e.span == tok_span(src, i, j) && (e.node matches ExpressionEnum::Conditional(c, t, f) && exists|
            q: int,
            r: int,
        |
            #![trigger is_punct(src, q, Punct::Question), is_punct(src, r, Punct::Colon)]
            i < q && q + 1 < r && r + 1 < j && binary(src, 12, i, q, *c) && is_punct(src, q, Punct::Question)
                && expression(src, q + 1, r, *t) && is_punct(src, r, Punct::Colon) && conditional(src, r + 1, j, *f)))
    }
}

/// An assignment `unary op assignment` (grouped from the right), or a
/// conditional expression.
pub open spec fn assignment(src: Src, i: int, j: int, e: Expression) -> bool
    decreases j - i, 41int,
{
    &&& 0 <= i < j <= src.toks@.len()
    &&& {
        ||| conditional(src, i, j, e)
        ||| (e.span == tok_span(src, i, j) && (e.node matches ExpressionEnum::Assignment(op, l, r) && exists|k: int|
            #![trigger assign_op_at(src, k)]
            i < k < j - 1 && unary(src, i, k, *l) && op.span == tok_span(src, k, k + 1) && assign_op_at(src, k) == Some(
                op.node,
            ) && assignment(src, k + 1, j, *r)))
    }
}

/// Assignment expressions joined by the comma operator, grouped from the
/// left; each comma node spans from its left operand to its end.
pub open spec fn expression(src: Src, i: int, j: int, e: Expression) -> bool
    decreases j - i, 42int,
{
    &&& 0 <= i < j <= src.toks@.len()
    &&& {
        ||| assignment(src, i, j, e)
        ||| (e.node matches ExpressionEnum::Binary(op, l, r) && (op.node == BinaryOperationEnum::Comma && e.span
            == Span { start: l.span.start, end: src.toks@[j - 1].end } && exists|k: int|
            #![trigger is_punct(src, k, Punct::Comma)]
            i < k < j - 1 && expression(src, i, k, *l) && is_punct(src, k, Punct::Comma) && op.span == tok_span(
                src,
                k,
                k + 1,
            ) && assignment(src, k + 1, j, *r)))
    }
}


/// `( expression )` over the tokens `a..b`.
pub open spec fn paren_expression(src: Src, a: int, b: int, e: Expression) -> bool {
    a + 2 < b && is_punct(src, a, Punct::LParen) && is_punct(src, b - 1, Punct::RParen) && expression(
        src,
        a + 1,
        b - 1,
        e,
    )
}

/// An optional expression over the tokens `a..b`: absent exactly when the
/// stretch is empty.
pub open spec fn optional_expression(src: Src, a: int, b: int, e: Option<Box<Expression>>) -> bool {
    match e {
        None => a == b,
        Some(x) => a < b && expression(src, a, b, *x),
    }
}

/// The first clause of a `for` over the tokens `a..b`: an expression, or
/// declarations made within those tokens: specifiers, then init declarators
/// that declare, in order, its variables.
pub open spec fn for_init(src: Src, a: int, b: int, c: ForInitClause) -> bool {
    &&& a < b
    &&& c.span == tok_span(src, a, b)
    &&& match c.node {
        ForInitClauseEnum::Expression(e) => expression(src, a, b, e),
        ForInitClauseEnum::ForDeclaration(ds) => (forall|q: int|
            0 <= q < ds@.len() ==> local_declaration_in(src, a, b, #[trigger] ds@[q], true)) && exists|k: int, ty: Type|
            #![trigger parameter_split(a, k, b, ty)]
            parameter_split(a, k, b, ty) && specifiers_rel(src, a, k, ty) && init_declarators_rel(
                src,
                k,
                b,
                ty,
                named_of(ds@),
            ),
    }
}

/// A local declaration of a compound statement, made within the tokens
/// `a..b` of one declaration, and spanning all of them, as the element that
/// holds it does.
pub open spec fn local_item(src: Src, a: int, b: int, it: StatementOrDeclaration) -> bool {
    it.span == tok_span(src, a, b) && (it.node matches StatementOrDeclarationEnum::LocalDeclaration(d) && d.span
        == it.span && local_declaration_in(src, a, b, d, false))
}

/// The declarations that the elements `g` hold, in order.
pub open spec fn group_decls(g: Seq<StatementOrDeclaration>) -> Seq<Declaration>
    decreases g.len(),
{
    if g.len() == 0 {
        Seq::empty()
    } else {
        match g.last().node {
            StatementOrDeclarationEnum::LocalDeclaration(d) => group_decls(g.drop_last()).push(d),
            StatementOrDeclarationEnum::Statement(_) => group_decls(g.drop_last()),
        }
    }
}

/// Where the last element group of a stretch begins, and how many elements
/// it has.
pub open spec fn block_split(a: int, c: int) -> bool {
    a >= 0 && c >= 0
}

/// The elements `g` that one element of a compound statement over the
/// tokens `a..b` gives: a statement spanning them, or the declarations that
/// a declaration there makes, each spanning it, whose variables are, in
/// order, those its declarators declare (`declaration_rel`).
pub open spec fn block_group(src: Src, a: int, b: int, g: Seq<StatementOrDeclaration>) -> bool
    decreases b - a, 3int,
{
    ||| (g.len() == 1 && g[0].span == tok_span(src, a, b) && (g[0].node matches StatementOrDeclarationEnum::Statement(
        st,
    ) && statement(src, a, b, st)))
    ||| ((forall|q: int| 0 <= q < g.len() ==> local_item(src, a, b, #[trigger] g[q])) && exists|vs: Seq<Declaration>|
        #![trigger declaration_rel(src, a, b, vs)]
        declaration_rel(src, a, b, vs) && nodes_of(named_of(group_decls(g))) == nodes_of(vs))
}

/// The tokens `lo..hi` between the braces of a compound statement are its
/// elements `items`: statements and declarations one after another, in
/// order, each giving its elements (`block_group`).
pub open spec fn block_items(src: Src, lo: int, hi: int, items: Seq<StatementOrDeclaration>) -> bool
    decreases hi - lo, 4int,
{
    if hi <= lo {
        hi == lo && items.len() == 0
    } else {
        exists|a: int, c: int|
            #![trigger block_split(a, c)]
            block_split(a, c) && lo <= a < hi && c <= items.len() && block_items(src, lo, a, items.take(items.len() - c))
                && block_group(src, a, hi, items.skip(items.len() - c))
    }
}

/// One more element group after the elements of a stretch.
#[verifier::rlimit(40)]
pub proof fn lemma_block_items_push(
    src: Src,
    lo: int,
    a: int,
    hi: int,
    items: Seq<StatementOrDeclaration>,
    g: Seq<StatementOrDeclaration>,
)
    requires
        block_items(src, lo, a, items),
        block_group(src, a, hi, g),
        lo <= a < hi,
    ensures
        block_items(src, lo, hi, items + g),
{
    let all = items + g;
    assert(all.take(all.len() - g.len()) =~= items);
    assert(all.skip(all.len() - g.len()) =~= g);
    assert(block_split(a, g.len() as int));
}

/// The declarations of elements with one more declaration.
pub proof fn lemma_group_decls_push(g: Seq<StatementOrDeclaration>, it: StatementOrDeclaration, d: Declaration)
    requires
        it.node == StatementOrDeclarationEnum::LocalDeclaration(d),
    ensures
        group_decls(g.push(it)) == group_decls(g).push(d),
{
    assert(g.push(it).drop_last() =~= g);
}

/// A statement over the tokens `i..j`, which it spans: a labeled statement,
/// `case` and `default`, a compound statement, `if` (taking an `else` that
/// follows), `switch`, `while`, `do`, `for`, `break`, `continue`,
/// `return`, `goto`, the empty statement, or an expression followed by `;`.
pub open spec fn statement(src: Src, i: int, j: int, s: Statement) -> bool
    decreases j - i, 2int,
{
    &&& 0 <= i < j <= src.toks@.len()
    &&& s.span == tok_span(src, i, j)
    &&& {
        ||| (src.toks@[i].kind == TokenKind::Identifier && is_punct(src, i + 1, Punct::Colon) && i + 2 < j && (
        s.node matches StatementEnum::Labeled(l, b) && l@ == tok_text(src, i) && statement(src, i + 2, j, *b)))
        ||| (is_keyword(src, i, Keyword::Case) && (s.node matches StatementEnum::Case(Some(e), b) && exists|k: int|
            #![trigger src.toks@[k]]
            i + 1 < k && k + 1 < j && assignment(src, i + 1, k, *e) && is_punct(src, k, Punct::Colon) && statement(
                src,
                k + 1,
                j,
                *b,
            )))
        ||| (is_keyword(src, i, Keyword::Default) && is_punct(src, i + 1, Punct::Colon) && i + 2 < j && (
        s.node matches StatementEnum::Case(None, b) && statement(src, i + 2, j, *b)))
        ||| (is_punct(src, i, Punct::LBrace) && is_punct(src, j - 1, Punct::RBrace) && i + 1 < j && (
        s.node matches StatementEnum::Compound(items) && block_items(src, i + 1, j - 1, items@)))
        ||| (is_keyword(src, i, Keyword::If) && (s.node matches StatementEnum::If(c, t, f) && exists|k: int|
            #![trigger src.toks@[k]]
            i + 1 < k < j && paren_expression(src, i + 1, k, *c) && match f {
                None => statement(src, k, j, *t) && !is_keyword(src, j, Keyword::Else),
                Some(g) => exists|m: int|
                    #![trigger src.toks@[m]]
                    k < m && m + 1 < j && statement(src, k, m, *t) && is_keyword(src, m, Keyword::Else) && statement(
                        src,
                        m + 1,
                        j,
                        *g,
                    ),
            }))
        ||| (is_keyword(src, i, Keyword::Switch) && (s.node matches StatementEnum::Switch(c, b) && exists|k: int|
            #![trigger src.toks@[k]]
            i + 1 < k < j && paren_expression(src, i + 1, k, *c) && statement(src, k, j, *b)))
        ||| (is_keyword(src, i, Keyword::While) && (s.node matches StatementEnum::While(c, b) && exists|k: int|
            #![trigger src.toks@[k]]
            i + 1 < k < j && paren_expression(src, i + 1, k, *c) && statement(src, k, j, *b)))
        ||| (is_keyword(src, i, Keyword::Do) && is_punct(src, j - 1, Punct::Semicolon) && (
        s.node matches StatementEnum::DoWhile(b, c) && exists|k: int|
            #![trigger src.toks@[k]]
            i + 1 < k && k + 1 < j - 1 && statement(src, i + 1, k, *b) && is_keyword(src, k, Keyword::While)
                && paren_expression(src, k + 1, j - 1, *c)))
        ||| (is_keyword(src, i, Keyword::For) && is_punct(src, i + 1, Punct::LParen) && (
        s.node matches StatementEnum::For(init, cond, iter, b) && exists|a: int, c: int, d: int|
            #![trigger src.toks@[a], src.toks@[c], src.toks@[d]]
            i + 2 <= a < c < d < j - 1 && is_punct(src, a, Punct::Semicolon) && is_punct(src, c, Punct::Semicolon)
                && is_punct(src, d, Punct::RParen) && match init {
                None => a == i + 2,
                Some(x) => for_init(src, i + 2, a, *x),
            } && optional_expression(src, a + 1, c, cond) && optional_expression(src, c + 1, d, iter) && statement(
                src,
                d + 1,
                j,
                *b,
            )))
        ||| (is_keyword(src, i, Keyword::Break) && j == i + 2 && is_punct(src, i + 1, Punct::Semicolon)
            && s.node is Break)
        ||| (is_keyword(src, i, Keyword::Continue) && j == i + 2 && is_punct(src, i + 1, Punct::Semicolon)
            && s.node is Continue)
        ||| (is_keyword(src, i, Keyword::Return) && is_punct(src, j - 1, Punct::Semicolon) && (
        s.node matches StatementEnum::Return(e) && optional_expression(src, i + 1, j - 1, e)))
        ||| (is_keyword(src, i, Keyword::Goto) && j == i + 3 && src.toks@[i + 1].kind == TokenKind::Identifier
            && is_punct(src, i + 2, Punct::Semicolon) && (s.node matches StatementEnum::Goto(l) && l@ == tok_text(
            src,
            i + 1,
        )))
        ||| (j == i + 1 && is_punct(src, i, Punct::Semicolon) && (s.node matches StatementEnum::Expression(x)
            && x.node is Empty && x.span == tok_span(src, i, j)))
        ||| (i + 1 < j && is_punct(src, j - 1, Punct::Semicolon) && (s.node matches StatementEnum::Expression(x)
            && expression(src, i, j - 1, *x)))
    }
}

/// Every declaration of `ds` is declared or defined by the tokens of `src`.
pub open spec fn all_declared(src: Src, ds: Seq<Declaration>) -> bool {
    forall|q: int| 0 <= q < ds.len() ==> declaration_in(src, 0, src.toks@.len() as int, #[trigger] ds[q])
}

/// The global declarations `ds` are parsed from `code`: with the
/// characters of `code` and their tokens, each is declared or defined by the
/// tokens (`declaration_in`), and the tokens are external declarations one
/// after another, whose function definitions and variables are those of
/// `ds`, in order (`externals_rel`).
pub open spec fn program_parsed(code: Seq<char>, ds: Seq<Declaration>) -> bool {
    exists|src: Src|
        #![trigger all_declared(src, ds)]
        src.chars@ == code && lex_spec(code) == Ok::<Seq<Token>, LexError>(src.toks@) && all_declared(src, ds)
            && externals_rel(src, src.toks@.len() as int, named_of(ds))
}

} // verus!
