//! What the generator's choices compute: the values the integer
//! instructions, the unary updates and the integer conversions give, and the
//! laws that tie each choice to the C operation it lowers.
use vstd::prelude::*;

use super::access::compound_operator;
use super::cast_inst::{cast_opcode, CastOpcode};
use super::plan::{int_instruction, is_integer, unary_plan_spec, IntInstruction, IntPredicateKind, UnaryPlan};
use crate::parse::lexer::{punct_at, Punct, TokenKind};
use crate::parse::syntax::{assign_op_spec, binary_op_spec};
use crate::ast::{AssignOperationEnum, BaseType, BinaryOperationEnum, IntegerType, UnaryOperationEnum};

verus! {

/// The absolute value of `a`.
pub open spec fn abs(a: int) -> int {
    if a < 0 {
        -a
    } else {
        a
    }
}

/// C's integer division: the quotient rounded toward zero.
pub open spec fn trunc_div(a: int, b: int) -> int {
    if (a >= 0) == (b > 0) || a == 0 {
        abs(a) / abs(b)
    } else {
        -(abs(a) / abs(b))
    }
}

/// The truth value `c` as an integer: 1 or 0.
pub open spec fn truth(c: bool) -> int {
    if c {
        1
    } else {
        0
    }
}

/// The value an integer instruction computes from the operands `a` and `b`,
/// read as mathematical integers (the machine then keeps the low bits): the
/// sum, difference and product, the quotient rounded toward zero and the
/// remainder that goes with it (for a nonzero `b`), the comparisons and the
/// logical operators as 1 or 0. The bitwise instructions and shifts are
/// not described here (`None`).
pub open spec fn int_inst_value(i: IntInstruction, a: int, b: int) -> Option<int> {
    match i {
        IntInstruction::Add => Some(a + b),
        IntInstruction::Sub => Some(a - b),
        IntInstruction::Mul => Some(a * b),
        IntInstruction::SignedDiv => if b != 0 {
            Some(trunc_div(a, b))
        } else {
            None
        },
        IntInstruction::SignedRem => if b != 0 {
            Some(a - trunc_div(a, b) * b)
        } else {
            None
        },
        IntInstruction::Compare(p) => Some(
            truth(
                match p {
                    IntPredicateKind::SignedLess => a < b,
                    IntPredicateKind::SignedLessOrEqual => a <= b,
                    IntPredicateKind::SignedGreater => a > b,
                    IntPredicateKind::SignedGreaterOrEqual => a >= b,
                    IntPredicateKind::Equal => a == b,
                    IntPredicateKind::NotEqual => a != b,
                },
            ),
        ),
        IntInstruction::LogicalAnd => Some(truth(a != 0 && b != 0)),
        IntInstruction::LogicalOr => Some(truth(a != 0 || b != 0)),
        _ => None,
    }
}

/// The value binary operator `op` gives on integer operands `a` and `b`,
/// through the instruction it lowers to.
pub open spec fn int_op_value(op: BinaryOperationEnum, a: int, b: int) -> Option<int> {
    match int_instruction(op) {
        Some(i) => int_inst_value(i, a, b),
        None => None,
    }
}

proof fn lemma_trunc_div_mod(a: int, b: int)
    requires
        b != 0,
    ensures
        abs(a - trunc_div(a, b) * b) < abs(b),
        a - trunc_div(a, b) * b == 0 || (a - trunc_div(a, b) * b < 0) == (a < 0),
{
    let aa = abs(a);
    let bb = abs(b);
    let q = aa / bb;
    let r = aa % bb;
    vstd::arithmetic::div_mod::lemma_fundamental_div_mod(aa, bb);
    vstd::arithmetic::div_mod::lemma_mod_pos_bound(aa, bb);
    assert(aa == bb * q + r);
    if a >= 0 && b > 0 {
        assert(a - trunc_div(a, b) * b == r) by (nonlinear_arith)
            requires
                aa == a,
                bb == b,
                trunc_div(a, b) == q,
                aa == bb * q + r,
        ;
    } else if a >= 0 && b < 0 {
        if a == 0 {
            assert(q == 0) by (nonlinear_arith)
                requires
                    aa == 0,
                    bb > 0,
                    aa == bb * q + r,
                    0 <= r < bb,
            ;
            assert(a - trunc_div(a, b) * b == 0) by (nonlinear_arith)
                requires
                    a == 0,
                    trunc_div(a, b) == q,
                    q == 0,
            ;
        } else {
            assert(a - trunc_div(a, b) * b == r) by (nonlinear_arith)
                requires
                    aa == a,
                    bb == -b,
                    trunc_div(a, b) == -q,
                    aa == bb * q + r,
            ;
        }
    } else if a < 0 && b > 0 {
        assert(a - trunc_div(a, b) * b == -r) by (nonlinear_arith)
            requires
                aa == -a,
                bb == b,
                trunc_div(a, b) == -q,
                aa == bb * q + r,
        ;
    } else {
        assert(a - trunc_div(a, b) * b == -r) by (nonlinear_arith)
            requires
                aa == -a,
                bb == -b,
                trunc_div(a, b) == q,
                aa == bb * q + r,
        ;
    }
}

/// The integer operators compute C's arithmetic (C99 6.5.5 to 6.5.14):
/// `+`, `-` and `*` the sum, difference and product; for a nonzero divisor
/// `/` and `%` a quotient and a remainder with `(a / b) * b + a % b == a`,
/// the remainder smaller than the divisor in size and of the sign of the
/// dividend (so the quotient is rounded toward zero); the comparisons and
/// `&&`, `||` give 1 when they hold and 0 when not.
pub proof fn law_integer_operators_compute_c_arithmetic(a: int, b: int)
    ensures
        int_op_value(BinaryOperationEnum::Addition, a, b) == Some(a + b),
        int_op_value(BinaryOperationEnum::Subtraction, a, b) == Some(a - b),
        int_op_value(BinaryOperationEnum::Multiplication, a, b) == Some(a * b),
        b != 0 ==> (int_op_value(BinaryOperationEnum::Division, a, b) matches Some(q) && (int_op_value(
            BinaryOperationEnum::Modulo,
            a,
            b,
        ) matches Some(r) && q * b + r == a && abs(r) < abs(b) && (r == 0 || (r < 0) == (a < 0)))),
        int_op_value(BinaryOperationEnum::LessThan, a, b) == Some(truth(a < b)),
        int_op_value(BinaryOperationEnum::LessThanOrEqual, a, b) == Some(truth(a <= b)),
        int_op_value(BinaryOperationEnum::GreaterThan, a, b) == Some(truth(a > b)),
        int_op_value(BinaryOperationEnum::GreaterThanOrEqual, a, b) == Some(truth(a >= b)),
        int_op_value(BinaryOperationEnum::Equal, a, b) == Some(truth(a == b)),
        int_op_value(BinaryOperationEnum::NotEqual, a, b) == Some(truth(a != b)),
        int_op_value(BinaryOperationEnum::LogicalAnd, a, b) == Some(truth(a != 0 && b != 0)),
        int_op_value(BinaryOperationEnum::LogicalOr, a, b) == Some(truth(a != 0 || b != 0)),
{
    if b != 0 {
        lemma_trunc_div_mod(a, b);
    }
}

/// The width in bits of the machine integers of an integer type.
pub open spec fn int_width(i: IntegerType) -> nat {
    match i {
        IntegerType::Char => 8,
        IntegerType::Short => 16,
        IntegerType::Int => 32,
        IntegerType::Long | IntegerType::LongLong => 64,
    }
}

/// Two to the power `w`, for the widths of the integer types.
pub open spec fn pow2_width(w: nat) -> int {
    if w == 8 {
        0x100
    } else if w == 16 {
        0x10000
    } else if w == 32 {
        0x1_0000_0000
    } else {
        0x1_0000_0000_0000_0000
    }
}

/// Whether an integer type is signed, and its width; `None` for the other
/// types.
pub open spec fn int_format(t: BaseType) -> Option<(bool, nat)> {
    match t {
        BaseType::SignedInteger(i) => Some((true, int_width(i))),
        BaseType::UnsignedInteger(i) => Some((false, int_width(i))),
        _ => None,
    }
}

/// The value the bit pattern `p` (`0 <= p < 2^w`) stands for in a `w`-bit
/// integer, two's complement when `signed`.
pub open spec fn pattern_value(signed: bool, w: nat, p: int) -> int {
    if signed && p >= pow2_width(w) / 2 {
        p - pow2_width(w)
    } else {
        p
    }
}

/// Whether the value `v` is one an integer type holds.
pub open spec fn int_in_range(t: BaseType, v: int) -> bool {
    match int_format(t) {
        Some((signed, w)) => if signed {
            -(pow2_width(w) / 2) <= v < pow2_width(w) / 2
        } else {
            0 <= v < pow2_width(w)
        },
        None => false,
    }
}

/// The value a conversion instruction gives when it converts the value `v`
/// of integer type `from` to integer type `to`: the bits of `v` are extended
/// with copies of the sign bit (`SExt`) or with zeros (`ZExt`), or kept as
/// they are (`BitCast`, `Trunc`), cut to the width of `to`, and read as a
/// value of `to`.
pub open spec fn int_cast_value(op: CastOpcode, from: BaseType, to: BaseType, v: int) -> Option<int> {
    match (int_format(from), int_format(to)) {
        (Some((sf, wf)), Some((st, wt))) => {
            let p = v % pow2_width(wf);
            match op {
                CastOpcode::SExt => Some(pattern_value(st, wt, pattern_value(true, wf, p) % pow2_width(wt))),
                CastOpcode::ZExt | CastOpcode::Trunc | CastOpcode::BitCast => Some(
                    pattern_value(st, wt, p % pow2_width(wt)),
                ),
                _ => None,
            }
        },
        _ => None,
    }
}

proof fn lemma_pattern_round_trip(t: BaseType, v: int)
    requires
        int_in_range(t, v),
    ensures
        int_format(t) matches Some((s, w)) && pattern_value(s, w, v % pow2_width(w)) == v,
{
}

proof fn lemma_cut(v: int, wf: nat, wt: nat)
    requires
        wf == 8 || wf == 16 || wf == 32 || wf == 64,
        wt == 8 || wt == 16 || wt == 32 || wt == 64,
        wt <= wf,
    ensures
        (v % pow2_width(wf)) % pow2_width(wt) == v % pow2_width(wt),
{
    let pf = pow2_width(wf);
    let pt = pow2_width(wt);
    let k: int = if wf == wt {
        1
    } else if wf == 16 {
        0x100
    } else if wf == 32 && wt == 8 {
        0x100_0000
    } else if wf == 32 {
        0x1_0000
    } else if wt == 8 {
        0x100_0000_0000_0000
    } else if wt == 16 {
        0x1_0000_0000_0000
    } else {
        0x1_0000_0000
    };
    assert(pf == pt * k);
    vstd::arithmetic::div_mod::lemma_mod_mod(v, pt, k);
}

/// Converting between integer types keeps every value both types hold: for
/// any integer source and destination (but a `long long` to itself, which
/// needs no conversion), the instruction chosen takes `v` to `v`. Widening a
/// signed value sign-extends it, so `(int)(short)-1 == -1`. From a
/// character type this holds of the values 0 to 127: a signed `char` is
/// widened with zeros and an `unsigned char` with copies of its top bit.
pub proof fn law_integer_casts_keep_values(from: BaseType, to: BaseType, v: int)
    requires
        int_format(from) is Some,
        int_format(to) is Some,
        (from matches BaseType::SignedInteger(IntegerType::Char) || from matches BaseType::UnsignedInteger(
            IntegerType::Char,
        )) ==> 0 <= v < 0x80,
        !(from == to && (from matches BaseType::SignedInteger(IntegerType::LongLong) || from matches BaseType::UnsignedInteger(IntegerType::LongLong))),
        int_in_range(from, v),
        int_in_range(to, v),
    ensures
        cast_opcode(from, to) matches Some(op) && int_cast_value(op, from, to, v) == Some(v),
{
    let (sf, wf) = int_format(from)->0;
    let (st, wt) = int_format(to)->0;
    lemma_pattern_round_trip(from, v);
    lemma_pattern_round_trip(to, v);
    if wt <= wf {
        lemma_cut(v, wf, wt);
    } else {
        lemma_cut(v, wt, wf);
    }
}

/// Increments and decrements, prefix or postfix, on any integer operand:
/// the operand is updated through the compound assignment the plan names,
/// whose operator takes `x` to `x + 1` for `++` and to `x - 1` for `--`;
/// the postfix forms give the value from before the update, the prefix
/// forms the updated one.
pub proof fn law_increments_add_and_decrements_subtract(op: UnaryOperationEnum, t: BaseType, x: int)
    requires
        is_integer(t),
        op is PrefixIncrement || op is PostfixIncrement || op is PrefixDecrement || op is PostfixDecrement,
    ensures
        unary_plan_spec(op, t) matches Some(UnaryPlan::Update { op: a, postfix }) && postfix == (op is PostfixIncrement
            || op is PostfixDecrement) && (compound_operator(a) matches Some(b) && int_op_value(b, x, 1) == Some(
            if op is PrefixIncrement || op is PostfixIncrement {
                x + 1
            } else {
                x - 1
            },
        )),
{
}

/// A compound assignment applies the operator it is spelled with: where a
/// punctuator is spelled as an arithmetic, bitwise or shift operator
/// followed by `=` (`-=` is `-` and `=`), it is an assignment operator whose
/// operation is that binary operator (`a -= b` stores `a - b`).
pub proof fn law_compound_assignments_apply_their_operator(s: Seq<char>, p: Punct, q: Punct, level: int)
    requires
        s.len() >= 2,
        s.last() == '=',
        punct_at(s, 0) == Some((p, s.len() as int)),
        punct_at(s.drop_last(), 0) == Some((q, s.len() - 1)),
        3 <= level <= 12,
        level != 6 && level != 7,
        binary_op_spec(TokenKind::Punct(q), level) is Some,
    ensures
        assign_op_spec(p) matches Some(a) && compound_operator(a) == binary_op_spec(TokenKind::Punct(q), level),
{
}

} // verus!
