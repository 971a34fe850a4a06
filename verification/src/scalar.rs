//! Real numbers as the library holds them.
//!
//! A real number is carried as the bit pattern of an IEEE 754 binary64
//! number. Order and sign are read off the pattern here. Sums, products,
//! roots and the like are asked of the host, through one function value that
//! takes an operation and the patterns of its operands and answers the
//! pattern of the result.

use vstd::prelude::*;

verus! {

/// The pattern whose only set bit is the sign bit (negative zero).
pub const SIGN_BIT: u64 = 0x8000_0000_0000_0000;

/// The pattern of positive infinity. Every pattern whose magnitude is larger
/// is a NaN.
pub const INFINITY: u64 = 0x7FF0_0000_0000_0000;

/// The pattern of positive zero.
pub const ZERO: u64 = 0;

/// The pattern of 1.
pub const ONE: u64 = 0x3FF0_0000_0000_0000;

/// The pattern of 2.
pub const TWO: u64 = 0x4000_0000_0000_0000;

/// The pattern of 0.5.
pub const HALF: u64 = 0x3FE0_0000_0000_0000;

/// The pattern with the sign bit cleared.
pub open spec fn spec_magnitude(bits: u64) -> u64 {
    if bits >= SIGN_BIT {
        (bits - SIGN_BIT) as u64
    } else {
        bits
    }
}

/// Whether the pattern is a NaN.
pub open spec fn spec_is_nan(bits: u64) -> bool {
    spec_magnitude(bits) > INFINITY
}

/// Place of a non-NaN pattern on the number line: patterns with a clear sign
/// bit grow with their magnitude, patterns with a set sign bit fall with it,
/// and the two zeros share the place 0.
pub open spec fn spec_rank(bits: u64) -> int {
    if bits >= SIGN_BIT {
        -(spec_magnitude(bits) as int)
    } else {
        bits as int
    }
}

/// The comparison `a > b` of the two numbers: false as soon as one of them
/// is a NaN.
pub open spec fn spec_greater(a: u64, b: u64) -> bool {
    !spec_is_nan(a) && !spec_is_nan(b) && spec_rank(a) > spec_rank(b)
}

/// The comparison `bits > 0`.
pub open spec fn spec_is_positive(bits: u64) -> bool {
    spec_greater(bits, ZERO)
}

/// The comparison `a >= b` of the two numbers: false as soon as one of them
/// is a NaN.
pub open spec fn spec_not_less(a: u64, b: u64) -> bool {
    !spec_is_nan(a) && !spec_is_nan(b) && spec_rank(a) >= spec_rank(b)
}

/// The larger of `a` and `floor`, and `floor` where `a` is a NaN.
pub open spec fn spec_at_least(a: u64, floor: u64) -> u64 {
    if spec_greater(a, floor) {
        a
    } else {
        floor
    }
}

/// The smaller of `a` and `cap`, and `cap` where `a` is a NaN.
pub open spec fn spec_at_most(a: u64, cap: u64) -> u64 {
    if spec_greater(cap, a) {
        a
    } else {
        cap
    }
}

/// The pattern with the sign bit cleared.
#[verifier::when_used_as_spec(spec_magnitude)]
pub fn magnitude(bits: u64) -> (r: u64)
    ensures
        r == spec_magnitude(bits),
{
    if bits >= SIGN_BIT {
        bits - SIGN_BIT
    } else {
        bits
    }
}

/// Whether the pattern is a NaN.
#[verifier::when_used_as_spec(spec_is_nan)]
pub fn is_nan(bits: u64) -> (r: bool)
    ensures
        r == spec_is_nan(bits),
{
    magnitude(bits) > INFINITY
}

/// The comparison `a > b`.
#[verifier::when_used_as_spec(spec_greater)]
pub fn greater(a: u64, b: u64) -> (r: bool)
    ensures
        r == spec_greater(a, b),
{
    let ma: u64 = magnitude(a);
    let mb: u64 = magnitude(b);
    if ma > INFINITY || mb > INFINITY {
        false
    } else if a < SIGN_BIT && b < SIGN_BIT {
        ma > mb
    } else if a >= SIGN_BIT && b >= SIGN_BIT {
        ma < mb
    } else if a >= SIGN_BIT {
        false
    } else {
        ma > 0 || mb > 0
    }
}

/// The comparison `bits > 0`.
#[verifier::when_used_as_spec(spec_is_positive)]
pub fn is_positive(bits: u64) -> (r: bool)
    ensures
        r == spec_is_positive(bits),
{
    0 < bits && bits <= INFINITY
}

/// The comparison `a >= b`.
#[verifier::when_used_as_spec(spec_not_less)]
pub fn not_less(a: u64, b: u64) -> (r: bool)
    ensures
        r == spec_not_less(a, b),
{
    if is_nan(a) || is_nan(b) {
        false
    } else {
        !greater(b, a)
    }
}

/// The larger of `a` and `floor`, and `floor` where `a` is a NaN.
#[verifier::when_used_as_spec(spec_at_least)]
pub fn at_least(a: u64, floor: u64) -> (r: u64)
    ensures
        r == spec_at_least(a, floor),
{
    if greater(a, floor) {
        a
    } else {
        floor
    }
}

/// The smaller of `a` and `cap`, and `cap` where `a` is a NaN.
#[verifier::when_used_as_spec(spec_at_most)]
pub fn at_most(a: u64, cap: u64) -> (r: u64)
    ensures
        r == spec_at_most(a, cap),
{
    if greater(cap, a) {
        a
    } else {
        cap
    }
}

/// The pattern of the number with the opposite sign.
pub open spec fn spec_negate(bits: u64) -> u64 {
    if bits >= SIGN_BIT {
        (bits - SIGN_BIT) as u64
    } else {
        (bits + SIGN_BIT) as u64
    }
}

/// The pattern of the number with the opposite sign.
#[verifier::when_used_as_spec(spec_negate)]
pub fn negate(bits: u64) -> (r: u64)
    ensures
        r == spec_negate(bits),
{
    if bits >= SIGN_BIT {
        bits - SIGN_BIT
    } else {
        bits + SIGN_BIT
    }
}

/// The operations that the host's arithmetic answers. Operands and answers
/// are patterns unless it is said otherwise; an operation of one operand
/// takes it as its first.
#[derive(Clone, Copy, PartialEq, Eq, Structural, Debug)]
pub enum Op {
    /// The sum of the operands.
    Add,
    /// The first operand less the second.
    Sub,
    /// The product of the operands.
    Mul,
    /// The first operand divided by the second.
    Div,
    /// The square root of the operand.
    Sqrt,
    /// The sine of the operand.
    Sin,
    /// The cosine of the operand.
    Cos,
    /// The first operand to the power of the second, which is an integer
    /// and no pattern.
    Powi,
    /// The least remainder of the first operand by the second that is not
    /// negative.
    RemEuclid,
    /// The number that an integer is. The first operand is the magnitude of
    /// the integer and no pattern; the second is 1 where the integer is
    /// negative and 0 where it is not.
    FromInt,
    /// The operand without its fraction, kept within 0 and the largest
    /// `u64`, and 0 for what is not a number. The answer is that integer
    /// and no pattern.
    ToInt,
    /// The operand without its fraction, kept within the least and the
    /// largest `i32`, and 0 for what is not a number. The answer holds that
    /// integer in its lower 32 bits, in two's complement, and is no pattern.
    ToSigned,
    /// The first operand to the power of the second.
    Powf,
}

/// An arithmetic as a function of mathematics: from an operation and its
/// operands to the answer.
pub type Arithmetic = spec_fn(Op, u64, u64) -> u64;

/// What the function value answers for an operation and its operands.
pub open spec fn eval<R: Fn(Op, u64, u64) -> u64>(reals: R, op: Op, a: u64, b: u64) -> u64 {
    choose|r: u64| call_ensures(reals, (op, a, b), r)
}

/// The function value is an arithmetic: it accepts every operation on every
/// operand, and its answer depends on the operation and the operands alone.
pub open spec fn is_arithmetic<R: Fn(Op, u64, u64) -> u64>(reals: R) -> bool {
    &&& forall|op: Op, a: u64, b: u64| #[trigger] call_requires(reals, (op, a, b))
    &&& forall|op: Op, a: u64, b: u64, r: u64| #[trigger]
        call_ensures(reals, (op, a, b), r) ==> r == eval(reals, op, a, b)
}

/// The function value as a function of mathematics: what it answers for
/// each operation and operands.
pub open spec fn answers<R: Fn(Op, u64, u64) -> u64>(reals: R) -> Arithmetic {
    |op: Op, a: u64, b: u64| eval(reals, op, a, b)
}

/// `a + b`.
pub open spec fn spec_sum(reals: Arithmetic, a: u64, b: u64) -> u64 {
    reals(Op::Add, a, b)
}

/// `a - b`.
pub open spec fn spec_difference(reals: Arithmetic, a: u64, b: u64) -> u64 {
    reals(Op::Sub, a, b)
}

/// `a * b`.
pub open spec fn spec_product(reals: Arithmetic, a: u64, b: u64) -> u64 {
    reals(Op::Mul, a, b)
}

/// `a / b`.
pub open spec fn spec_quotient(reals: Arithmetic, a: u64, b: u64) -> u64 {
    reals(Op::Div, a, b)
}

/// The square root of `a`.
pub open spec fn spec_square_root(reals: Arithmetic, a: u64) -> u64 {
    reals(Op::Sqrt, a, ZERO)
}

/// The sine of `a`.
pub open spec fn spec_sine(reals: Arithmetic, a: u64) -> u64 {
    reals(Op::Sin, a, ZERO)
}

/// The cosine of `a`.
pub open spec fn spec_cosine(reals: Arithmetic, a: u64) -> u64 {
    reals(Op::Cos, a, ZERO)
}

/// `a` to the power of the integer `exponent`.
pub open spec fn spec_power(reals: Arithmetic, a: u64, exponent: u64) -> u64 {
    reals(Op::Powi, a, exponent)
}

/// `a + b`.
pub fn sum<R: Fn(Op, u64, u64) -> u64>(reals: &R, a: u64, b: u64) -> (r: u64)
    requires
        is_arithmetic(*reals),
    ensures
        r == spec_sum(answers(*reals), a, b),
        call_ensures(*reals, (Op::Add, a, b), r),
{
    reals(Op::Add, a, b)
}

/// `a - b`.
pub fn difference<R: Fn(Op, u64, u64) -> u64>(reals: &R, a: u64, b: u64) -> (r: u64)
    requires
        is_arithmetic(*reals),
    ensures
        r == spec_difference(answers(*reals), a, b),
        call_ensures(*reals, (Op::Sub, a, b), r),
{
    reals(Op::Sub, a, b)
}

/// `a * b`.
pub fn product<R: Fn(Op, u64, u64) -> u64>(reals: &R, a: u64, b: u64) -> (r: u64)
    requires
        is_arithmetic(*reals),
    ensures
        r == spec_product(answers(*reals), a, b),
        call_ensures(*reals, (Op::Mul, a, b), r),
{
    reals(Op::Mul, a, b)
}

/// `a / b`.
pub fn quotient<R: Fn(Op, u64, u64) -> u64>(reals: &R, a: u64, b: u64) -> (r: u64)
    requires
        is_arithmetic(*reals),
    ensures
        r == spec_quotient(answers(*reals), a, b),
        call_ensures(*reals, (Op::Div, a, b), r),
{
    reals(Op::Div, a, b)
}

/// The square root of `a`.
pub fn square_root<R: Fn(Op, u64, u64) -> u64>(reals: &R, a: u64) -> (r: u64)
    requires
        is_arithmetic(*reals),
    ensures
        r == spec_square_root(answers(*reals), a),
        call_ensures(*reals, (Op::Sqrt, a, ZERO), r),
{
    reals(Op::Sqrt, a, ZERO)
}

/// The sine of `a`.
pub fn sine<R: Fn(Op, u64, u64) -> u64>(reals: &R, a: u64) -> (r: u64)
    requires
        is_arithmetic(*reals),
    ensures
        r == spec_sine(answers(*reals), a),
        call_ensures(*reals, (Op::Sin, a, ZERO), r),
{
    reals(Op::Sin, a, ZERO)
}

/// The cosine of `a`.
pub fn cosine<R: Fn(Op, u64, u64) -> u64>(reals: &R, a: u64) -> (r: u64)
    requires
        is_arithmetic(*reals),
    ensures
        r == spec_cosine(answers(*reals), a),
        call_ensures(*reals, (Op::Cos, a, ZERO), r),
{
    reals(Op::Cos, a, ZERO)
}

/// `a` to the power of the integer `exponent`.
pub fn power<R: Fn(Op, u64, u64) -> u64>(reals: &R, a: u64, exponent: u64) -> (r: u64)
    requires
        is_arithmetic(*reals),
    ensures
        r == spec_power(answers(*reals), a, exponent),
        call_ensures(*reals, (Op::Powi, a, exponent), r),
{
    reals(Op::Powi, a, exponent)
}

/// The least remainder of `a` by `b` that is not negative.
pub open spec fn spec_remainder(reals: Arithmetic, a: u64, b: u64) -> u64 {
    reals(Op::RemEuclid, a, b)
}

/// The number that the integer `n` is.
pub open spec fn spec_from_integer(reals: Arithmetic, n: int) -> u64 {
    if n < 0 {
        reals(Op::FromInt, (-n) as u64, 1)
    } else {
        reals(Op::FromInt, n as u64, 0)
    }
}

/// The integer that `a` is without its fraction, kept within 0 and the
/// largest `u64`.
pub open spec fn spec_to_integer(reals: Arithmetic, a: u64) -> u64 {
    reals(Op::ToInt, a, ZERO)
}

/// The least remainder of `a` by `b` that is not negative.
pub fn remainder<R: Fn(Op, u64, u64) -> u64>(reals: &R, a: u64, b: u64) -> (r: u64)
    requires
        is_arithmetic(*reals),
    ensures
        r == spec_remainder(answers(*reals), a, b),
        call_ensures(*reals, (Op::RemEuclid, a, b), r),
{
    reals(Op::RemEuclid, a, b)
}

/// The number that the integer `n` is.
pub fn from_integer<R: Fn(Op, u64, u64) -> u64>(reals: &R, n: i64) -> (r: u64)
    requires
        is_arithmetic(*reals),
        n > i64::MIN,
    ensures
        r == spec_from_integer(answers(*reals), n as int),
{
    if n < 0 {
        reals(Op::FromInt, (-n) as u64, 1)
    } else {
        reals(Op::FromInt, n as u64, 0)
    }
}

/// The number that the natural number `n` is.
pub fn from_natural<R: Fn(Op, u64, u64) -> u64>(reals: &R, n: u64) -> (r: u64)
    requires
        is_arithmetic(*reals),
    ensures
        r == spec_from_integer(answers(*reals), n as int),
        call_ensures(*reals, (Op::FromInt, n, 0), r),
{
    reals(Op::FromInt, n, 0)
}

/// The integer that `a` is without its fraction, kept within 0 and the
/// largest `u64`.
pub fn to_integer<R: Fn(Op, u64, u64) -> u64>(reals: &R, a: u64) -> (r: u64)
    requires
        is_arithmetic(*reals),
    ensures
        r == spec_to_integer(answers(*reals), a),
        call_ensures(*reals, (Op::ToInt, a, ZERO), r),
{
    reals(Op::ToInt, a, ZERO)
}

/// The integer that the lower 32 bits of `answer` hold in two's complement.
pub open spec fn spec_signed(answer: u64) -> int {
    let low = answer % 0x1_0000_0000;
    if low < 0x8000_0000 {
        low as int
    } else {
        low - 0x1_0000_0000
    }
}

/// The integer that `a` is without its fraction, kept within the least and
/// the largest `i32`.
pub open spec fn spec_to_signed(reals: Arithmetic, a: u64) -> int {
    spec_signed(reals(Op::ToSigned, a, ZERO))
}

/// The integer that `a` is without its fraction, kept within the least and
/// the largest `i32`.
pub fn to_signed<R: Fn(Op, u64, u64) -> u64>(reals: &R, a: u64) -> (r: i32)
    requires
        is_arithmetic(*reals),
    ensures
        r == spec_to_signed(answers(*reals), a),
{
    let answer: u64 = reals(Op::ToSigned, a, ZERO);
    let low: u64 = answer % 0x1_0000_0000;
    if low < 0x8000_0000 {
        low as i32
    } else {
        (low as i64 - 0x1_0000_0000) as i32
    }
}

/// `base` to the power of `exponent`.
pub open spec fn spec_raised(reals: Arithmetic, base: u64, exponent: u64) -> u64 {
    reals(Op::Powf, base, exponent)
}

/// `base` to the power of `exponent`.
pub fn raised<R: Fn(Op, u64, u64) -> u64>(reals: &R, base: u64, exponent: u64) -> (r: u64)
    requires
        is_arithmetic(*reals),
    ensures
        r == spec_raised(answers(*reals), base, exponent),
        call_ensures(*reals, (Op::Powf, base, exponent), r),
{
    reals(Op::Powf, base, exponent)
}

} // verus!
