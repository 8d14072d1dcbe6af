//! IEEE 754 binary32 numbers, read from their bit patterns.
//!
//! A distance is carried as the 32 bits of a single-precision number. Everything
//! that can be decided about such a number without doing arithmetic on it is
//! decided here: whether it is a number at all, its sign, how it compares with
//! another, and which of two is the smaller or the larger.
//!
//! The layout is the one of the standard: bit 31 is the sign, bits 30 to 23 the
//! biased exponent, bits 22 to 0 the fraction. An exponent field of all ones
//! with a zero fraction is an infinity, with a non-zero fraction a NaN.

use vstd::prelude::*;
use vstd::arithmetic::power2::{
    lemma2_to64, lemma_pow2_adds, lemma_pow2_pos, lemma_pow2_strictly_increases, lemma_pow2_unfold,
    pow2,
};

verus! {

/// The sign bit alone: the pattern of negative zero.
pub const SIGN_BIT: u32 = 0x8000_0000;

/// The pattern of positive infinity, and the largest magnitude that is a number.
pub const INFINITY: u32 = 0x7f80_0000;

/// The pattern of the largest finite number.
pub const LARGEST_FINITE: u32 = 0x7f7f_ffff;

/// The pattern of positive zero.
pub const ZERO: u32 = 0;

/// The pattern of a NaN: the quiet one with no payload.
pub const QUIET_NAN: u32 = 0x7fc0_0000;

/// Whether the sign bit is set. This holds of negative zero and may hold of a NaN.
pub open spec fn sign_negative(bits: u32) -> bool {
    bits >= SIGN_BIT
}

/// The pattern with its sign bit cleared.
pub open spec fn magnitude(bits: u32) -> u32 {
    if bits >= SIGN_BIT {
        (bits - SIGN_BIT) as u32
    } else {
        bits
    }
}

/// Whether the pattern is a NaN.
pub open spec fn is_nan(bits: u32) -> bool {
    magnitude(bits) > INFINITY
}

/// Whether the pattern is a finite number: neither an infinity nor a NaN.
pub open spec fn is_finite(bits: u32) -> bool {
    magnitude(bits) < INFINITY
}

/// The place of a number on the number line, as an integer.
///
/// Among patterns that are not NaN, a number is below another exactly when its
/// rank is smaller, and the two zeros share rank 0. The rank of a NaN has no
/// meaning.
pub open spec fn rank(bits: u32) -> int {
    if sign_negative(bits) {
        -(magnitude(bits) as int)
    } else {
        magnitude(bits) as int
    }
}

/// `a < b` as the standard defines it: false whenever either side is a NaN.
pub open spec fn lt(a: u32, b: u32) -> bool {
    !is_nan(a) && !is_nan(b) && rank(a) < rank(b)
}

/// `a > b` as the standard defines it.
pub open spec fn gt(a: u32, b: u32) -> bool {
    lt(b, a)
}

/// `a == b` as the standard defines it: a NaN equals nothing, itself included,
/// and the two zeros are equal.
pub open spec fn same(a: u32, b: u32) -> bool {
    !is_nan(a) && !is_nan(b) && rank(a) == rank(b)
}

/// `a >= b` as the standard defines it.
pub open spec fn ge(a: u32, b: u32) -> bool {
    gt(a, b) || same(a, b)
}

/// Whether two patterns say the same: the same bits, or a NaN both. A
/// computation that gives a NaN does not fix its sign or payload, so this is
/// as far as two runs of one computation can be held to agree.
pub open spec fn agree(a: u32, b: u32) -> bool {
    a == b || (is_nan(a) && is_nan(b))
}

/// The pattern with its sign bit flipped: the negated number.
pub open spec fn negated(bits: u32) -> u32 {
    if bits >= SIGN_BIT {
        (bits - SIGN_BIT) as u32
    } else {
        (bits + SIGN_BIT) as u32
    }
}

/// The smaller of two numbers, passing over a NaN: where one side is a NaN the
/// other is the result. Of two equal numbers the first is kept.
pub open spec fn min_of(a: u32, b: u32) -> u32 {
    if is_nan(a) {
        b
    } else if is_nan(b) {
        a
    } else if lt(b, a) {
        b
    } else {
        a
    }
}

/// The larger of two numbers, passing over a NaN: where one side is a NaN the
/// other is the result. Of two equal numbers the first is kept.
pub open spec fn max_of(a: u32, b: u32) -> u32 {
    if is_nan(a) {
        b
    } else if is_nan(b) {
        a
    } else if lt(a, b) {
        b
    } else {
        a
    }
}

/// The biased exponent: bits 30 to 23.
pub open spec fn exponent_field(bits: u32) -> nat {
    (magnitude(bits) / 0x80_0000) as nat
}

/// The fraction: bits 22 to 0.
pub open spec fn fraction_field(bits: u32) -> nat {
    (magnitude(bits) % 0x80_0000) as nat
}

/// The absolute value of a finite number, counted in units of 2^-149, the
/// smallest positive number of the format. Every finite number is a whole
/// count of them: a subnormal is its fraction, a normal number its 24-bit
/// significand shifted by its exponent.
pub open spec fn units(bits: u32) -> nat {
    if exponent_field(bits) == 0 {
        fraction_field(bits)
    } else {
        (0x80_0000 + fraction_field(bits)) * pow2((exponent_field(bits) - 1) as nat)
    }
}

/// The value of a finite number, in units of 2^-149.
pub open spec fn value(bits: u32) -> int {
    if sign_negative(bits) {
        -(units(bits) as int)
    } else {
        units(bits) as int
    }
}

/// A larger magnitude is a larger absolute value.
proof fn units_grow_with_magnitude(a: u32, b: u32)
    requires
        is_finite(a),
        is_finite(b),
        magnitude(a) < magnitude(b),
    ensures
        units(a) < units(b),
{
    let ea = exponent_field(a);
    let eb = exponent_field(b);
    let fa = fraction_field(a);
    let fb = fraction_field(b);
    assert(ea <= eb);
    if ea == eb {
        assert(fa < fb);
        if ea > 0 {
            let p = pow2((ea - 1) as nat);
            lemma_pow2_pos((ea - 1) as nat);
            assert((0x80_0000 + fa) * p < (0x80_0000 + fb) * p) by (nonlinear_arith)
                requires
                    fa < fb,
                    p > 0,
            ;
        }
    } else {
        let q = pow2((eb - 1) as nat);
        lemma_pow2_pos((eb - 1) as nat);
        assert(0x80_0000 * q <= (0x80_0000 + fb) * q) by (nonlinear_arith)
            requires
                fb >= 0,
                q > 0,
        ;
        if ea == 0 {
            assert(0x80_0000 * 1 <= 0x80_0000 * q) by (nonlinear_arith)
                requires
                    q >= 1,
            ;
        } else {
            let p = pow2((ea - 1) as nat);
            lemma_pow2_pos((ea - 1) as nat);
            lemma_pow2_unfold(ea);
            if ea < eb - 1 {
                lemma_pow2_strictly_increases(ea, (eb - 1) as nat);
            }
            assert(pow2(ea) <= q);
            assert((0x80_0000 + fa) * p < 0x80_0000 * (2 * p)) by (nonlinear_arith)
                requires
                    fa < 0x80_0000,
                    p > 0,
            ;
            assert(0x80_0000 * pow2(ea) <= 0x80_0000 * q) by (nonlinear_arith)
                requires
                    pow2(ea) <= q,
            ;
        }
    }
}

/// Only the two zeros have the value zero.
proof fn units_vanish_at_zero(a: u32)
    requires
        is_finite(a),
    ensures
        units(a) == 0 <==> magnitude(a) == 0,
{
    if exponent_field(a) > 0 {
        let p = pow2((exponent_field(a) - 1) as nat);
        lemma_pow2_pos((exponent_field(a) - 1) as nat);
        assert((0x80_0000 + fraction_field(a)) * p > 0) by (nonlinear_arith)
            requires
                fraction_field(a) >= 0,
                p > 0,
        ;
    }
}

/// The rank orders the finite numbers as their values do: one is below another
/// exactly when its value is smaller, and two have the same rank exactly when
/// they have the same value.
pub proof fn rank_orders_as_value(a: u32, b: u32)
    requires
        is_finite(a),
        is_finite(b),
    ensures
        rank(a) < rank(b) <==> value(a) < value(b),
        rank(a) == rank(b) <==> value(a) == value(b),
{
    units_vanish_at_zero(a);
    units_vanish_at_zero(b);
    if magnitude(a) < magnitude(b) {
        units_grow_with_magnitude(a, b);
    } else if magnitude(b) < magnitude(a) {
        units_grow_with_magnitude(b, a);
    }
}

/// What the smallest positive number and the number one come to in units.
pub proof fn value_of_known_numbers()
    ensures
        value(1) == 1,
        value(0x3f80_0000) == pow2(149),
        value(0xbf80_0000) == -(pow2(149) as int),
        value(ZERO) == 0,
        value(SIGN_BIT) == 0,
{
    lemma_pow2_adds(23, 126);
    lemma2_to64();
}

/// Below is a strict order, and the numbers are totally ordered by it. A NaN
/// is neither below, nor above, nor equal to anything.
pub proof fn below_is_a_strict_total_order(a: u32, b: u32, c: u32)
    ensures
        !lt(a, a),
        lt(a, b) && lt(b, c) ==> lt(a, c),
        lt(a, b) ==> !lt(b, a) && !same(a, b),
        !is_nan(a) && !is_nan(b) ==> lt(a, b) || same(a, b) || lt(b, a),
        is_nan(a) || is_nan(b) ==> !lt(a, b) && !same(a, b) && !lt(b, a),
        same(a, b) && same(b, c) ==> same(a, c),
        same(a, b) ==> same(b, a),
{
}

/// Negation mirrors the number line: it turns the order around, keeps what is
/// equal equal, undoes itself, and gives a finite number the opposite value.
pub proof fn negation_mirrors(a: u32, b: u32)
    ensures
        lt(a, b) <==> lt(negated(b), negated(a)),
        same(a, b) <==> same(negated(a), negated(b)),
        negated(negated(a)) == a,
        is_nan(negated(a)) == is_nan(a),
        is_finite(a) ==> value(negated(a)) == -value(a),
{
}

/// The smaller and the larger of two numbers are what their names say. Each
/// is one of the two; it is a NaN only if both are; and where neither is a
/// NaN, nothing of the two is below the smaller or above the larger.
pub proof fn min_and_max_select(a: u32, b: u32)
    ensures
        min_of(a, b) == a || min_of(a, b) == b,
        max_of(a, b) == a || max_of(a, b) == b,
        is_nan(min_of(a, b)) <==> is_nan(a) && is_nan(b),
        is_nan(max_of(a, b)) <==> is_nan(a) && is_nan(b),
        !lt(a, min_of(a, b)) && !lt(b, min_of(a, b)),
        !lt(max_of(a, b), a) && !lt(max_of(a, b), b),
        !is_nan(a) && !is_nan(b) ==> rank(min_of(a, b)) == vstd::math::min(rank(a), rank(b)),
        !is_nan(a) && !is_nan(b) ==> rank(max_of(a, b)) == vstd::math::max(rank(a), rank(b)),
{
}

/// Nothing that is decided here depends on which NaN a NaN is: patterns that
/// agree compare alike, and their negations, minima and maxima agree. Where
/// one of two agreeing patterns is a number, the two are the same.
pub proof fn agreement_is_kept(a: u32, a2: u32, b: u32, b2: u32)
    requires
        agree(a, a2),
        agree(b, b2),
    ensures
        is_nan(a) == is_nan(a2),
        !is_nan(a) || !is_nan(a2) ==> a == a2,
        lt(a, b) == lt(a2, b2),
        same(a, b) == same(a2, b2),
        agree(negated(a), negated(a2)),
        agree(min_of(a, b), min_of(a2, b2)),
        agree(max_of(a, b), max_of(a2, b2)),
{
}

/// Every finite number lies strictly between the two infinities, and the
/// largest finite number is the last below positive infinity.
pub proof fn infinities_bound_the_finite(a: u32)
    requires
        is_finite(a),
    ensures
        rank((INFINITY + SIGN_BIT) as u32) < rank(a) < rank(INFINITY),
        rank(a) <= rank(LARGEST_FINITE),
        rank(LARGEST_FINITE) + 1 == rank(INFINITY),
{
}

/// Tells whether a pattern is a NaN.
pub fn nan(bits: u32) -> (r: bool)
    ensures
        r == is_nan(bits),
{
    let m: u32 = if bits >= SIGN_BIT { bits - SIGN_BIT } else { bits };
    m > INFINITY
}

/// The rank of a pattern as a machine integer.
pub fn rank_of(bits: u32) -> (r: i64)
    ensures
        r == rank(bits),
{
    if bits >= SIGN_BIT {
        let m: u32 = bits - SIGN_BIT;
        -(m as i64)
    } else {
        bits as i64
    }
}

/// Decides `a < b`.
pub fn less(a: u32, b: u32) -> (r: bool)
    ensures
        r == lt(a, b),
{
    !nan(a) && !nan(b) && rank_of(a) < rank_of(b)
}

/// Decides `a == b`.
pub fn equal(a: u32, b: u32) -> (r: bool)
    ensures
        r == same(a, b),
{
    !nan(a) && !nan(b) && rank_of(a) == rank_of(b)
}

/// Negates a number by flipping its sign bit. A NaN stays a NaN.
pub fn negate(bits: u32) -> (r: u32)
    ensures
        r == negated(bits),
        is_nan(r) == is_nan(bits),
        !is_nan(bits) ==> rank(r) == -rank(bits),
{
    if bits >= SIGN_BIT {
        bits - SIGN_BIT
    } else {
        bits + SIGN_BIT
    }
}

/// The smaller of two numbers, passing over a NaN.
pub fn min_num(a: u32, b: u32) -> (r: u32)
    ensures
        r == min_of(a, b),
{
    if nan(a) {
        b
    } else if nan(b) {
        a
    } else if less(b, a) {
        b
    } else {
        a
    }
}

/// The larger of two numbers, passing over a NaN.
pub fn max_num(a: u32, b: u32) -> (r: u32)
    ensures
        r == max_of(a, b),
{
    if nan(a) {
        b
    } else if nan(b) {
        a
    } else if less(a, b) {
        b
    } else {
        a
    }
}

} // verus!
