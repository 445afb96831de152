//! What rounding does to numbers with a fraction, and how points in time are ordered.

use crate::numbers::{
    is_not_a_number, rounded, rounded_magnitude, scale, significand, stored_exponent,
    stored_fraction, SIGN_WEIGHT,
};
use crate::timestamps::Instant;
use vstd::arithmetic::power2::{
    lemma2_to64, lemma2_to64_rest, lemma_pow2_adds, lemma_pow2_pos, lemma_pow2_strictly_increases,
    pow2,
};
use vstd::prelude::*;

verus! {

/// Rounding gives the nearest integer: what it gives is never more than a half away from the
/// number, and a half is rounded up. The number is `significand / 2^parts`.
pub proof fn rounding_is_to_the_nearest(bits: u64, parts: nat)
    requires
        parts > 0,
        scale(bits) == -parts,
    ensures
        ({
            let whole = pow2(parts) as int;
            let nearest = rounded_magnitude(bits);
            2 * nearest * whole - whole <= 2 * significand(bits) < 2 * nearest * whole + whole
        }),
{
    lemma_pow2_pos(parts);
    let whole = pow2(parts) as int;
    let nearest = rounded_magnitude(bits);
    let sum = 2 * significand(bits) + whole;
    assert(nearest == sum / (2 * whole));
    assert((2 * whole) * (sum / (2 * whole)) <= sum < (2 * whole) * (sum / (2 * whole)) + 2 * whole)
        by (nonlinear_arith)
        requires
            whole > 0,
    ;
    assert((2 * whole) * nearest == 2 * nearest * whole) by (nonlinear_arith);
}

/// The bits of a double that is the integer `2^power + rest`, where the rest is less than
/// `2^power`.
pub open spec fn bits_of_integer(power: nat, rest: int) -> int {
    (1023 + power) * 0x10_0000_0000_0000 + rest * pow2((52 - power) as nat)
}

/// A double that is an integer rounds to that integer, and its negative to the negative: rounding
/// changes nothing that has no fraction.
pub proof fn integers_stay_as_they_are(power: nat, rest: int, bits: u64)
    requires
        power <= 52,
        0 <= rest < pow2(power),
        bits == bits_of_integer(power, rest),
    ensures
        bits < SIGN_WEIGHT,
        rounded(bits) == pow2(power) + rest,
        rounded((bits + SIGN_WEIGHT) as u64) == -(pow2(power) + rest),
{
    lemma2_to64();
    lemma2_to64_rest();
    let unit = pow2((52 - power) as nat) as int;
    let high = pow2(power) as int;
    lemma_pow2_pos((52 - power) as nat);
    lemma_pow2_pos(power);
    lemma_pow2_adds(power, (52 - power) as nat);
    assert(high * unit == 0x10_0000_0000_0000) by {
        assert(pow2(52) == 0x10_0000_0000_0000);
    }
    let fraction = rest * unit;
    assert(0 <= fraction < high * unit) by (nonlinear_arith)
        requires
            0 <= rest < high,
            unit > 0,
            fraction == rest * unit,
    ;
    let size: int = 0x10_0000_0000_0000;
    assert(bits as int == (1023 + power) * size + fraction);
    assert(bits as int / size == 1023 + power && bits as int % size == fraction)
        by (nonlinear_arith)
        requires
            bits as int == (1023 + power) * size + fraction,
            0 <= fraction < size,
            size > 0,
    ;
    assert(stored_exponent(bits) == 1023 + power);
    assert(stored_fraction(bits) == fraction);
    assert(significand(bits) == (high + rest) * unit) by (nonlinear_arith)
        requires
            significand(bits) == rest * unit + high * unit,
    ;
    magnitude_of_integer(bits, power, high + rest);
    let negative = (bits + SIGN_WEIGHT) as u64;
    assert(negative as int == (2048 + 1023 + power) * size + fraction);
    assert(negative as int / size == 2048 + 1023 + power && negative as int % size == fraction)
        by (nonlinear_arith)
        requires
            negative as int == (2048 + 1023 + power) * size + fraction,
            0 <= fraction < size,
            size > 0,
    ;
    assert(stored_exponent(negative) == 1023 + power);
    assert(stored_fraction(negative) == fraction);
    magnitude_of_integer(negative, power, high + rest);
    assert(high + rest < 2 * high);
    assert(2 * high <= 0x20_0000_0000_0000) by {
        if power < 52 {
            lemma_pow2_strictly_increases(power, 52);
        }
    }
}

proof fn magnitude_of_integer(bits: u64, power: nat, integer: int)
    requires
        power <= 52,
        stored_exponent(bits) == 1023 + power,
        significand(bits) == integer * pow2((52 - power) as nat),
    ensures
        rounded_magnitude(bits) == integer,
        !is_not_a_number(bits),
{
    lemma2_to64();
    let unit = pow2((52 - power) as nat) as int;
    lemma_pow2_pos((52 - power) as nat);
    if power == 52 {
        assert(scale(bits) == 0);
        assert(pow2(0) == 1);
        assert(significand(bits) == integer) by (nonlinear_arith)
            requires
                significand(bits) == integer * unit,
                unit == 1,
        ;
        assert(rounded_magnitude(bits) == significand(bits) * pow2(0));
    } else {
        assert(scale(bits) == -(52 - power));
        let sum = 2 * (integer * unit) + unit;
        assert(sum / (2 * unit) == integer) by (nonlinear_arith)
            requires
                sum == 2 * (integer * unit) + unit,
                unit > 0,
        ;
        assert((-scale(bits)) as nat == (52 - power) as nat);
        assert(rounded_magnitude(bits) == (2 * significand(bits) + unit) / (2 * unit));
    }
}

/// What is no number counts as zero.
pub proof fn no_number_is_zero(bits: u64)
    requires
        (bits as int / 0x10_0000_0000_0000) % 2048 == 2047,
        bits as int % 0x10_0000_0000_0000 != 0,
    ensures
        rounded(bits) == 0,
{
}

/// Points in time are ordered by their seconds, and within a second by their nanoseconds; of two
/// one is at or before the other, and both only where they are at the same time.
pub proof fn time_goes_one_way(left: Instant, right: Instant, third: Instant)
    ensures
        left.seconds < right.seconds ==> left.at_or_before(right) && !right.at_or_before(left),
        left.seconds == right.seconds ==> (left.at_or_before(right) <==> left.nanos <= right.nanos),
        left.at_or_before(right) || right.at_or_before(left),
        left.at_or_before(right) && right.at_or_before(left) <==> left.seconds == right.seconds
            && left.nanos == right.nanos,
        left.at_or_before(right) && right.at_or_before(third) ==> left.at_or_before(third),
{
}

/// What is out of range stops at the ends of the range.
pub proof fn numbers_out_of_range_stop_at_its_ends(bits: u64)
    requires
        !is_not_a_number(bits),
        rounded_magnitude(bits) >= 0x8000_0000_0000_0000,
    ensures
        bits < 0x8000_0000_0000_0000 ==> rounded(bits) == i64::MAX,
        bits >= 0x8000_0000_0000_0000 ==> rounded(bits) == i64::MIN,
{
}

/// What is less than a half away from zero becomes zero.
pub proof fn small_numbers_become_zero(bits: u64)
    requires
        (bits as int / 0x10_0000_0000_0000) % 2048 < 1022,
    ensures
        rounded(bits) == 0,
{
    lemma2_to64();
    lemma2_to64_rest();
    let parts = (-scale(bits)) as nat;
    assert(parts >= 54);
    if parts > 54 {
        lemma_pow2_strictly_increases(54, parts);
    }
    let whole = pow2(parts) as int;
    let sum = 2 * significand(bits) + whole;
    assert(0 <= significand(bits) < 0x20_0000_0000_0000);
    assert(pow2(54) == 0x40_0000_0000_0000);
    assert(sum / (2 * whole) == 0) by (nonlinear_arith)
        requires
            0 <= sum < 2 * whole,
    ;
}

/// A number beyond the last fraction is the integer that its bits say, a multiple of a power of
/// two.
pub proof fn large_numbers_have_no_fraction(bits: u64, power: nat)
    requires
        (bits as int / 0x10_0000_0000_0000) % 2048 == 1075 + power,
    ensures
        rounded_magnitude(bits) == (bits as int % 0x10_0000_0000_0000 + 0x10_0000_0000_0000) * pow2(
            power,
        ),
{
}

} // verus!
