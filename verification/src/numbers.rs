//! Numbers with a fraction, as the bits of a double, and how they are rounded.

use vstd::arithmetic::power2::{
    lemma2_to64, lemma2_to64_rest, lemma_pow2_pos, lemma_pow2_strictly_increases,
    lemma_pow2_unfold, pow2,
};
use vstd::prelude::*;

verus! {

/// The weight of the lowest bit of a double's exponent.
pub const FRACTION_VALUES: u64 = 0x10_0000_0000_0000;

/// The weight of a double's sign, and the magnitude of the least `i64`.
pub const SIGN_WEIGHT: u64 = 0x8000_0000_0000_0000;

/// The exponent of a double, as its bits hold it.
pub open spec fn stored_exponent(bits: u64) -> int {
    (bits as int / FRACTION_VALUES as int) % 2048
}

/// The fraction of a double, as its bits hold it.
pub open spec fn stored_fraction(bits: u64) -> int {
    bits as int % FRACTION_VALUES as int
}

/// Whether the bits are those of no number.
pub open spec fn is_not_a_number(bits: u64) -> bool {
    stored_exponent(bits) == 2047 && stored_fraction(bits) != 0
}

/// The integer that a double is a multiple of a power of two by.
pub open spec fn significand(bits: u64) -> int {
    if stored_exponent(bits) == 0 {
        stored_fraction(bits)
    } else {
        stored_fraction(bits) + FRACTION_VALUES
    }
}

/// The exponent of that power of two.
pub open spec fn scale(bits: u64) -> int {
    if stored_exponent(bits) == 0 {
        -1074
    } else {
        stored_exponent(bits) - 1075
    }
}

/// The magnitude of a double, rounded to the nearest integer; a half is rounded up. That of an
/// infinity counts as what its bits say, which is beyond every `i64`.
pub open spec fn rounded_magnitude(bits: u64) -> int {
    if scale(bits) >= 0 {
        significand(bits) * pow2(scale(bits) as nat)
    } else {
        let parts = pow2((-scale(bits)) as nat) as int;
        (2 * significand(bits) + parts) / (2 * parts)
    }
}

/// A double rounded to the nearest `i64`, half away from zero. What is out of range becomes the
/// least or the greatest one, and what is no number becomes zero.
pub open spec fn rounded(bits: u64) -> i64 {
    if is_not_a_number(bits) {
        0
    } else if bits >= SIGN_WEIGHT {
        if rounded_magnitude(bits) >= SIGN_WEIGHT {
            i64::MIN
        } else {
            (-rounded_magnitude(bits)) as i64
        }
    } else {
        if rounded_magnitude(bits) >= SIGN_WEIGHT {
            i64::MAX
        } else {
            rounded_magnitude(bits) as i64
        }
    }
}

/// `count * 2^scale`, or the weight of the sign where it is no less than that.
fn scaled_up(count: u64, scale: u64) -> (result: u64)
    requires
        count < SIGN_WEIGHT,
    ensures
        result == if count * pow2(scale as nat) >= SIGN_WEIGHT {
            SIGN_WEIGHT as int
        } else {
            count * pow2(scale as nat)
        },
{
    let mut result: u64 = count;
    let mut done: u64 = 0;
    proof {
        lemma2_to64();
    }
    while done < scale
        invariant
            done <= scale,
            result == count * pow2(done as nat),
            result < SIGN_WEIGHT,
        decreases scale - done,
    {
        proof {
            lemma_pow2_unfold((done + 1) as nat);
            assert(count * (2 * pow2(done as nat)) == 2 * (count * pow2(done as nat)))
                by (nonlinear_arith);
        }
        if result >= 0x4000_0000_0000_0000 {
            proof {
                if done + 1 < scale {
                    lemma_pow2_strictly_increases((done + 1) as nat, scale as nat);
                }
                assert(count * pow2((done + 1) as nat) <= count * pow2(scale as nat))
                    by (nonlinear_arith)
                    requires
                        0 <= count,
                        pow2((done + 1) as nat) <= pow2(scale as nat),
                ;
            }
            return SIGN_WEIGHT;
        }
        result = result * 2;
        done = done + 1;
    }
    result
}

/// `count / 2^parts`, rounded to the nearest integer, half up.
fn scaled_down(count: u64, parts: u64) -> (result: u64)
    requires
        count < 2 * FRACTION_VALUES,
        0 < parts,
    ensures
        result == (2 * count + pow2(parts as nat)) / (2 * pow2(parts as nat) as int),
        result < SIGN_WEIGHT,
{
    proof {
        lemma2_to64();
        lemma2_to64_rest();
        lemma_pow2_pos(parts as nat);
    }
    if parts >= 54 {
        proof {
            if parts > 54 {
                lemma_pow2_strictly_increases(54, parts as nat);
            }
            let whole = 2 * pow2(parts as nat) as int;
            let sum = 2 * count + pow2(parts as nat);
            assert(sum / whole == 0) by (nonlinear_arith)
                requires
                    0 <= sum < whole,
            ;
        }
        return 0;
    }
    let mut power: u64 = 1;
    let mut done: u64 = 0;
    while done < parts
        invariant
            done <= parts < 54,
            power == pow2(done as nat),
            power <= 0x20_0000_0000_0000,
        decreases parts - done,
    {
        proof {
            lemma_pow2_unfold((done + 1) as nat);
            lemma2_to64();
            lemma2_to64_rest();
            if done + 1 < 53 {
                lemma_pow2_strictly_increases((done + 1) as nat, 53);
            }
        }
        power = power * 2;
        done = done + 1;
    }
    proof {
        let sum = 2 * count + power;
        let whole = 2 * power;
        assert(0 <= sum / whole <= sum) by (nonlinear_arith)
            requires
                0 <= sum,
                1 <= whole,
        ;
    }
    (2 * count + power) / (2 * power)
}

/// A double, given by its bits, rounded to the nearest `i64`.
pub fn round_to_integer(bits: u64) -> (result: i64)
    ensures
        result == rounded(bits),
{
    let exponent: u64 = (bits / FRACTION_VALUES) % 2048;
    let fraction: u64 = bits % FRACTION_VALUES;
    if exponent == 2047 && fraction != 0 {
        return 0;
    }
    let magnitude: u64 = if exponent == 0 {
        scaled_down(fraction, 1074)
    } else if exponent < 1075 {
        scaled_down(fraction + FRACTION_VALUES, 1075 - exponent)
    } else {
        scaled_up(fraction + FRACTION_VALUES, exponent - 1075)
    };
    if bits >= SIGN_WEIGHT {
        if magnitude >= SIGN_WEIGHT {
            i64::MIN
        } else {
            -(magnitude as i64)
        }
    } else {
        if magnitude >= SIGN_WEIGHT {
            i64::MAX
        } else {
            magnitude as i64
        }
    }
}

} // verus!
