//! Half floats: the bits of a half from those of a float and back.

use vstd::arithmetic::div_mod::{lemma_fundamental_div_mod, lemma_mod_bound};
use vstd::arithmetic::power2::{
    lemma2_to64, lemma_pow2_adds, lemma_pow2_pos, lemma_pow2_strictly_increases, lemma_pow2_unfold, pow2,
};
use vstd::prelude::*;

verus! {

/// Bits of the smallest float that is a normal half.
pub const SMALLEST_NORMAL_BITS: u32 = 0x3880_0000;

/// Bits of the largest float that is a half.
pub const LARGEST_BITS: u32 = 0x477F_E000;

/// What the exponent of a float has over that of a half, where a float keeps it.
pub const EXPONENT_SHIFT: u32 = 0x3800_0000;

/// The largest half.
pub const LARGEST_HALF: u16 = 0x7BFF;

/// Bits of the float infinity; what lies above them is no number.
pub const FLOAT_INFINITY: u32 = 0x7F80_0000;

/// A normal half above zero.
pub open spec fn positive_normal(half: u16) -> bool {
    0x0400 <= half <= LARGEST_HALF
}

/// The float bits of a half that is normal and above zero; zero for every other.
pub open spec fn float_of_half(half: u16) -> u32 {
    if positive_normal(half) {
        (half * 8192 + EXPONENT_SHIFT) as u32
    } else {
        0
    }
}

/// Peak-scan only: negatives, subnormals, and non-finite values map to zero.
pub fn half_to_float_bits(half: u16) -> (bits: u32)
    ensures
        bits == float_of_half(half),
{
    if 0x0400 <= half && half <= LARGEST_HALF {
        half as u32 * 8192 + EXPONENT_SHIFT
    } else {
        0
    }
}

/// How many times `unit` goes into `value`, rounded to the nearest, even where two are as near.
pub open spec fn nearest_even(value: int, unit: int) -> int {
    let below = value / unit;
    let rest = value % unit;
    if 2 * rest > unit || 2 * rest == unit && below % 2 == 1 {
        below + 1
    } else {
        below
    }
}

/// The bits of a float's significand, the leading one among them.
pub open spec fn significand(magnitude: int) -> int {
    magnitude % 0x80_0000 + 0x80_0000
}

/// What the smallest subnormal half is in the last place of a float below the normal halves.
pub open spec fn subnormal_unit(magnitude: int) -> int {
    pow2((126 - magnitude / 0x80_0000) as nat) as int
}

/// A float below the normal halves in the units of the subnormal ones.
pub open spec fn subnormal_units(magnitude: int) -> int {
    if magnitude / 0x80_0000 < 102 {
        0
    } else {
        nearest_even(significand(magnitude), subnormal_unit(magnitude))
    }
}

/// The half nearest a float among the normal ones.
pub open spec fn nearest_normal(magnitude: int) -> int {
    nearest_even(magnitude - EXPONENT_SHIFT, 8192)
}

/// The half of a float's size: past the largest it is that.
pub open spec fn half_of_magnitude(magnitude: int) -> int {
    if magnitude < SMALLEST_NORMAL_BITS {
        subnormal_units(magnitude)
    } else if magnitude > LARGEST_BITS {
        LARGEST_HALF as int
    } else {
        nearest_normal(magnitude)
    }
}

/// The half of a float; what is no number becomes zero.
pub open spec fn half_of_float(bits: u32) -> int {
    let magnitude = bits as int % 0x8000_0000;
    if magnitude > FLOAT_INFINITY {
        0
    } else if bits >= 0x8000_0000 {
        0x8000 + half_of_magnitude(magnitude)
    } else {
        half_of_magnitude(magnitude)
    }
}

/// Rounding stays within what bounds the quotient on either side.
proof fn lemma_nearest_even_bounds(value: int, unit: int, low: int, high: int)
    requires
        unit > 0,
        low * unit <= value <= high * unit,
    ensures
        low <= nearest_even(value, unit) <= high,
{
    let below = value / unit;
    let rest = value % unit;
    lemma_fundamental_div_mod(value, unit);
    assert(value == unit * below + rest);
    assert(0 <= rest < unit) by {
        lemma_mod_bound(value, unit);
    }
    assert(low <= below) by (nonlinear_arith)
        requires
            low * unit <= value,
            value == unit * below + rest,
            rest < unit,
            unit > 0,
    ;
    assert(below <= high && (below == high ==> rest == 0)) by (nonlinear_arith)
        requires
            value <= high * unit,
            value == unit * below + rest,
            0 <= rest < unit,
            unit > 0,
    ;
}

/// A float below the normal halves lies between the powers of two of its exponent, in the units of the
/// subnormal halves.
proof fn lemma_subnormal_bounds(magnitude: int)
    requires
        0 <= magnitude < SMALLEST_NORMAL_BITS,
        102 <= magnitude / 0x80_0000,
    ensures
        subnormal_unit(magnitude) > 0,
        magnitude / 0x80_0000 == 102 ==> 0 <= subnormal_units(magnitude) <= 1,
        magnitude / 0x80_0000 > 102 ==> pow2((magnitude / 0x80_0000 - 103) as nat)
            <= subnormal_units(magnitude) <= pow2((magnitude / 0x80_0000 - 102) as nat),
{
    let exponent = magnitude / 0x80_0000;
    let unit = subnormal_unit(magnitude);
    lemma_pow2_pos((126 - exponent) as nat);
    lemma2_to64();
    lemma_pow2_adds((exponent - 102) as nat, (126 - exponent) as nat);
    if exponent == 102 {
        lemma_nearest_even_bounds(significand(magnitude), unit, 0, 1);
    } else {
        lemma_pow2_adds((exponent - 103) as nat, (126 - exponent) as nat);
        lemma_nearest_even_bounds(
            significand(magnitude),
            unit,
            pow2((exponent - 103) as nat) as int,
            pow2((exponent - 102) as nat) as int,
        );
    }
}

proof fn lemma_halves_fit(magnitude: int)
    requires
        0 <= magnitude < 0x8000_0000,
    ensures
        0 <= half_of_magnitude(magnitude) <= LARGEST_HALF,
        SMALLEST_NORMAL_BITS <= magnitude ==> 0x0400 <= half_of_magnitude(magnitude),
        magnitude < SMALLEST_NORMAL_BITS ==> half_of_magnitude(magnitude) <= 0x0400,
{
    if magnitude < SMALLEST_NORMAL_BITS {
        let exponent = magnitude / 0x80_0000;
        if exponent >= 102 {
            lemma_subnormal_bounds(magnitude);
            lemma2_to64();
            if exponent - 102 < 10 {
                lemma_pow2_strictly_increases((exponent - 102) as nat, 10);
            }
        }
    }
}

/// Round-to-nearest-even; overflow clamps to the half maximum, what is no number maps to zero.
pub fn float_bits_to_half(bits: u32) -> (half: u16)
    ensures
        half == half_of_float(bits),
{
    let magnitude: u32 = bits % 0x8000_0000;
    proof {
        lemma_halves_fit(magnitude as int);
    }
    if magnitude > FLOAT_INFINITY {
        return 0;
    }
    let size: u16 = if magnitude < SMALLEST_NORMAL_BITS {
        let exponent: u32 = magnitude / 0x80_0000;
        if exponent < 102 {
            0
        } else {
            round_to_even(magnitude % 0x80_0000 + 0x80_0000, power_of_two(126 - exponent)) as u16
        }
    } else if magnitude > LARGEST_BITS {
        LARGEST_HALF
    } else {
        round_to_even(magnitude - EXPONENT_SHIFT, 8192) as u16
    };
    if bits >= 0x8000_0000 {
        0x8000 + size
    } else {
        size
    }
}

fn round_to_even(value: u32, unit: u32) -> (count: u32)
    requires
        0 < unit <= 0x100_0000,
        value <= 0x1000_0000,
    ensures
        count == nearest_even(value as int, unit as int),
{
    let below: u32 = value / unit;
    let rest: u32 = value % unit;
    if 2 * rest > unit || 2 * rest == unit && below % 2 == 1 {
        below + 1
    } else {
        below
    }
}

fn power_of_two(exponent: u32) -> (power: u32)
    requires
        exponent <= 24,
    ensures
        power == pow2(exponent as nat),
        0 < power <= 0x100_0000,
{
    proof {
        lemma2_to64();
    }
    let mut power: u32 = 1;
    let mut count: u32 = 0;
    while count < exponent
        invariant
            count <= exponent <= 24,
            power == pow2(count as nat),
            0 < power,
            power <= 0x100_0000,
            pow2(24) == 0x100_0000,
        decreases exponent - count,
    {
        proof {
            lemma_pow2_unfold((count + 1) as nat);
            if count + 1 < 24 {
                lemma_pow2_strictly_increases((count + 1) as nat, 24);
            }
        }
        power = power * 2;
        count += 1;
    }
    power
}

/// A normal half comes back from its float.
pub proof fn lemma_half_round_trip(half: u16)
    requires
        positive_normal(half),
    ensures
        half_of_float(float_of_half(half)) == half,
{
}

/// A float among the normal halves turns into the nearest of them: none is nearer, measured in the
/// float's last place.
pub proof fn lemma_half_is_nearest(bits: u32, other: u16)
    requires
        SMALLEST_NORMAL_BITS <= bits <= LARGEST_BITS,
        positive_normal(other),
    ensures
        ({
            let chosen = half_of_float(bits) * 8192 + EXPONENT_SHIFT;
            let rival = float_of_half(other) as int;
            let miss = if chosen >= bits {
                chosen - bits
            } else {
                bits - chosen
            };
            let rival_miss = if rival >= bits {
                rival - bits
            } else {
                bits - rival
            };
            miss <= rival_miss
        }),
{
    let below = (bits - EXPONENT_SHIFT) / 8192;
    if other as int <= below {
    } else {
        assert(other as int >= below + 1);
    }
}

/// A float below the normal halves turns into the nearest count of the smallest half: none is nearer,
/// measured in the float's last place.
pub proof fn lemma_subnormal_half_is_nearest(bits: u32, other: int)
    requires
        bits < SMALLEST_NORMAL_BITS,
        102 <= bits as int / 0x80_0000,
    ensures
        ({
            let exact = significand(bits as int);
            let chosen = half_of_float(bits) * subnormal_unit(bits as int);
            let rival = other * subnormal_unit(bits as int);
            let miss = if chosen >= exact {
                chosen - exact
            } else {
                exact - chosen
            };
            let rival_miss = if rival >= exact {
                rival - exact
            } else {
                exact - rival
            };
            miss <= rival_miss
        }),
{
    let exact = significand(bits as int);
    let unit = subnormal_unit(bits as int);
    lemma_subnormal_bounds(bits as int);
    let below = exact / unit;
    let rest = exact % unit;
    lemma_fundamental_div_mod(exact, unit);
    lemma_mod_bound(exact, unit);
    let count = half_of_float(bits);
    assert(count * unit == if count == below { exact - rest } else { exact - rest + unit })
        by (nonlinear_arith)
        requires
            exact == unit * below + rest,
            count == below || count == below + 1,
    ;
    if other <= below {
        assert(other * unit <= exact - rest) by (nonlinear_arith)
            requires
                other <= below,
                exact == unit * below + rest,
                unit > 0,
        ;
    } else {
        assert(other * unit >= exact - rest + unit) by (nonlinear_arith)
            requires
                other >= below + 1,
                exact == unit * below + rest,
                unit > 0,
        ;
    }
}

/// Turning floats into halves keeps their order.
pub proof fn lemma_halves_keep_order(first: u32, second: u32)
    requires
        first <= second <= FLOAT_INFINITY,
    ensures
        half_of_float(first) <= half_of_float(second),
{
    lemma_halves_fit(first as int);
    lemma_halves_fit(second as int);
    let low = first as int / 0x80_0000;
    let high = second as int / 0x80_0000;
    if second < SMALLEST_NORMAL_BITS && low >= 102 {
        lemma_subnormal_bounds(first as int);
        lemma_subnormal_bounds(second as int);
        if low < high {
            lemma2_to64();
            if low - 102 < high - 103 {
                lemma_pow2_strictly_increases((low - 102) as nat, (high - 103) as nat);
            }
        } else {
            let unit = subnormal_unit(first as int);
            let count = significand(second as int) / unit;
            let rest = significand(second as int) % unit;
            let fewer = significand(first as int) / unit;
            let remaining = significand(first as int) % unit;
            lemma_fundamental_div_mod(significand(second as int), unit);
            lemma_fundamental_div_mod(significand(first as int), unit);
            lemma_mod_bound(significand(second as int), unit);
            lemma_mod_bound(significand(first as int), unit);
            assert(fewer < count || fewer == count && remaining <= rest) by (nonlinear_arith)
                requires
                    unit > 0,
                    unit * fewer + remaining <= unit * count + rest,
                    0 <= remaining < unit,
                    0 <= rest < unit,
            ;
        }
    }
}

/// A negative float becomes the half of its size with the sign set.
pub proof fn lemma_sign_is_kept(bits: u32)
    requires
        bits <= FLOAT_INFINITY,
    ensures
        half_of_float((bits + 0x8000_0000) as u32) == half_of_float(bits) + 0x8000,
{
}

/// A normal half and its float are the same number: the exponents stand for the same power of two, and
/// the fraction is the same, in ten bits or in twenty-three.
pub proof fn lemma_half_and_float_are_one_number(half: u16)
    requires
        0x0400 <= half < 0x7C00,
    ensures
        float_of_half(half) as int / 0x80_0000 - 127 == half as int / 1024 - 15,
        float_of_half(half) as int % 0x80_0000 == (half as int % 1024) * 8192,
{
}

/// A float midway between two halves turns into the even one.
pub proof fn lemma_midway_goes_to_the_even_half(bits: u32)
    requires
        102 <= bits as int / 0x80_0000,
        bits <= LARGEST_BITS,
        bits >= SMALLEST_NORMAL_BITS ==> bits as int % 8192 == 4096,
        bits < SMALLEST_NORMAL_BITS ==> 2 * (significand(bits as int) % subnormal_unit(bits as int))
            == subnormal_unit(bits as int),
    ensures
        half_of_float(bits) % 2 == 0,
{
}

} // verus!
