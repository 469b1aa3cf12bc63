//! Rounding to whole numbers.
//!
//! The four roundings keep the sign bit and differ only in when they step
//! away from zero: `trunc` never, `floor` for negative values, `ceil` for
//! positive ones, and `round` from one half on. A value that is not finite is
//! returned as it is.

use vstd::prelude::*;
use vstd::arithmetic::div_mod::{
    lemma_fundamental_div_mod, lemma_mod_multiples_basic, lemma_small_mod,
};
use vstd::arithmetic::power2::lemma_pow2_pos;
use vstd::bits::{
    lemma_low_bits_mask_unfold, lemma_u64_low_bits_mask_is_mod, lemma_u64_pow2_no_overflow,
    lemma_u64_shl_is_mul,
};
use crate::binary64::{Binary64, INFINITY_BITS, ONE_BITS, SIGN_BIT};
use crate::constants::HALF_BITS;
use crate::harness::Unary;
use crate::laws::deterministic;
use crate::magnitude::{
    lemma_magnitude_around, lemma_magnitude_below_one, lemma_magnitude_is_whole_above,
    lemma_magnitude_of_one, lemma_sign_and_magnitude_give_the_bits, magnitude_of, unit,
    HIDDEN_BIT,
};

verus! {

/// The magnitude bits of 2^52, from which on every finite value is whole.
pub const WHOLE_FROM_BITS: u64 = 0x4330_0000_0000_0000;

/// The greatest whole number that is not above `magnitude`, both in units of
/// 2^-1074.
pub open spec fn whole_below(magnitude: nat) -> nat {
    (magnitude - magnitude % unit()) as nat
}

/// The whole numbers on either side of a finite magnitude, as magnitude bits.
struct Neighbours {
    below: u64,
    above: u64,
    whole: bool,
    half_or_more: bool,
}

/// Finds the whole numbers around the magnitude that `m` encodes, and says
/// whether it is one of them and whether its fractional part reaches one half.
fn neighbours(m: u64) -> (found: Neighbours)
    requires
        m < INFINITY_BITS,
    ensures
        found.below < INFINITY_BITS,
        magnitude_of(found.below) == whole_below(magnitude_of(m)),
        found.whole == (magnitude_of(m) % unit() == 0),
        found.half_or_more == (2 * (magnitude_of(m) % unit()) >= unit()),
        !found.whole ==> found.above < INFINITY_BITS && magnitude_of(found.above) == magnitude_of(
            found.below,
        ) + unit(),
{
    if m >= WHOLE_FROM_BITS {
        proof {
            lemma_magnitude_is_whole_above(m);
            lemma_pow2_pos(1074);
        }
        Neighbours { below: m, above: m, whole: true, half_or_more: false }
    } else if m < ONE_BITS {
        proof {
            lemma_magnitude_below_one(m);
            lemma_magnitude_of_one();
            lemma_small_mod(magnitude_of(m), unit());
        }
        Neighbours { below: 0, above: ONE_BITS, whole: m == 0, half_or_more: m >= HALF_BITS }
    } else {
        let exponent = m / HIDDEN_BIT;
        let k = 1075 - exponent;
        let p = 1u64 << k;
        proof {
            lemma_u64_pow2_no_overflow(k as nat);
            lemma_u64_shl_is_mul(1, k);
            lemma_low_bits_mask_unfold(k as nat);
            lemma_u64_low_bits_mask_is_mod(m, k as nat);
            lemma_magnitude_around(m, k as nat, p);
        }
        let fraction = m & (p - 1);
        let below = m - fraction;
        Neighbours {
            below,
            above: below + p,
            whole: fraction == 0,
            half_or_more: 2 * fraction >= p,
        }
    }
}

impl Binary64 {
    /// `self` is `x` rounded to a whole number: towards zero, or, where
    /// `away` holds and `x` is not whole, to the next whole number away from
    /// zero. The sign bit stays, so a value between minus one and zero may
    /// round to negative zero. A value that is not finite stays as it is.
    pub open spec fn rounds(self, x: Binary64, away: bool) -> bool {
        if x.finite() {
            &&& self.finite()
            &&& self.negative() == x.negative()
            &&& self.magnitude() == whole_below(x.magnitude()) + if away && !x.integral() {
                unit()
            } else {
                0
            }
        } else {
            self == x
        }
    }

    /// The fractional part of a finite value is one half or more.
    pub open spec fn half_or_more(self) -> bool {
        2 * (self.magnitude() % unit()) >= unit()
    }

    /// The value with the sign of `self` and the magnitude bits `m`.
    fn with_magnitude(self, m: u64) -> (value: Binary64)
        requires
            m < SIGN_BIT,
        ensures
            value.negative() == self.negative(),
            value.magnitude_bits() == m,
    {
        let sign = self.bits - self.magnitude_field();
        Binary64 { bits: sign + m }
    }

    /// Rounds towards zero.
    pub fn trunc(self) -> (whole: Binary64)
        ensures
            whole.rounds(self, false),
    {
        let m = self.magnitude_field();
        if m >= INFINITY_BITS {
            return self;
        }
        let found = neighbours(m);
        self.with_magnitude(found.below)
    }

    /// Rounds towards negative infinity.
    pub fn floor(self) -> (whole: Binary64)
        ensures
            whole.rounds(self, self.negative()),
    {
        let m = self.magnitude_field();
        if m >= INFINITY_BITS {
            return self;
        }
        let found = neighbours(m);
        if self.is_sign_negative() && !found.whole {
            self.with_magnitude(found.above)
        } else {
            self.with_magnitude(found.below)
        }
    }

    /// Rounds towards positive infinity.
    pub fn ceil(self) -> (whole: Binary64)
        ensures
            whole.rounds(self, !self.negative()),
    {
        let m = self.magnitude_field();
        if m >= INFINITY_BITS {
            return self;
        }
        let found = neighbours(m);
        if !self.is_sign_negative() && !found.whole {
            self.with_magnitude(found.above)
        } else {
            self.with_magnitude(found.below)
        }
    }

    /// Rounds to the nearest whole number, and a value halfway between two
    /// of them away from zero.
    pub fn round(self) -> (whole: Binary64)
        ensures
            whole.rounds(self, self.half_or_more()),
    {
        let m = self.magnitude_field();
        if m >= INFINITY_BITS {
            return self;
        }
        let found = neighbours(m);
        proof {
            lemma_pow2_pos(1074);
        }
        if found.half_or_more {
            self.with_magnitude(found.above)
        } else {
            self.with_magnitude(found.below)
        }
    }
}

/// The whole number below a magnitude is whole, is at most the magnitude, and
/// is less than one away from it; the next whole number is whole too.
pub proof fn lemma_whole_below(magnitude: nat)
    ensures
        whole_below(magnitude) % unit() == 0,
        (whole_below(magnitude) + unit()) % unit() == 0,
        whole_below(magnitude) <= magnitude < whole_below(magnitude) + unit(),
        whole_below(magnitude) + magnitude % unit() == magnitude,
{
    let u = unit() as int;
    let q = magnitude as int / u;
    lemma_pow2_pos(1074);
    lemma_fundamental_div_mod(magnitude as int, u);
    lemma_mod_multiples_basic(q, u);
    lemma_mod_multiples_basic(q + 1, u);
    assert((q + 1) * u == q * u + u) by (nonlinear_arith);
    assert(u * q == q * u) by (nonlinear_arith);
}

/// A rounding has one result: sign and magnitude fix the bits.
pub proof fn lemma_rounding_is_unique(x: Binary64, away: bool, first: Binary64, second: Binary64)
    requires
        first.rounds(x, away),
        second.rounds(x, away),
    ensures
        first == second,
{
    if x.finite() {
        lemma_sign_and_magnitude_give_the_bits(first, second);
    }
}

/// The relation between a value and what `trunc` returns for it.
pub open spec fn truncates() -> Unary {
    |x: Binary64, y: Binary64| y.rounds(x, false)
}

/// The relation between a value and what `floor` returns for it.
pub open spec fn floors() -> Unary {
    |x: Binary64, y: Binary64| y.rounds(x, x.negative())
}

/// The relation between a value and what `ceil` returns for it.
pub open spec fn ceils() -> Unary {
    |x: Binary64, y: Binary64| y.rounds(x, !x.negative())
}

/// The relation between a value and what `round` returns for it.
pub open spec fn rounds_to_nearest() -> Unary {
    |x: Binary64, y: Binary64| y.rounds(x, x.half_or_more())
}

/// Each of the four roundings gives one result for each value.
pub proof fn lemma_roundings_are_deterministic()
    ensures
        deterministic(truncates()),
        deterministic(floors()),
        deterministic(ceils()),
        deterministic(rounds_to_nearest()),
{
    assert forall|x: Binary64, y: Binary64, z: Binary64| #[trigger]
        truncates()(x, y) && #[trigger] truncates()(x, z) implies y == z by {
        lemma_rounding_is_unique(x, false, y, z);
    }
    assert forall|x: Binary64, y: Binary64, z: Binary64| #[trigger]
        floors()(x, y) && #[trigger] floors()(x, z) implies y == z by {
        lemma_rounding_is_unique(x, x.negative(), y, z);
    }
    assert forall|x: Binary64, y: Binary64, z: Binary64| #[trigger]
        ceils()(x, y) && #[trigger] ceils()(x, z) implies y == z by {
        lemma_rounding_is_unique(x, !x.negative(), y, z);
    }
    assert forall|x: Binary64, y: Binary64, z: Binary64| #[trigger]
        rounds_to_nearest()(x, y) && #[trigger] rounds_to_nearest()(x, z) implies y == z by {
        lemma_rounding_is_unique(x, x.half_or_more(), y, z);
    }
}

/// Every rounding returns a whole value as it is.
pub proof fn lemma_whole_values_stay(x: Binary64, away: bool, whole: Binary64)
    requires
        x.integral(),
        whole.rounds(x, away),
    ensures
        whole == x,
{
    lemma_whole_below(x.magnitude());
    lemma_sign_and_magnitude_give_the_bits(whole, x);
}

/// Rounding towards zero gives the greatest whole magnitude that is not above
/// the magnitude of the value.
pub proof fn lemma_trunc_is_whole_part(x: Binary64, whole: Binary64)
    requires
        x.finite(),
        whole.rounds(x, false),
    ensures
        whole.integral(),
        whole.magnitude() <= x.magnitude() < whole.magnitude() + unit(),
{
    lemma_whole_below(x.magnitude());
}

/// Rounding towards negative infinity gives the greatest whole number that is
/// not above the value.
pub proof fn lemma_floor_is_greatest_whole_below(x: Binary64, whole: Binary64)
    requires
        x.finite(),
        whole.rounds(x, x.negative()),
    ensures
        whole.integral(),
        whole.value() <= x.value() < whole.value() + unit(),
{
    lemma_whole_below(x.magnitude());
}

/// Rounding towards positive infinity gives the least whole number that is
/// not below the value.
pub proof fn lemma_ceil_is_least_whole_above(x: Binary64, whole: Binary64)
    requires
        x.finite(),
        whole.rounds(x, !x.negative()),
    ensures
        whole.integral(),
        whole.value() - unit() < x.value() <= whole.value(),
{
    lemma_whole_below(x.magnitude());
}

/// Rounding to nearest gives a whole number at most one half away from the
/// value, and where two are that near, the one of greater magnitude.
pub proof fn lemma_round_is_nearest_whole(x: Binary64, whole: Binary64)
    requires
        x.finite(),
        whole.rounds(x, x.half_or_more()),
    ensures
        whole.integral(),
        2 * (whole.value() - x.value()) <= unit(),
        2 * (x.value() - whole.value()) <= unit(),
        2 * (x.magnitude() - whole.magnitude()) < unit(),
{
    lemma_whole_below(x.magnitude());
}

/// A finite value is its whole part plus its fractional part. Where `whole`
/// is `x` rounded towards zero, and `fraction` has the sign bit of `x` and
/// the magnitude that the whole part leaves of it, the two add up to `x`
/// exactly, and the fraction is less than one in magnitude.
pub proof fn lemma_whole_and_fraction_give_the_value(
    x: Binary64,
    whole: Binary64,
    fraction: Binary64,
)
    requires
        x.finite(),
        whole.rounds(x, false),
        fraction.negative() == x.negative(),
        fraction.magnitude() == x.magnitude() % unit(),
    ensures
        whole.integral(),
        fraction.magnitude() < unit(),
        whole.value() + fraction.value() == x.value(),
{
    lemma_whole_below(x.magnitude());
}

} // verus!
