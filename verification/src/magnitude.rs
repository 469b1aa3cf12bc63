//! What a bit pattern is worth.
//!
//! Every finite binary64 value is a whole multiple of 2^-1074, the spacing of
//! the smallest subnormal values. Counting in that spacing, the magnitude of a
//! finite value is a natural number, and one is 2^1074 of them.

use vstd::prelude::*;
use vstd::arithmetic::div_mod::{lemma_fundamental_div_mod, lemma_fundamental_div_mod_converse};
use vstd::arithmetic::power2::{
    lemma2_to64, lemma2_to64_rest, lemma_pow2_adds, lemma_pow2_pos, lemma_pow2_strictly_increases,
    lemma_pow2_unfold, pow2,
};
use crate::binary64::{Binary64, INFINITY_BITS, ONE_BITS};

verus! {

/// Two to the power 52: the weight of the lowest bit of the exponent field
/// within the pattern, and the leading bit of a normal significand.
pub const HIDDEN_BIT: u64 = 0x0010_0000_0000_0000;

/// The magnitude that the magnitude bits `m` encode, in units of 2^-1074.
/// With the exponent field `e` and the fraction field `f`, that is `f` for a
/// subnormal and `(2^52 + f) * 2^(e - 1)` for a normal value. The same formula
/// gives the pattern of infinity a number above every finite magnitude.
pub open spec fn magnitude_of(m: u64) -> nat {
    let exponent = m / HIDDEN_BIT;
    let fraction = m % HIDDEN_BIT;
    if exponent == 0 {
        fraction as nat
    } else {
        ((HIDDEN_BIT + fraction) * pow2((exponent - 1) as nat)) as nat
    }
}

/// The value one, in units of 2^-1074.
pub open spec fn unit() -> nat {
    pow2(1074)
}

impl Binary64 {
    /// The magnitude of a finite value, in units of 2^-1074.
    pub open spec fn magnitude(self) -> nat {
        magnitude_of(self.magnitude_bits())
    }

    /// A finite value, in units of 2^-1074.
    pub open spec fn value(self) -> int {
        if self.negative() {
            -(self.magnitude() as int)
        } else {
            self.magnitude() as int
        }
    }

    /// A finite value without a fractional part.
    pub open spec fn integral(self) -> bool {
        self.finite() && self.magnitude() % unit() == 0
    }
}

/// Within one binade, and at its upper end, the magnitude is linear in the
/// magnitude bits.
pub proof fn lemma_magnitude_in_binade(m: u64, e: nat)
    requires
        1 <= e <= 2047,
        e * HIDDEN_BIT <= m <= (e + 1) * HIDDEN_BIT,
    ensures
        magnitude_of(m) == (m - (e - 1) * HIDDEN_BIT) * pow2((e - 1) as nat),
{
    let t = HIDDEN_BIT as int;
    if m < (e + 1) * t {
        lemma_fundamental_div_mod_converse(m as int, t, e as int, m - e * t);
    } else {
        lemma_fundamental_div_mod_converse(m as int, t, (e + 1) as int, 0);
        lemma_pow2_unfold(e);
        let half = pow2((e - 1) as nat) as int;
        assert(t * (2 * half) == (2 * t) * half) by (nonlinear_arith);
    }
}

/// The pattern of one encodes one, and the pattern of zero encodes zero.
pub proof fn lemma_magnitude_of_one()
    ensures
        magnitude_of(ONE_BITS) == unit(),
        magnitude_of(0) == 0,
{
    lemma_magnitude_in_binade(ONE_BITS, 1023);
    lemma2_to64_rest();
    lemma_pow2_adds(52, 1022);
}

/// Below the pattern of one lie the magnitudes below one, and from the
/// pattern of one half on those of at least one half.
pub proof fn lemma_magnitude_below_one(m: u64)
    requires
        m < ONE_BITS,
    ensures
        magnitude_of(m) < unit(),
        magnitude_of(m) == 0 <==> m == 0,
        2 * magnitude_of(m) >= unit() <==> m >= 1022 * HIDDEN_BIT,
{
    let t = HIDDEN_BIT as int;
    lemma2_to64_rest();
    lemma_pow2_unfold(1074);
    if m < t {
        lemma_pow2_strictly_increases(52, 1073);
    } else {
        let e = (m / HIDDEN_BIT) as nat;
        lemma_fundamental_div_mod(m as int, t);
        lemma_magnitude_in_binade(m, e);
        let scale = pow2((e - 1) as nat) as int;
        let leading = m - (e - 1) * t;
        lemma_pow2_pos((e - 1) as nat);
        lemma_pow2_adds(52, (e - 1) as nat);
        assert(t * scale == pow2((51 + e) as nat));
        assert(leading * scale >= t * scale) by (nonlinear_arith)
            requires
                leading >= t,
                scale > 0,
        ;
        assert(leading * scale < 2 * (t * scale)) by (nonlinear_arith)
            requires
                leading < 2 * t,
                scale > 0,
        ;
        lemma_pow2_unfold((52 + e) as nat);
        if e < 1021 {
            lemma_pow2_strictly_increases((52 + e) as nat, 1073);
        }
    }
}

/// From the pattern of 2^52 on, every finite value is a whole number.
pub proof fn lemma_magnitude_is_whole_above(m: u64)
    requires
        1075 * HIDDEN_BIT <= m < INFINITY_BITS,
    ensures
        magnitude_of(m) % unit() == 0,
{
    let t = HIDDEN_BIT as int;
    let e = (m / HIDDEN_BIT) as nat;
    lemma_fundamental_div_mod(m as int, t);
    lemma_magnitude_in_binade(m, e);
    let leading = m - (e - 1) * t;
    let extra = pow2((e - 1075) as nat) as int;
    lemma_pow2_adds((e - 1075) as nat, 1074);
    assert(leading * (extra * unit()) == (leading * extra) * unit()) by (nonlinear_arith);
    lemma_pow2_pos(1074);
    lemma_pow2_pos((e - 1075) as nat);
    assert(leading * extra >= 0) by (nonlinear_arith)
        requires
            leading >= 0,
            extra >= 0,
    ;
    lemma_fundamental_div_mod_converse(magnitude_of(m) as int, unit() as int, leading * extra, 0);
}

/// Between the patterns of one and of 2^52, clearing the `k` fraction bits
/// below the binary point gives the whole number below, and adding one unit
/// in the last place above the point gives the whole number above. Here `k`
/// is 52 less the unbiased exponent, and `p` is two to the power `k`.
pub proof fn lemma_magnitude_around(m: u64, k: nat, p: u64)
    requires
        1 <= k <= 52,
        p == pow2(k),
        (1075 - k) * HIDDEN_BIT <= m < (1076 - k) * HIDDEN_BIT,
    ensures
        (1075 - k) * HIDDEN_BIT <= m - m % p,
        m - m % p + p <= (1076 - k) * HIDDEN_BIT,
        magnitude_of((m - m % p) as u64) == magnitude_of(m) - magnitude_of(m) % unit(),
        magnitude_of((m - m % p + p) as u64) == magnitude_of((m - m % p) as u64) + unit(),
        m % p == 0 <==> magnitude_of(m) % unit() == 0,
        2 * (m % p) >= p <==> 2 * (magnitude_of(m) % unit()) >= unit(),
{
    let t = HIDDEN_BIT as int;
    let e = (1075 - k) as nat;
    let scale = pow2((e - 1) as nat) as int;
    let c = pow2((52 - k) as nat) as int;
    let d = (m / p) as int;
    let r = (m % p) as int;
    let pp = p as int;
    lemma2_to64_rest();
    lemma_pow2_pos(k);
    lemma_pow2_pos((e - 1) as nat);
    lemma_pow2_pos((52 - k) as nat);
    lemma_pow2_pos(1074);
    lemma_pow2_adds((52 - k) as nat, k);
    lemma_pow2_adds(k, (e - 1) as nat);
    assert(t == c * pp);
    assert(pp * scale == unit());
    lemma_fundamental_div_mod(m as int, pp);
    assert(m == pp * d + r);
    // The quotient lies between the ends of the binade, counted in `p`.
    assert(e * c <= d) by (nonlinear_arith)
        requires
            e * (c * pp) <= pp * d + r,
            0 <= r < pp,
    ;
    assert(d + 1 <= (e + 1) * c) by (nonlinear_arith)
        requires
            pp * d + r < (e + 1) * (c * pp),
            0 <= r,
            0 < pp,
    ;
    assert(pp * d >= e * t) by (nonlinear_arith)
        requires
            e * c <= d,
            t == c * pp,
            0 < pp,
    ;
    assert(pp * d + pp <= (e + 1) * t) by (nonlinear_arith)
        requires
            d + 1 <= (e + 1) * c,
            t == c * pp,
            0 < pp,
    ;
    let whole = (m - r) as u64;
    let above = (m - r + pp) as u64;
    lemma_magnitude_in_binade(m, e);
    lemma_magnitude_in_binade(whole, e);
    lemma_magnitude_in_binade(above, e);
    let n = d - (e - 1) * c;
    assert(n >= 0) by (nonlinear_arith)
        requires
            n == d - (e - 1) * c,
            e * c <= d,
            c > 0,
            e >= 1,
    ;
    assert((pp * d - (e - 1) * t) * scale == n * unit()) by (nonlinear_arith)
        requires
            n == d - (e - 1) * c,
            t == c * pp,
            pp * scale == unit(),
    ;
    assert((pp * d + r - (e - 1) * t) * scale == n * unit() + r * scale) by (nonlinear_arith)
        requires
            (pp * d - (e - 1) * t) * scale == n * unit(),
    ;
    assert((pp * d + pp - (e - 1) * t) * scale == n * unit() + unit()) by (nonlinear_arith)
        requires
            (pp * d - (e - 1) * t) * scale == n * unit(),
            pp * scale == unit(),
    ;
    assert(0 <= r * scale < unit()) by (nonlinear_arith)
        requires
            0 <= r < pp,
            scale > 0,
            pp * scale == unit(),
    ;
    lemma_fundamental_div_mod_converse(magnitude_of(m) as int, unit() as int, n, r * scale);
    assert(r == 0 <==> r * scale == 0) by (nonlinear_arith)
        requires
            scale > 0,
            r >= 0,
    ;
    assert(2 * r >= pp <==> 2 * (r * scale) >= pp * scale) by (nonlinear_arith)
        requires
            scale > 0,
    ;
}

/// Every magnitude of a binade lies between the first of that binade and the
/// first of the next.
proof fn lemma_magnitude_bounds(m: u64)
    requires
        m <= INFINITY_BITS,
    ensures
        magnitude_of(m) < HIDDEN_BIT * pow2((m / HIDDEN_BIT) as nat),
        m >= HIDDEN_BIT ==> magnitude_of(m) >= HIDDEN_BIT * pow2((m / HIDDEN_BIT - 1) as nat),
{
    let t = HIDDEN_BIT as int;
    let e = (m / HIDDEN_BIT) as nat;
    lemma_fundamental_div_mod(m as int, t);
    if e == 0 {
        lemma2_to64();
    } else {
        lemma_magnitude_in_binade(m, e);
        let scale = pow2((e - 1) as nat) as int;
        let leading = m - (e - 1) * t;
        lemma_pow2_pos((e - 1) as nat);
        lemma_pow2_unfold(e);
        assert(leading * scale >= t * scale) by (nonlinear_arith)
            requires
                leading >= t,
                scale > 0,
        ;
        assert(leading * scale < t * (2 * scale)) by (nonlinear_arith)
            requires
                leading < 2 * t,
                scale > 0,
        ;
    }
}

/// Greater magnitude bits encode a greater magnitude, up to and including
/// those of infinity: the order of the patterns is the order of the values.
pub proof fn lemma_magnitude_increases(a: u64, b: u64)
    requires
        a < b <= INFINITY_BITS,
    ensures
        magnitude_of(a) < magnitude_of(b),
{
    let t = HIDDEN_BIT as int;
    let ea = (a / HIDDEN_BIT) as nat;
    let eb = (b / HIDDEN_BIT) as nat;
    lemma_fundamental_div_mod(a as int, t);
    lemma_fundamental_div_mod(b as int, t);
    assert(ea <= eb) by {
        if ea > eb {
            assert(t * ea >= t * (eb + 1)) by (nonlinear_arith)
                requires
                    ea >= eb + 1,
                    t > 0,
            ;
        }
    }
    if ea == eb {
        if ea > 0 {
            lemma_magnitude_in_binade(a, ea);
            lemma_magnitude_in_binade(b, ea);
            let scale = pow2((ea - 1) as nat) as int;
            lemma_pow2_pos((ea - 1) as nat);
            assert((a - (ea - 1) * t) * scale < (b - (ea - 1) * t) * scale) by (nonlinear_arith)
                requires
                    a < b,
                    scale > 0,
            ;
        }
    } else {
        lemma_magnitude_bounds(a);
        lemma_magnitude_bounds(b);
        if ea < eb - 1 {
            lemma_pow2_strictly_increases(ea, (eb - 1) as nat);
        }
        let low = pow2(ea) as int;
        let high = pow2((eb - 1) as nat) as int;
        assert(t * low <= t * high) by (nonlinear_arith)
            requires
                low <= high,
                t > 0,
        ;
    }
}

/// For values that are not NaN, the infinities among them, `less_than` is the
/// order of the values.
pub proof fn lemma_order_is_numeric(a: Binary64, b: Binary64)
    requires
        !a.nan(),
        !b.nan(),
    ensures
        a.less_than(b) <==> a.value() < b.value(),
        a.rank() == b.rank() <==> a.value() == b.value(),
{
    let ma = a.magnitude_bits();
    let mb = b.magnitude_bits();
    if ma < mb {
        lemma_magnitude_increases(ma, mb);
    } else if mb < ma {
        lemma_magnitude_increases(mb, ma);
    }
    if 0 < ma {
        lemma_magnitude_increases(0, ma);
    }
    if 0 < mb {
        lemma_magnitude_increases(0, mb);
    }
}

/// A sign and a magnitude name one value: two values that are not NaN, with
/// the same sign bit and the same magnitude, have the same bits.
pub proof fn lemma_sign_and_magnitude_give_the_bits(a: Binary64, b: Binary64)
    requires
        !a.nan(),
        !b.nan(),
        a.negative() == b.negative(),
        a.magnitude() == b.magnitude(),
    ensures
        a == b,
{
    let ma = a.magnitude_bits();
    let mb = b.magnitude_bits();
    if ma < mb {
        lemma_magnitude_increases(ma, mb);
    } else if mb < ma {
        lemma_magnitude_increases(mb, ma);
    }
}

} // verus!
