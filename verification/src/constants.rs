//! Bit patterns of the values that the cases start from and step by.
//!
//! Each is the binary64 value that the named decimal expression evaluates to
//! under IEEE 754 arithmetic, rounding to nearest.

use vstd::prelude::*;

verus! {

/// The value nearest to pi.
pub const PI_BITS: u64 = 0x4009_21FB_5444_2D18;

/// The value nearest to pi, divided by 100.
pub const PI_OVER_100_BITS: u64 = 0x3FA0_15BF_9217_271A;

/// The value nearest to one millionth.
pub const MILLIONTH_BITS: u64 = 0x3EB0_C6F7_A0B5_ED8D;

/// The value nearest to one billionth.
pub const BILLIONTH_BITS: u64 = 0x3E11_2E0B_E826_D695;

/// The value nearest to nine tenths, divided by a billion.
pub const NINE_TENTHS_OF_A_BILLIONTH_BITS: u64 = 0x3E0E_EC7B_D512_B572;

/// The value nearest to nine tenths.
pub const NINE_TENTHS_BITS: u64 = 0x3FEC_CCCC_CCCC_CCCD;

/// The value nearest to 0.999.
pub const JUST_BELOW_ONE_BITS: u64 = 0x3FEF_F7CE_D916_872B;

/// The value minus one.
pub const MINUS_ONE_BITS: u64 = 0xBFF0_0000_0000_0000;

/// The value nearest to pi, divided by two.
pub const HALF_PI_BITS: u64 = 0x3FF9_21FB_5444_2D18;

/// The value nearest to pi, divided by four.
pub const QUARTER_PI_BITS: u64 = 0x3FE9_21FB_5444_2D18;

/// Twice the value nearest to pi.
pub const TWO_PI_BITS: u64 = 0x4019_21FB_5444_2D18;

/// One half.
pub const HALF_BITS: u64 = 0x3FE0_0000_0000_0000;

/// Negative infinity.
pub const NEGATIVE_INFINITY_BITS: u64 = 0xFFF0_0000_0000_0000;

} // verus!
