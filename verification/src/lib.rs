//! A timing harness for elementary operations on binary64 values.
//!
//! A benchmark case applies one operation a billion times to an argument that
//! advances in small steps, sums the results so that no call can be skipped,
//! and reports how long that took. This library holds the cases, the loops
//! and the bookkeeping. It holds no floating-point code: a value is the
//! [`binary64::Binary64`] bit pattern that encodes it. Classification, sign
//! handling, ordering and rounding to whole numbers are computed on the
//! pattern; the addition and every other operation are functions that the
//! caller hands in.

pub mod binary64;
pub mod cases;
pub mod clock;
pub mod constants;
pub mod harness;
pub mod laws;
pub mod magnitude;
pub mod rounding;
pub mod split;
pub mod streams;
pub mod sweep;
pub mod walk;
