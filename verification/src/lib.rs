//! Exact integer tests and checked integer conversions for IEEE-754 binary
//! floating-point values, worked out on their bit patterns alone.
//!
//! A value is held as its raw bits ([`Binary16`], [`Binary32`],
//! [`Binary64`], or any pattern together with a [`Format`]). What the bits
//! mean is given by [`Format::value_of`], a sign, a significand and a power
//! of two, and every function here is proved against that meaning:
//! [`FloatExt::is_integer`] answers whether the number has a fractional
//! part, and [`TryIntoInt::try_into_int`] hands out the number as an
//! integer of the requested type or says why that type cannot hold it.

pub mod float;
pub mod format;
mod pow2;
pub mod target;
pub mod try_into;
pub mod value;

pub use float::{Binary16, Binary32, Binary64, FloatExt};
pub use format::{Format, FpCategory};
pub use target::TargetInt;
pub use try_into::{TryFromFloat, TryIntoInt, TryIntoIntError};
pub use value::{Dyadic, Value};
