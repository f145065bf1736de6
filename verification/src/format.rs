//! The layout of a binary interchange format and the fields of a bit pattern.

use vstd::prelude::*;
use vstd::arithmetic::power2::{pow2, lemma2_to64};
use crate::pow2::{lemma_mask_is_mod, lemma_one_shl_is_pow2, lemma_shr_is_div};
use crate::value::{Dyadic, Value};

verus! {

/// The five classes into which IEEE-754 sorts every bit pattern.
#[derive(Clone, Copy, Debug, PartialEq, Eq, Structural)]
pub enum FpCategory {
    /// Not a number: the exponent field is all ones and the mantissa is not zero.
    Nan,
    /// Positive or negative infinity.
    Infinite,
    /// Positive or negative zero.
    Zero,
    /// A nonzero value without the implicit leading bit.
    Subnormal,
    /// A value with the implicit leading bit.
    Normal,
}

/// The geometry of a binary floating-point format: one sign bit, then
/// `exponent_bits` bits of biased exponent, then `mantissa_bits` bits of
/// mantissa, the mantissa in the lowest bits of the pattern.
#[derive(Clone, Copy, Debug, PartialEq, Eq, Structural)]
pub struct Format {
    pub exponent_bits: u32,
    pub mantissa_bits: u32,
}

impl Format {
    /// A format is valid when its exponent field has at least two bits, so
    /// that every subnormal number lies below one, and the whole pattern
    /// fits into 64 bits.
    pub open spec fn wf(self) -> bool {
        2 <= self.exponent_bits && self.exponent_bits + self.mantissa_bits <= 63
    }

    /// The half-precision format, binary16.
    pub open spec fn spec_binary16() -> Format {
        Format { exponent_bits: 5, mantissa_bits: 10 }
    }

    /// The single-precision format, binary32.
    pub open spec fn spec_binary32() -> Format {
        Format { exponent_bits: 8, mantissa_bits: 23 }
    }

    /// The double-precision format, binary64.
    pub open spec fn spec_binary64() -> Format {
        Format { exponent_bits: 11, mantissa_bits: 52 }
    }

    /// The amount by which the exponent field exceeds the true exponent.
    pub open spec fn bias(self) -> int {
        pow2((self.exponent_bits - 1) as nat) - 1
    }

    /// The exponent field that marks infinities and NaNs.
    pub open spec fn max_exponent(self) -> nat {
        (pow2(self.exponent_bits as nat) - 1) as nat
    }

    /// The sign bit of `bits`.
    pub open spec fn sign_of(self, bits: u64) -> bool {
        (bits as nat / pow2((self.exponent_bits + self.mantissa_bits) as nat)) % 2 == 1
    }

    /// The biased exponent field of `bits`.
    pub open spec fn exponent_of(self, bits: u64) -> nat {
        (bits as nat / pow2(self.mantissa_bits as nat)) % pow2(self.exponent_bits as nat)
    }

    /// The mantissa field of `bits`.
    pub open spec fn mantissa_of(self, bits: u64) -> nat {
        bits as nat % pow2(self.mantissa_bits as nat)
    }

    /// The class of `bits`, read off the exponent and mantissa fields.
    pub open spec fn category_of(self, bits: u64) -> FpCategory {
        let e = self.exponent_of(bits);
        let m = self.mantissa_of(bits);
        if e == self.max_exponent() {
            if m == 0 {
                FpCategory::Infinite
            } else {
                FpCategory::Nan
            }
        } else if e == 0 {
            if m == 0 {
                FpCategory::Zero
            } else {
                FpCategory::Subnormal
            }
        } else {
            FpCategory::Normal
        }
    }

    /// The number that `bits` denotes. A nonzero exponent field puts an
    /// implicit leading bit in front of the mantissa; an exponent field of
    /// zero stands for the smallest exponent without that bit.
    pub open spec fn value_of(self, bits: u64) -> Value {
        let e = self.exponent_of(bits);
        let m = self.mantissa_of(bits);
        let negative = self.sign_of(bits);
        if e == self.max_exponent() {
            if m == 0 {
                Value::Infinite { negative }
            } else {
                Value::Nan
            }
        } else if e == 0 {
            Value::Finite(
                Dyadic { negative, significand: m, scale: 1 - self.bias() - self.mantissa_bits },
            )
        } else {
            Value::Finite(
                Dyadic {
                    negative,
                    significand: pow2(self.mantissa_bits as nat) + m,
                    scale: e - self.bias() - self.mantissa_bits,
                },
            )
        }
    }

    /// The format with the given field widths, if it is a valid one.
    pub fn new(exponent_bits: u32, mantissa_bits: u32) -> (r: Option<Format>)
        ensures
            r == (if 2 <= exponent_bits && exponent_bits + mantissa_bits <= 63 {
                Some(Format { exponent_bits, mantissa_bits })
            } else {
                None
            }),
            r matches Some(f) ==> f.wf(),
    {
        if exponent_bits >= 2 && exponent_bits <= 63 && mantissa_bits <= 63 - exponent_bits {
            Some(Format { exponent_bits, mantissa_bits })
        } else {
            None
        }
    }

    /// The half-precision format, binary16.
    #[verifier::when_used_as_spec(spec_binary16)]
    pub fn binary16() -> (f: Format)
        ensures
            f == Format::spec_binary16(),
    {
        Format { exponent_bits: 5, mantissa_bits: 10 }
    }

    /// The single-precision format, binary32.
    #[verifier::when_used_as_spec(spec_binary32)]
    pub fn binary32() -> (f: Format)
        ensures
            f == Format::spec_binary32(),
    {
        Format { exponent_bits: 8, mantissa_bits: 23 }
    }

    /// The double-precision format, binary64.
    #[verifier::when_used_as_spec(spec_binary64)]
    pub fn binary64() -> (f: Format)
        ensures
            f == Format::spec_binary64(),
    {
        Format { exponent_bits: 11, mantissa_bits: 52 }
    }

    /// Extracts the sign bit.
    pub fn sign(&self, bits: u64) -> (negative: bool)
        requires
            self.wf(),
        ensures
            negative == self.sign_of(bits),
    {
        let shift: u32 = self.exponent_bits + self.mantissa_bits;
        proof {
            lemma_shr_is_div(bits, shift as u64);
            lemma_mask_is_mod(bits >> shift, 1);
            lemma_one_shl_is_pow2(1);
            lemma2_to64();
        }
        (bits >> shift) & 1 == 1
    }

    /// Extracts the biased exponent field.
    pub fn exponent(&self, bits: u64) -> (e: u64)
        requires
            self.wf(),
        ensures
            e == self.exponent_of(bits),
    {
        proof {
            lemma_shr_is_div(bits, self.mantissa_bits as u64);
            lemma_mask_is_mod(bits >> self.mantissa_bits, self.exponent_bits as u64);
        }
        (bits >> self.mantissa_bits) & ((1u64 << self.exponent_bits) - 1)
    }

    /// Extracts the mantissa field.
    pub fn mantissa(&self, bits: u64) -> (m: u64)
        requires
            self.wf(),
        ensures
            m == self.mantissa_of(bits),
    {
        proof {
            lemma_mask_is_mod(bits, self.mantissa_bits as u64);
        }
        bits & ((1u64 << self.mantissa_bits) - 1)
    }

    /// Sorts `bits` into its class.
    pub fn category(&self, bits: u64) -> (c: FpCategory)
        requires
            self.wf(),
        ensures
            c == self.category_of(bits),
    {
        proof {
            lemma_one_shl_is_pow2(self.exponent_bits as u64);
        }
        let e: u64 = self.exponent(bits);
        let m: u64 = self.mantissa(bits);
        let max: u64 = (1u64 << self.exponent_bits) - 1;
        if e == max {
            if m == 0 {
                FpCategory::Infinite
            } else {
                FpCategory::Nan
            }
        } else if e == 0 {
            if m == 0 {
                FpCategory::Zero
            } else {
                FpCategory::Subnormal
            }
        } else {
            FpCategory::Normal
        }
    }
}

} // verus!
