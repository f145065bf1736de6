//! Telling whether a floating-point value is an integer, from its bits.

use vstd::prelude::*;
use vstd::arithmetic::div_mod::{lemma_basic_div, lemma_mod_bound, lemma_small_mod};
use vstd::arithmetic::power2::{pow2, lemma2_to64, lemma_pow2_pos, lemma_pow2_unfold};
use crate::format::{Format, FpCategory};
use crate::pow2::{
    lemma_leading_bit_vanishes, lemma_mask_is_mod, lemma_one_shl_is_pow2, lemma_pow2_increases,
};
use crate::value::{lemma_below_one_is_fraction, lemma_is_integer_iff_round_fixes, Value};

verus! {

impl Format {
    /// `Ok` for a pattern that denotes an integer, else the pattern's class.
    pub open spec fn integer_class_of(self, bits: u64) -> Result<(), FpCategory> {
        if self.value_of(bits).is_integer() {
            Ok(())
        } else {
            Err(self.category_of(bits))
        }
    }

    /// Zero is an integer, whatever its sign.
    pub proof fn lemma_zero_is_integer(self, bits: u64)
        requires
            self.wf(),
            self.category_of(bits) == FpCategory::Zero,
        ensures
            self.value_of(bits) matches Value::Finite(d) && d.is_integer() && d.magnitude() == 0,
    {
        let d = self.value_of(bits)->Finite_0;
        if d.scale < 0 {
            lemma_pow2_pos((-d.scale) as nat);
            lemma_small_mod(0, pow2((-d.scale) as nat));
            lemma_basic_div(0, pow2((-d.scale) as nat) as int);
        } else {
            assert(0 * pow2(d.scale as nat) == 0);
        }
    }

    /// A subnormal number is smaller than one in magnitude and not zero,
    /// and so is no integer.
    pub proof fn lemma_subnormal_is_fraction(self, bits: u64)
        requires
            self.wf(),
            self.category_of(bits) == FpCategory::Subnormal,
        ensures
            !self.value_of(bits).is_integer(),
    {
        let m = self.mantissa_bits as nat;
        let d = self.value_of(bits)->Finite_0;
        lemma_pow2_pos(m);
        lemma_mod_bound(bits as int, pow2(m) as int);
        lemma_pow2_unfold((self.exponent_bits - 1) as nat);
        lemma_pow2_pos((self.exponent_bits - 2) as nat);
        assert(self.bias() >= 1);
        if m == 0 {
            lemma2_to64();
        } else {
            lemma_pow2_increases(m, (-d.scale) as nat);
            lemma_below_one_is_fraction(d);
        }
    }

    /// A normal number with a negative exponent is smaller than one in
    /// magnitude, and so is no integer.
    pub proof fn lemma_negative_exponent_is_fraction(self, bits: u64)
        requires
            self.wf(),
            self.category_of(bits) == FpCategory::Normal,
            self.exponent_of(bits) < self.bias(),
        ensures
            !self.value_of(bits).is_integer(),
    {
        let m = self.mantissa_bits as nat;
        let d = self.value_of(bits)->Finite_0;
        lemma_pow2_pos(m);
        lemma_mod_bound(bits as int, pow2(m) as int);
        lemma_pow2_unfold(m + 1);
        lemma_pow2_increases(m + 1, (-d.scale) as nat);
        lemma_below_one_is_fraction(d);
    }

    /// A normal number whose exponent `x` lies in `0 .. mantissa_bits` is
    /// an integer exactly when the lowest `mantissa_bits - x` bits of its
    /// mantissa are all zero.
    pub proof fn lemma_fraction_bits(self, bits: u64)
        requires
            self.wf(),
            self.category_of(bits) == FpCategory::Normal,
            self.bias() <= self.exponent_of(bits) < self.bias() + self.mantissa_bits,
        ensures
            self.value_of(bits).is_integer() <==> self.mantissa_of(bits) % pow2(
                (self.mantissa_bits + self.bias() - self.exponent_of(bits)) as nat,
            ) == 0,
    {
        let m = self.mantissa_bits as nat;
        let k = (self.mantissa_bits + self.bias() - self.exponent_of(bits)) as nat;
        lemma_leading_bit_vanishes(self.mantissa_of(bits), m, k);
    }

    /// A normal number whose exponent reaches the width of the mantissa is
    /// an integer: no mantissa bit lies below the binary point.
    pub proof fn lemma_large_exponent_is_integer(self, bits: u64)
        requires
            self.wf(),
            self.category_of(bits) == FpCategory::Normal,
            self.exponent_of(bits) >= self.bias() + self.mantissa_bits,
        ensures
            self.value_of(bits).is_integer(),
    {
    }

    /// On finite patterns the classification agrees with rounding: it is
    /// `Ok` exactly when rounding to the nearest integer changes nothing.
    pub proof fn lemma_class_agrees_with_rounding(self, bits: u64)
        requires
            self.wf(),
            self.value_of(bits) is Finite,
        ensures
            self.integer_class_of(bits) is Ok <==> self.value_of(bits)->Finite_0.equals_int(
                self.value_of(bits)->Finite_0.round(),
            ),
    {
        lemma_is_integer_iff_round_fixes(self.value_of(bits)->Finite_0);
    }

    /// Tells whether `bits` denotes an integer. Zero is one; infinities,
    /// NaNs and subnormal numbers are not; a normal number is one when
    /// none of the mantissa bits below the binary point is set.
    pub fn integer_classify(&self, bits: u64) -> (r: Result<(), FpCategory>)
        requires
            self.wf(),
        ensures
            r == self.integer_class_of(bits),
    {
        match self.category(bits) {
            FpCategory::Zero => {
                proof {
                    self.lemma_zero_is_integer(bits);
                }
                Ok(())
            },
            FpCategory::Normal => {
                proof {
                    lemma_one_shl_is_pow2((self.exponent_bits - 1) as u64);
                }
                let bias: u64 = (1u64 << (self.exponent_bits - 1)) - 1;
                let e: u64 = self.exponent(bits);
                if e < bias {
                    proof {
                        self.lemma_negative_exponent_is_fraction(bits);
                    }
                    Err(FpCategory::Normal)
                } else {
                    let exponent: u64 = e - bias;
                    let width: u64 = self.mantissa_bits as u64;
                    if exponent >= width {
                        Ok(())
                    } else {
                        let m: u64 = self.mantissa(bits);
                        proof {
                            self.lemma_fraction_bits(bits);
                            lemma_mask_is_mod(m, (width - exponent) as u64);
                        }
                        let mask: u64 = (1u64 << (width - exponent)) - 1;
                        if m & mask == 0 {
                            Ok(())
                        } else {
                            Err(FpCategory::Normal)
                        }
                    }
                }
            },
            FpCategory::Subnormal => {
                proof {
                    self.lemma_subnormal_is_fraction(bits);
                }
                Err(FpCategory::Subnormal)
            },
            other => Err(other),
        }
    }
}

/// Floating-point values that can tell whether they are integers.
pub trait FloatExt: Sized {
    /// The class of the value.
    spec fn category(self) -> FpCategory;

    /// The number that the value is.
    spec fn value(self) -> Value;

    /// `Ok` when the value is an integer, else its class: `Nan` or
    /// `Infinite` for what is no number, `Normal` or `Subnormal` for a
    /// number with a fractional part.
    fn integer_classify(self) -> (r: Result<(), FpCategory>)
        ensures
            r == (if self.value().is_integer() {
                Ok(())
            } else {
                Err(self.category())
            }),
    ;

    /// Checks if the value contained inside the float is an integer.
    fn is_integer(self) -> (b: bool)
        ensures
            b == self.value().is_integer(),
    {
        self.integer_classify().is_ok()
    }
}

/// A half-precision value, held as its bit pattern.
#[derive(Clone, Copy, Debug, PartialEq, Eq, Structural)]
pub struct Binary16 {
    pub bits: u16,
}

/// A single-precision value, held as its bit pattern.
#[derive(Clone, Copy, Debug, PartialEq, Eq, Structural)]
pub struct Binary32 {
    pub bits: u32,
}

/// A double-precision value, held as its bit pattern.
#[derive(Clone, Copy, Debug, PartialEq, Eq, Structural)]
pub struct Binary64 {
    pub bits: u64,
}

impl Binary16 {
    /// The value with the given bit pattern.
    pub fn from_bits(bits: u16) -> (v: Binary16)
        ensures
            v.bits == bits,
    {
        Binary16 { bits }
    }

    /// The bit pattern of the value.
    pub fn to_bits(self) -> (bits: u16)
        ensures
            bits == self.bits,
    {
        self.bits
    }
}

impl Binary32 {
    /// The value with the given bit pattern.
    pub fn from_bits(bits: u32) -> (v: Binary32)
        ensures
            v.bits == bits,
    {
        Binary32 { bits }
    }

    /// The bit pattern of the value.
    pub fn to_bits(self) -> (bits: u32)
        ensures
            bits == self.bits,
    {
        self.bits
    }
}

impl Binary64 {
    /// The value with the given bit pattern.
    pub fn from_bits(bits: u64) -> (v: Binary64)
        ensures
            v.bits == bits,
    {
        Binary64 { bits }
    }

    /// The bit pattern of the value.
    pub fn to_bits(self) -> (bits: u64)
        ensures
            bits == self.bits,
    {
        self.bits
    }
}

impl View for Binary16 {
    type V = Value;

    /// The number that the bit pattern denotes.
    open spec fn view(&self) -> Value {
        Format::binary16().value_of(self.bits as u64)
    }
}

impl FloatExt for Binary16 {
    open spec fn category(self) -> FpCategory {
        Format::binary16().category_of(self.bits as u64)
    }

    open spec fn value(self) -> Value {
        self@
    }

    fn integer_classify(self) -> (r: Result<(), FpCategory>) {
        let r = Format::binary16().integer_classify(self.bits as u64);
        assert(self.category() == Format::binary16().category_of(self.bits as u64));
        r
    }
}

impl View for Binary32 {
    type V = Value;

    /// The number that the bit pattern denotes.
    open spec fn view(&self) -> Value {
        Format::binary32().value_of(self.bits as u64)
    }
}

impl FloatExt for Binary32 {
    open spec fn category(self) -> FpCategory {
        Format::binary32().category_of(self.bits as u64)
    }

    open spec fn value(self) -> Value {
        self@
    }

    fn integer_classify(self) -> (r: Result<(), FpCategory>) {
        let r = Format::binary32().integer_classify(self.bits as u64);
        assert(self.category() == Format::binary32().category_of(self.bits as u64));
        r
    }
}

impl View for Binary64 {
    type V = Value;

    /// The number that the bit pattern denotes.
    open spec fn view(&self) -> Value {
        Format::binary64().value_of(self.bits)
    }
}

impl FloatExt for Binary64 {
    open spec fn category(self) -> FpCategory {
        Format::binary64().category_of(self.bits)
    }

    open spec fn value(self) -> Value {
        self@
    }

    fn integer_classify(self) -> (r: Result<(), FpCategory>) {
        let r = Format::binary64().integer_classify(self.bits);
        assert(self.category() == Format::binary64().category_of(self.bits));
        r
    }
}

/// Classifying a value depends on the value alone: whatever two calls on
/// the same value return is the same.
pub proof fn lemma_classification_repeats<F: FloatExt>(
    v: F,
    first: Result<(), FpCategory>,
    second: Result<(), FpCategory>,
)
    requires
        call_ensures(F::integer_classify, (v,), first),
        call_ensures(F::integer_classify, (v,), second),
    ensures
        first == second,
{
}

/// `is_integer` is true exactly when `integer_classify` is `Ok`.
pub proof fn lemma_is_integer_iff_classified_ok<F: FloatExt>(
    v: F,
    class: Result<(), FpCategory>,
    answer: bool,
)
    requires
        call_ensures(F::integer_classify, (v,), class),
        call_ensures(F::is_integer, (v,), answer),
    ensures
        answer == class is Ok,
{
}

} // verus!
