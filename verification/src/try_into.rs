//! Checked conversion of floating-point values into fixed-width integers.

use vstd::prelude::*;
use vstd::arithmetic::div_mod::lemma_mod_bound;
use vstd::arithmetic::power2::{pow2, lemma_pow2_adds, lemma_pow2_pos, lemma_pow2_unfold};
use crate::float::{Binary16, Binary32, Binary64};
use crate::format::{Format, FpCategory};
use crate::pow2::{
    lemma_one_shl_is_pow2, lemma_pow2_128, lemma_pow2_increases, lemma_shr_is_div,
    lemma_u128_shl_is_mul,
};
use crate::target::TargetInt;
use crate::value::{lemma_integer_is_to_int, lemma_is_integer_iff_equals_some_int, Value};

verus! {

/// Why a floating-point value has no counterpart in an integer type.
#[derive(Debug, Clone, Copy, PartialEq, Eq, Structural)]
pub enum TryIntoIntError {
    /// Value has a decimal part.
    Decimal,
    /// Value is too large to store in target integer type.
    PosOverflow,
    /// Value is too small to store in target integer type.
    NegOverlow,
    /// Value was zero, which a non-zero target type cannot hold. The
    /// conversions of this crate never report it.
    Zero,
    /// Value is a NaN or an infinity.
    InvalidCategory(FpCategory),
}

/// The error that turns away a value of the given class that is no
/// integer: a NaN or an infinity has an invalid category, a number has a
/// decimal part.
pub open spec fn error_of_class(class: FpCategory) -> TryIntoIntError {
    match class {
        FpCategory::Nan => TryIntoIntError::InvalidCategory(FpCategory::Nan),
        FpCategory::Infinite => TryIntoIntError::InvalidCategory(FpCategory::Infinite),
        _ => TryIntoIntError::Decimal,
    }
}

impl Format {
    /// What converting `bits` into the integer type `I` yields: the integer
    /// that `bits` denotes when `I` has it, else the reason why not.
    pub open spec fn conversion_of<I: TargetInt>(self, bits: u64) -> Result<I, TryIntoIntError> {
        match self.value_of(bits) {
            Value::Nan => Err(TryIntoIntError::InvalidCategory(FpCategory::Nan)),
            Value::Infinite { .. } => Err(TryIntoIntError::InvalidCategory(FpCategory::Infinite)),
            Value::Finite(d) => if !d.is_integer() {
                Err(TryIntoIntError::Decimal)
            } else if d.to_int() < I::least() {
                Err(TryIntoIntError::NegOverlow)
            } else if d.to_int() > I::greatest() {
                Err(TryIntoIntError::PosOverflow)
            } else {
                Ok(I::from_int(d.to_int()))
            },
        }
    }

    /// A pattern that denotes the integer `i` converts to `i` in every
    /// type whose range holds `i`.
    pub proof fn lemma_round_trip<I: TargetInt>(self, bits: u64, i: int)
        requires
            self.wf(),
            self.value_of(bits) matches Value::Finite(d) && d.equals_int(i),
            I::least() <= i <= I::greatest(),
        ensures
            self.conversion_of::<I>(bits) matches Ok(x) && x.to_int() == i,
    {
        let d = self.value_of(bits)->Finite_0;
        lemma_is_integer_iff_equals_some_int(d);
        lemma_integer_is_to_int(d);
        I::lemma_from_int(i);
    }

    /// A conversion succeeds only with the integer that the pattern
    /// denotes, and that integer lies in the range of the type.
    pub proof fn lemma_ok_is_exact<I: TargetInt>(self, bits: u64)
        requires
            self.wf(),
            self.conversion_of::<I>(bits) is Ok,
        ensures
            self.value_of(bits) is Finite,
            ({
                let d = self.value_of(bits)->Finite_0;
                let x = self.conversion_of::<I>(bits)->Ok_0;
                &&& d.equals_int(x.to_int())
                &&& I::least() <= x.to_int() <= I::greatest()
            }),
    {
        let d = self.value_of(bits)->Finite_0;
        lemma_integer_is_to_int(d);
        I::lemma_from_int(d.to_int());
    }

    /// The error follows the classification: what is no integer fails with
    /// the error of its class, and an integer is converted or overflows.
    /// `Zero` is never reported.
    pub proof fn lemma_error_follows_class<I: TargetInt>(self, bits: u64)
        requires
            self.wf(),
        ensures
            ({
                let class = self.integer_class_of(bits);
                let r = self.conversion_of::<I>(bits);
                &&& class is Err ==> r is Err && r->Err_0 == error_of_class(class->Err_0)
                &&& class is Ok && r is Err ==> r->Err_0 == TryIntoIntError::PosOverflow || r->Err_0
                    == TryIntoIntError::NegOverlow
                &&& r is Err ==> r->Err_0 != TryIntoIntError::Zero
            }),
    {
    }

    /// The magnitude of the integer that `bits` denotes, or `None` when it
    /// does not fit into 128 bits.
    fn integer_magnitude(&self, bits: u64) -> (r: Option<u128>)
        requires
            self.wf(),
            self.value_of(bits).is_integer(),
        ensures
            match r {
                Some(m) => m == self.value_of(bits)->Finite_0.magnitude(),
                None => self.value_of(bits)->Finite_0.magnitude() >= pow2(128),
            },
    {
        let e: u64 = self.exponent(bits);
        if e == 0 {
            proof {
                if self.category_of(bits) == FpCategory::Subnormal {
                    self.lemma_subnormal_is_fraction(bits);
                }
                self.lemma_zero_is_integer(bits);
            }
            Some(0)
        } else {
            let width: u64 = self.mantissa_bits as u64;
            let m: u64 = self.mantissa(bits);
            proof {
                lemma_one_shl_is_pow2((self.exponent_bits - 1) as u64);
                lemma_one_shl_is_pow2(width);
                lemma_mod_bound(bits as int, pow2(width as nat) as int);
                lemma_pow2_unfold((width + 1) as nat);
                lemma_one_shl_is_pow2((width + 1) as u64);
                if e < self.bias() {
                    self.lemma_negative_exponent_is_fraction(bits);
                }
            }
            let bias: u64 = (1u64 << (self.exponent_bits - 1)) - 1;
            let significand: u64 = (1u64 << self.mantissa_bits) + m;
            let exponent: u64 = e - bias;
            if exponent < width {
                proof {
                    lemma_shr_is_div(significand, (width - exponent) as u64);
                }
                Some((significand >> (width - exponent)) as u128)
            } else if exponent > 127 {
                proof {
                    let scale = (exponent - width) as nat;
                    lemma_pow2_adds(width as nat, scale);
                    lemma_pow2_increases(128, exponent as nat);
                    lemma_pow2_pos(scale);
                    assert(significand * pow2(scale) >= pow2(width as nat) * pow2(scale))
                        by (nonlinear_arith)
                        requires
                            significand >= pow2(width as nat),
                            pow2(scale) > 0,
                    ;
                }
                None
            } else {
                proof {
                    let scale = (exponent - width) as nat;
                    lemma_pow2_adds((width + 1) as nat, scale);
                    lemma_pow2_increases((exponent + 1) as nat, 128);
                    lemma_pow2_pos(scale);
                    lemma_pow2_128();
                    assert(significand * pow2(scale) < pow2((width + 1) as nat) * pow2(scale))
                        by (nonlinear_arith)
                        requires
                            significand < pow2((width + 1) as nat),
                            pow2(scale) > 0,
                    ;
                    lemma_u128_shl_is_mul(significand as u128, (exponent - width) as u128);
                }
                Some((significand as u128) << (exponent - width))
            }
        }
    }

    /// Converts `bits` into the integer type `I`: the exact integer, or why
    /// there is none.
    pub fn try_into_int<I: TargetInt>(&self, bits: u64) -> (r: Result<I, TryIntoIntError>)
        requires
            self.wf(),
        ensures
            r == self.conversion_of::<I>(bits),
    {
        match self.integer_classify(bits) {
            Ok(()) => {
                let negative: bool = self.sign(bits);
                let overflow = if negative {
                    TryIntoIntError::NegOverlow
                } else {
                    TryIntoIntError::PosOverflow
                };
                proof {
                    I::lemma_range();
                    lemma_pow2_128();
                }
                match self.integer_magnitude(bits) {
                    Some(magnitude) => match I::from_sign_magnitude(negative, magnitude) {
                        Some(v) => Ok(v),
                        None => Err(overflow),
                    },
                    None => Err(overflow),
                }
            },
            Err(FpCategory::Nan) => Err(TryIntoIntError::InvalidCategory(FpCategory::Nan)),
            Err(FpCategory::Infinite) => Err(
                TryIntoIntError::InvalidCategory(FpCategory::Infinite),
            ),
            Err(_) => Err(TryIntoIntError::Decimal),
        }
    }
}

/// Floating-point values that convert into the integer type `T` when they
/// are integers within its range.
pub trait TryIntoInt<T>: Sized {
    /// What the conversion yields.
    spec fn conversion(self) -> Result<T, TryIntoIntError>;

    /// The value as a `T`, or the reason why `T` does not have it.
    fn try_into_int(self) -> (r: Result<T, TryIntoIntError>)
        ensures
            r == self.conversion(),
    ;
}

/// Integer types that floating-point values of type `T` convert into.
pub trait TryFromFloat<T>: Sized {
    /// What the conversion of `v` yields.
    spec fn conversion_from(v: T) -> Result<Self, TryIntoIntError>;

    /// `v` as an integer of this type, or the reason why the type does not
    /// have it.
    fn try_from_float(v: T) -> (r: Result<Self, TryIntoIntError>)
        ensures
            r == Self::conversion_from(v),
    ;
}

impl<I: TargetInt> TryIntoInt<I> for Binary16 {
    open spec fn conversion(self) -> Result<I, TryIntoIntError> {
        Format::binary16().conversion_of::<I>(self.bits as u64)
    }

    fn try_into_int(self) -> (r: Result<I, TryIntoIntError>) {
        Format::binary16().try_into_int::<I>(self.bits as u64)
    }
}

impl<I: TargetInt> TryIntoInt<I> for Binary32 {
    open spec fn conversion(self) -> Result<I, TryIntoIntError> {
        Format::binary32().conversion_of::<I>(self.bits as u64)
    }

    fn try_into_int(self) -> (r: Result<I, TryIntoIntError>) {
        Format::binary32().try_into_int::<I>(self.bits as u64)
    }
}

impl<I: TargetInt> TryIntoInt<I> for Binary64 {
    open spec fn conversion(self) -> Result<I, TryIntoIntError> {
        Format::binary64().conversion_of::<I>(self.bits)
    }

    fn try_into_int(self) -> (r: Result<I, TryIntoIntError>) {
        Format::binary64().try_into_int::<I>(self.bits)
    }
}

impl<I, F: TryIntoInt<I>> TryFromFloat<F> for I {
    open spec fn conversion_from(v: F) -> Result<I, TryIntoIntError> {
        v.conversion()
    }

    fn try_from_float(v: F) -> (r: Result<I, TryIntoIntError>) {
        v.try_into_int()
    }
}

/// Converting from a float and converting into an integer are one
/// conversion under two names: whatever the two return for one value is
/// the same.
pub proof fn lemma_try_from_float_is_try_into_int<I, F: TryIntoInt<I>>(
    v: F,
    from: Result<I, TryIntoIntError>,
    into: Result<I, TryIntoIntError>,
)
    requires
        call_ensures(<I as TryFromFloat<F>>::try_from_float, (v,), from),
        call_ensures(F::try_into_int, (v,), into),
    ensures
        from == into,
{
}

} // verus!
