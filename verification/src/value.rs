//! The numbers that bit patterns stand for.

use vstd::prelude::*;
use vstd::arithmetic::div_mod::{
    lemma_div_multiples_vanish_fancy, lemma_fundamental_div_mod, lemma_mod_multiples_basic,
    lemma_small_mod,
};
use vstd::arithmetic::power2::{pow2, lemma_pow2_pos, lemma_pow2_unfold};

verus! {

/// A finite binary floating-point number: `significand * 2^scale`, negated
/// when `negative` is set.
pub struct Dyadic {
    pub negative: bool,
    pub significand: nat,
    pub scale: int,
}

/// What a bit pattern denotes.
pub enum Value {
    /// Not a number.
    Nan,
    /// An infinity of the given sign.
    Infinite { negative: bool },
    /// A finite number.
    Finite(Dyadic),
}

/// `magnitude` with the given sign.
pub open spec fn signed(negative: bool, magnitude: nat) -> int {
    if negative {
        -(magnitude as int)
    } else {
        magnitude as int
    }
}

impl Dyadic {
    /// The number is `n` exactly.
    pub open spec fn equals_int(self, n: int) -> bool {
        if self.scale >= 0 {
            n == signed(self.negative, self.significand * pow2(self.scale as nat))
        } else {
            signed(self.negative, self.significand) == n * pow2((-self.scale) as nat)
        }
    }

    /// The number has no fractional part: a negative scale divides the
    /// significand without remainder.
    pub open spec fn is_integer(self) -> bool {
        self.scale >= 0 || self.significand % pow2((-self.scale) as nat) == 0
    }

    /// The integer part of the absolute value.
    pub open spec fn magnitude(self) -> nat {
        if self.scale >= 0 {
            self.significand * pow2(self.scale as nat)
        } else {
            self.significand / pow2((-self.scale) as nat)
        }
    }

    /// The number with its fractional part dropped.
    pub open spec fn to_int(self) -> int {
        signed(self.negative, self.magnitude())
    }

    /// The nearest integer, halves rounded away from zero.
    pub open spec fn round(self) -> int {
        if self.scale >= 0 {
            self.to_int()
        } else {
            signed(
                self.negative,
                (self.significand + pow2((-self.scale - 1) as nat)) / pow2((-self.scale) as nat),
            )
        }
    }
}

impl Value {
    /// The value is finite and has no fractional part.
    pub open spec fn is_integer(self) -> bool {
        self matches Value::Finite(d) && d.is_integer()
    }
}

/// An integral number is the integer `to_int` gives, and no other.
pub proof fn lemma_integer_is_to_int(d: Dyadic)
    requires
        d.is_integer(),
    ensures
        d.equals_int(d.to_int()),
        forall|n: int| d.equals_int(n) ==> n == d.to_int(),
{
    if d.scale < 0 {
        let p = pow2((-d.scale) as nat) as int;
        lemma_pow2_pos((-d.scale) as nat);
        lemma_fundamental_div_mod(d.significand as int, p);
        let q = d.significand as int / p;
        assert(d.significand == p * q);
        assert(p * q == q * p) by (nonlinear_arith);
        assert((-q) * p == -(q * p)) by (nonlinear_arith);
        assert forall|n: int| d.equals_int(n) implies n == d.to_int() by {
            assert(n * p == signed(d.negative, d.significand));
            if d.negative {
                assert(n == -q) by (nonlinear_arith)
                    requires
                        n * p == (-q) * p,
                        p > 0,
                ;
            } else {
                assert(n == q) by (nonlinear_arith)
                    requires
                        n * p == q * p,
                        p > 0,
                ;
            }
        }
    }
}

/// A number is integral exactly when it equals some integer.
pub proof fn lemma_is_integer_iff_equals_some_int(d: Dyadic)
    ensures
        d.is_integer() <==> exists|n: int| d.equals_int(n),
{
    if d.is_integer() {
        lemma_integer_is_to_int(d);
    }
    if exists|n: int| d.equals_int(n) {
        let n = choose|n: int| d.equals_int(n);
        if d.scale < 0 {
            let p = pow2((-d.scale) as nat) as int;
            lemma_pow2_pos((-d.scale) as nat);
            let m = if d.negative {
                -n
            } else {
                n
            };
            assert(d.significand == m * p) by (nonlinear_arith)
                requires
                    signed(d.negative, d.significand) == n * p,
                    m == (if d.negative {
                        -n
                    } else {
                        n
                    }),
            ;
            lemma_mod_multiples_basic(m, p);
        }
    }
}

/// A number is integral exactly when rounding to the nearest integer
/// leaves it as it is.
pub proof fn lemma_is_integer_iff_round_fixes(d: Dyadic)
    ensures
        d.is_integer() <==> d.equals_int(d.round()),
{
    lemma_is_integer_iff_equals_some_int(d);
    if d.scale < 0 {
        let k = (-d.scale) as nat;
        let p = pow2(k) as int;
        let h = pow2((k - 1) as nat) as int;
        lemma_pow2_pos(k);
        lemma_pow2_pos((k - 1) as nat);
        lemma_pow2_unfold(k);
        if d.is_integer() {
            lemma_integer_is_to_int(d);
            lemma_fundamental_div_mod(d.significand as int, p);
            let q = d.significand as int / p;
            assert(d.significand == p * q);
            lemma_div_multiples_vanish_fancy(q, h, p);
            assert(d.round() == d.to_int());
        }
    } else {
        assert(d.equals_int(d.round()));
    }
}

/// A nonzero number whose significand stays below the power of two that
/// its scale divides by lies strictly between zero and one in magnitude,
/// and so is no integer.
pub proof fn lemma_below_one_is_fraction(d: Dyadic)
    requires
        d.scale < 0,
        0 < d.significand < pow2((-d.scale) as nat),
    ensures
        !d.is_integer(),
{
    lemma_small_mod(d.significand, pow2((-d.scale) as nat));
}

} // verus!
