//! The fixed-width integer types that a conversion can aim at.

use vstd::prelude::*;
use crate::value::signed;

verus! {

/// A fixed-width integer type, described by its range and by how a sign
/// and a magnitude turn into a value of it.
pub trait TargetInt: Sized {
    /// The smallest value of the type.
    spec fn least() -> int;

    /// The largest value of the type.
    spec fn greatest() -> int;

    /// The integer that a value of the type stands for.
    spec fn to_int(self) -> int;

    /// The value of the type that stands for `v`, for `v` within the range.
    spec fn from_int(v: int) -> Self;

    /// The range holds zero and needs no more than 128 bits.
    proof fn lemma_range()
        ensures
            -0x8000_0000_0000_0000_0000_0000_0000_0000 <= Self::least() <= 0,
            0 <= Self::greatest() <= 0xffff_ffff_ffff_ffff_ffff_ffff_ffff_ffff,
    ;

    /// Every integer of the range has its own value of the type.
    proof fn lemma_from_int(v: int)
        requires
            Self::least() <= v <= Self::greatest(),
        ensures
            Self::from_int(v).to_int() == v,
    ;

    /// The value with the given sign and magnitude, if the type has it. A
    /// negative sign on a magnitude of zero is zero.
    fn from_sign_magnitude(negative: bool, magnitude: u128) -> (r: Option<Self>)
        ensures
            r == (if Self::least() <= signed(negative, magnitude as nat) <= Self::greatest() {
                Some(Self::from_int(signed(negative, magnitude as nat)))
            } else {
                None
            }),
    ;
}

/// The magnitude, if the signed value lies in `0 ..= max`.
fn within_unsigned(negative: bool, magnitude: u128, max: u128) -> (r: Option<u128>)
    ensures
        r == (if 0 <= signed(negative, magnitude as nat) <= max {
            Some(magnitude)
        } else {
            None
        }),
{
    if magnitude == 0 {
        Some(0)
    } else if negative || magnitude > max {
        None
    } else {
        Some(magnitude)
    }
}

/// The signed value, if it lies in `-(max + 1) ..= max`.
fn within_signed(negative: bool, magnitude: u128, max: u128) -> (r: Option<i128>)
    requires
        max <= i128::MAX,
    ensures
        r == (if -(max + 1) <= signed(negative, magnitude as nat) <= max {
            Some(signed(negative, magnitude as nat) as i128)
        } else {
            None
        }),
{
    if negative {
        if magnitude > max + 1 {
            None
        } else if magnitude == 0x8000_0000_0000_0000_0000_0000_0000_0000 {
            Some(i128::MIN)
        } else {
            Some(-(magnitude as i128))
        }
    } else if magnitude > max {
        None
    } else {
        Some(magnitude as i128)
    }
}

impl TargetInt for u8 {
    open spec fn least() -> int {
        0
    }

    open spec fn greatest() -> int {
        0xff
    }

    open spec fn to_int(self) -> int {
        self as int
    }

    open spec fn from_int(v: int) -> u8 {
        v as u8
    }

    proof fn lemma_range() {
    }

    proof fn lemma_from_int(v: int) {
    }

    fn from_sign_magnitude(negative: bool, magnitude: u128) -> (r: Option<u8>) {
        match within_unsigned(negative, magnitude, 0xff) {
            Some(m) => Some(m as u8),
            None => None,
        }
    }
}

impl TargetInt for u16 {
    open spec fn least() -> int {
        0
    }

    open spec fn greatest() -> int {
        0xffff
    }

    open spec fn to_int(self) -> int {
        self as int
    }

    open spec fn from_int(v: int) -> u16 {
        v as u16
    }

    proof fn lemma_range() {
    }

    proof fn lemma_from_int(v: int) {
    }

    fn from_sign_magnitude(negative: bool, magnitude: u128) -> (r: Option<u16>) {
        match within_unsigned(negative, magnitude, 0xffff) {
            Some(m) => Some(m as u16),
            None => None,
        }
    }
}

impl TargetInt for u32 {
    open spec fn least() -> int {
        0
    }

    open spec fn greatest() -> int {
        0xffff_ffff
    }

    open spec fn to_int(self) -> int {
        self as int
    }

    open spec fn from_int(v: int) -> u32 {
        v as u32
    }

    proof fn lemma_range() {
    }

    proof fn lemma_from_int(v: int) {
    }

    fn from_sign_magnitude(negative: bool, magnitude: u128) -> (r: Option<u32>) {
        match within_unsigned(negative, magnitude, 0xffff_ffff) {
            Some(m) => Some(m as u32),
            None => None,
        }
    }
}

impl TargetInt for u64 {
    open spec fn least() -> int {
        0
    }

    open spec fn greatest() -> int {
        0xffff_ffff_ffff_ffff
    }

    open spec fn to_int(self) -> int {
        self as int
    }

    open spec fn from_int(v: int) -> u64 {
        v as u64
    }

    proof fn lemma_range() {
    }

    proof fn lemma_from_int(v: int) {
    }

    fn from_sign_magnitude(negative: bool, magnitude: u128) -> (r: Option<u64>) {
        match within_unsigned(negative, magnitude, 0xffff_ffff_ffff_ffff) {
            Some(m) => Some(m as u64),
            None => None,
        }
    }
}

impl TargetInt for u128 {
    open spec fn least() -> int {
        0
    }

    open spec fn greatest() -> int {
        0xffff_ffff_ffff_ffff_ffff_ffff_ffff_ffff
    }

    open spec fn to_int(self) -> int {
        self as int
    }

    open spec fn from_int(v: int) -> u128 {
        v as u128
    }

    proof fn lemma_range() {
    }

    proof fn lemma_from_int(v: int) {
    }

    fn from_sign_magnitude(negative: bool, magnitude: u128) -> (r: Option<u128>) {
        match within_unsigned(negative, magnitude, 0xffff_ffff_ffff_ffff_ffff_ffff_ffff_ffff) {
            Some(m) => Some(m as u128),
            None => None,
        }
    }
}

impl TargetInt for usize {
    open spec fn least() -> int {
        0
    }

    open spec fn greatest() -> int {
        usize::MAX as int
    }

    open spec fn to_int(self) -> int {
        self as int
    }

    open spec fn from_int(v: int) -> usize {
        v as usize
    }

    proof fn lemma_range() {
    }

    proof fn lemma_from_int(v: int) {
    }

    fn from_sign_magnitude(negative: bool, magnitude: u128) -> (r: Option<usize>) {
        match within_unsigned(negative, magnitude, usize::MAX as u128) {
            Some(m) => Some(m as usize),
            None => None,
        }
    }
}

impl TargetInt for i8 {
    open spec fn least() -> int {
        -0x80
    }

    open spec fn greatest() -> int {
        0x7f
    }

    open spec fn to_int(self) -> int {
        self as int
    }

    open spec fn from_int(v: int) -> i8 {
        v as i8
    }

    proof fn lemma_range() {
    }

    proof fn lemma_from_int(v: int) {
    }

    fn from_sign_magnitude(negative: bool, magnitude: u128) -> (r: Option<i8>) {
        match within_signed(negative, magnitude, 0x7f) {
            Some(v) => Some(v as i8),
            None => None,
        }
    }
}

impl TargetInt for i16 {
    open spec fn least() -> int {
        -0x8000
    }

    open spec fn greatest() -> int {
        0x7fff
    }

    open spec fn to_int(self) -> int {
        self as int
    }

    open spec fn from_int(v: int) -> i16 {
        v as i16
    }

    proof fn lemma_range() {
    }

    proof fn lemma_from_int(v: int) {
    }

    fn from_sign_magnitude(negative: bool, magnitude: u128) -> (r: Option<i16>) {
        match within_signed(negative, magnitude, 0x7fff) {
            Some(v) => Some(v as i16),
            None => None,
        }
    }
}

impl TargetInt for i32 {
    open spec fn least() -> int {
        -0x8000_0000
    }

    open spec fn greatest() -> int {
        0x7fff_ffff
    }

    open spec fn to_int(self) -> int {
        self as int
    }

    open spec fn from_int(v: int) -> i32 {
        v as i32
    }

    proof fn lemma_range() {
    }

    proof fn lemma_from_int(v: int) {
    }

    fn from_sign_magnitude(negative: bool, magnitude: u128) -> (r: Option<i32>) {
        match within_signed(negative, magnitude, 0x7fff_ffff) {
            Some(v) => Some(v as i32),
            None => None,
        }
    }
}

impl TargetInt for i64 {
    open spec fn least() -> int {
        -0x8000_0000_0000_0000
    }

    open spec fn greatest() -> int {
        0x7fff_ffff_ffff_ffff
    }

    open spec fn to_int(self) -> int {
        self as int
    }

    open spec fn from_int(v: int) -> i64 {
        v as i64
    }

    proof fn lemma_range() {
    }

    proof fn lemma_from_int(v: int) {
    }

    fn from_sign_magnitude(negative: bool, magnitude: u128) -> (r: Option<i64>) {
        match within_signed(negative, magnitude, 0x7fff_ffff_ffff_ffff) {
            Some(v) => Some(v as i64),
            None => None,
        }
    }
}

impl TargetInt for i128 {
    open spec fn least() -> int {
        -0x8000_0000_0000_0000_0000_0000_0000_0000
    }

    open spec fn greatest() -> int {
        0x7fff_ffff_ffff_ffff_ffff_ffff_ffff_ffff
    }

    open spec fn to_int(self) -> int {
        self as int
    }

    open spec fn from_int(v: int) -> i128 {
        v as i128
    }

    proof fn lemma_range() {
    }

    proof fn lemma_from_int(v: int) {
    }

    fn from_sign_magnitude(negative: bool, magnitude: u128) -> (r: Option<i128>) {
        match within_signed(negative, magnitude, 0x7fff_ffff_ffff_ffff_ffff_ffff_ffff_ffff) {
            Some(v) => Some(v as i128),
            None => None,
        }
    }
}

impl TargetInt for isize {
    open spec fn least() -> int {
        isize::MIN as int
    }

    open spec fn greatest() -> int {
        isize::MAX as int
    }

    open spec fn to_int(self) -> int {
        self as int
    }

    open spec fn from_int(v: int) -> isize {
        v as isize
    }

    proof fn lemma_range() {
    }

    proof fn lemma_from_int(v: int) {
    }

    fn from_sign_magnitude(negative: bool, magnitude: u128) -> (r: Option<isize>) {
        match within_signed(negative, magnitude, isize::MAX as u128) {
            Some(v) => Some(v as isize),
            None => None,
        }
    }
}

} // verus!
