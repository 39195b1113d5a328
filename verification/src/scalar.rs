//! The scalar abstraction the engine is generic over.
//!
//! Each executable operation is paired with a specification function; the
//! operation's contract says nothing beyond "the result is what the
//! specification function names". An instance therefore chooses its own
//! arithmetic (a floating-point caller forwards every method to the
//! corresponding machine operation), and every contract in this crate is
//! relative to that choice.

use vstd::prelude::*;

verus! {

/// A number type with the arithmetic, comparisons and elementary functions
/// that uncertainty propagation and curve fitting need.
///
/// All operations are total: an instance must return *some* value on every
/// input (IEEE doubles do so by propagating NaN and infinities; the integer
/// model below falls back to fixed values).
pub trait Scalar: Sized + Copy {
    /// The value `add` returns.
    spec fn s_add(self, other: Self) -> Self;

    /// The value `sub` returns.
    spec fn s_sub(self, other: Self) -> Self;

    /// The value `mul` returns.
    spec fn s_mul(self, other: Self) -> Self;

    /// The value `div` returns.
    spec fn s_div(self, other: Self) -> Self;

    /// The value `powi` returns.
    spec fn s_powi(self, exponent: i32) -> Self;

    /// The value `powf` returns.
    spec fn s_powf(self, exponent: Self) -> Self;

    /// The value `abs` returns.
    spec fn s_abs(self) -> Self;

    /// The value `sqrt` returns.
    spec fn s_sqrt(self) -> Self;

    /// The value `ceil` returns.
    spec fn s_ceil(self) -> Self;

    /// The value `floor` returns.
    spec fn s_floor(self) -> Self;

    /// The value `trunc` returns.
    spec fn s_trunc(self) -> Self;

    /// The value `log10` returns.
    spec fn s_log10(self) -> Self;

    /// The value `ln` returns.
    spec fn s_ln(self) -> Self;

    /// The value `exp` returns.
    spec fn s_exp(self) -> Self;

    /// The value `sin` returns.
    spec fn s_sin(self) -> Self;

    /// The value `cos` returns.
    spec fn s_cos(self) -> Self;

    /// The value `tan` returns.
    spec fn s_tan(self) -> Self;

    /// The value `asin` returns.
    spec fn s_asin(self) -> Self;

    /// The value `acos` returns.
    spec fn s_acos(self) -> Self;

    /// The value `atan` returns.
    spec fn s_atan(self) -> Self;

    /// The value `atan2` returns.
    spec fn s_atan2(self, other: Self) -> Self;

    /// The value `min_v` returns.
    spec fn s_min(self, other: Self) -> Self;

    /// The answer `eq_v` gives.
    spec fn s_eq(self, other: Self) -> bool;

    /// The answer `lt_v` gives.
    spec fn s_lt(self, other: Self) -> bool;

    /// The answer `gt_v` gives.
    spec fn s_gt(self, other: Self) -> bool;

    /// The answer `ge_v` gives.
    spec fn s_ge(self, other: Self) -> bool;

    /// The answer `is_nan` gives.
    spec fn s_is_nan(self) -> bool;

    /// The answer `is_finite` gives.
    spec fn s_is_finite(self) -> bool;

    /// The answer `is_infinite` gives.
    spec fn s_is_infinite(self) -> bool;

    /// The exponent `exp10` returns.
    spec fn s_exp10(self) -> i32;

    /// The value `zero` returns.
    spec fn s_zero() -> Self;

    /// The value `one` returns.
    spec fn s_one() -> Self;

    /// The value `pi` returns.
    spec fn s_pi() -> Self;

    /// The value `infinity` returns.
    spec fn s_infinity() -> Self;

    /// The value `from_usize` returns.
    spec fn s_from_usize(n: usize) -> Self;

    /// Addition.
    fn add(self, other: Self) -> (r: Self)
        ensures
            r == self.s_add(other),
    ;

    /// Subtraction.
    fn sub(self, other: Self) -> (r: Self)
        ensures
            r == self.s_sub(other),
    ;

    /// Multiplication.
    fn mul(self, other: Self) -> (r: Self)
        ensures
            r == self.s_mul(other),
    ;

    /// Division, total: an instance chooses what a zero divisor yields.
    fn div(self, other: Self) -> (r: Self)
        ensures
            r == self.s_div(other),
    ;

    /// Power with an integer exponent.
    fn powi(self, exponent: i32) -> (r: Self)
        ensures
            r == self.s_powi(exponent),
    ;

    /// Power with a scalar exponent.
    fn powf(self, exponent: Self) -> (r: Self)
        ensures
            r == self.s_powf(exponent),
    ;

    /// Absolute value.
    fn abs(self) -> (r: Self)
        ensures
            r == self.s_abs(),
    ;

    /// Square root.
    fn sqrt(self) -> (r: Self)
        ensures
            r == self.s_sqrt(),
    ;

    /// Rounding up to an integral value.
    fn ceil(self) -> (r: Self)
        ensures
            r == self.s_ceil(),
    ;

    /// Rounding down to an integral value.
    fn floor(self) -> (r: Self)
        ensures
            r == self.s_floor(),
    ;

    /// Rounding toward zero to an integral value.
    fn trunc(self) -> (r: Self)
        ensures
            r == self.s_trunc(),
    ;

    /// Base-10 logarithm.
    fn log10(self) -> (r: Self)
        ensures
            r == self.s_log10(),
    ;

    /// Natural logarithm.
    fn ln(self) -> (r: Self)
        ensures
            r == self.s_ln(),
    ;

    /// Natural exponential.
    fn exp(self) -> (r: Self)
        ensures
            r == self.s_exp(),
    ;

    /// Sine, in radians.
    fn sin(self) -> (r: Self)
        ensures
            r == self.s_sin(),
    ;

    /// Cosine, in radians.
    fn cos(self) -> (r: Self)
        ensures
            r == self.s_cos(),
    ;

    /// Tangent, in radians.
    fn tan(self) -> (r: Self)
        ensures
            r == self.s_tan(),
    ;

    /// Arcsine, in radians.
    fn asin(self) -> (r: Self)
        ensures
            r == self.s_asin(),
    ;

    /// Arccosine, in radians.
    fn acos(self) -> (r: Self)
        ensures
            r == self.s_acos(),
    ;

    /// Arctangent, in radians.
    fn atan(self) -> (r: Self)
        ensures
            r == self.s_atan(),
    ;

    /// Four-quadrant arctangent of `self / other`.
    fn atan2(self, other: Self) -> (r: Self)
        ensures
            r == self.s_atan2(other),
    ;

    /// The smaller of two values, as the instance defines it.
    fn min_v(self, other: Self) -> (r: Self)
        ensures
            r == self.s_min(other),
    ;

    /// Value equality, as the instance defines it (IEEE `==` for doubles,
    /// where no NaN equals anything).
    fn eq_v(self, other: Self) -> (r: bool)
        ensures
            r == self.s_eq(other),
    ;

    /// Strictly-less comparison.
    fn lt_v(self, other: Self) -> (r: bool)
        ensures
            r == self.s_lt(other),
    ;

    /// Strictly-greater comparison.
    fn gt_v(self, other: Self) -> (r: bool)
        ensures
            r == self.s_gt(other),
    ;

    /// Greater-or-equal comparison.
    fn ge_v(self, other: Self) -> (r: bool)
        ensures
            r == self.s_ge(other),
    ;

    /// Whether the value is not a number.
    fn is_nan(self) -> (r: bool)
        ensures
            r == self.s_is_nan(),
    ;

    /// Whether the value is finite.
    fn is_finite(self) -> (r: bool)
        ensures
            r == self.s_is_finite(),
    ;

    /// Whether the value is an infinity.
    fn is_infinite(self) -> (r: bool)
        ensures
            r == self.s_is_infinite(),
    ;

    /// The floor of the base-10 logarithm of the absolute value, as a machine
    /// integer. Meaningful for finite nonzero values, whose decimal exponent
    /// is small; the bound keeps neighbouring decimal positions in range.
    fn exp10(self) -> (r: i32)
        ensures
            r == self.s_exp10(),
            -9999 <= r <= 9999,
    ;

    /// The additive identity.
    fn zero() -> (r: Self)
        ensures
            r == Self::s_zero(),
    ;

    /// The multiplicative identity.
    fn one() -> (r: Self)
        ensures
            r == Self::s_one(),
    ;

    /// The circle constant, as the instance approximates it.
    fn pi() -> (r: Self)
        ensures
            r == Self::s_pi(),
    ;

    /// The largest value, or positive infinity where one exists.
    fn infinity() -> (r: Self)
        ensures
            r == Self::s_infinity(),
    ;

    /// The scalar standing for a count.
    fn from_usize(n: usize) -> (r: Self)
        ensures
            r == Self::s_from_usize(n),
    ;
}

/// A deliberately coarse integer instance, kept in the crate so that the
/// trait's contracts are exercised against a verified implementation.
/// Overflowing arithmetic and the transcendental operations fall back to
/// fixed values that the specification functions name openly.
impl Scalar for i64 {
    open spec fn s_add(self, other: i64) -> i64 {
        match self.checked_add(other) {
            Some(v) => v,
            None => 0,
        }
    }

    open spec fn s_sub(self, other: i64) -> i64 {
        match self.checked_sub(other) {
            Some(v) => v,
            None => 0,
        }
    }

    open spec fn s_mul(self, other: i64) -> i64 {
        match self.checked_mul(other) {
            Some(v) => v,
            None => 0,
        }
    }

    open spec fn s_div(self, other: i64) -> i64 {
        match self.checked_div(other) {
            Some(v) => v,
            None => 0,
        }
    }

    open spec fn s_powi(self, exponent: i32) -> i64 {
        self
    }

    open spec fn s_powf(self, exponent: i64) -> i64 {
        self
    }

    open spec fn s_abs(self) -> i64 {
        if self == i64::MIN {
            i64::MAX
        } else if self < 0 {
            (-self) as i64
        } else {
            self
        }
    }

    open spec fn s_sqrt(self) -> i64 {
        self
    }

    open spec fn s_ceil(self) -> i64 {
        self
    }

    open spec fn s_floor(self) -> i64 {
        self
    }

    open spec fn s_trunc(self) -> i64 {
        self
    }

    open spec fn s_log10(self) -> i64 {
        0
    }

    open spec fn s_ln(self) -> i64 {
        0
    }

    open spec fn s_exp(self) -> i64 {
        1
    }

    open spec fn s_sin(self) -> i64 {
        0
    }

    open spec fn s_cos(self) -> i64 {
        1
    }

    open spec fn s_tan(self) -> i64 {
        0
    }

    open spec fn s_asin(self) -> i64 {
        0
    }

    open spec fn s_acos(self) -> i64 {
        0
    }

    open spec fn s_atan(self) -> i64 {
        0
    }

    open spec fn s_atan2(self, other: i64) -> i64 {
        0
    }

    open spec fn s_min(self, other: i64) -> i64 {
        if other < self {
            other
        } else {
            self
        }
    }

    open spec fn s_eq(self, other: i64) -> bool {
        self == other
    }

    open spec fn s_lt(self, other: i64) -> bool {
        self < other
    }

    open spec fn s_gt(self, other: i64) -> bool {
        self > other
    }

    open spec fn s_ge(self, other: i64) -> bool {
        self >= other
    }

    open spec fn s_is_nan(self) -> bool {
        false
    }

    open spec fn s_is_finite(self) -> bool {
        true
    }

    open spec fn s_is_infinite(self) -> bool {
        false
    }

    open spec fn s_exp10(self) -> i32 {
        0
    }

    open spec fn s_zero() -> i64 {
        0
    }

    open spec fn s_one() -> i64 {
        1
    }

    open spec fn s_pi() -> i64 {
        3
    }

    open spec fn s_infinity() -> i64 {
        i64::MAX
    }

    open spec fn s_from_usize(n: usize) -> i64 {
        if n > i64::MAX as usize {
            i64::MAX
        } else {
            n as i64
        }
    }

    fn add(self, other: i64) -> i64 {
        match self.checked_add(other) {
            Some(v) => v,
            None => 0,
        }
    }

    fn sub(self, other: i64) -> i64 {
        match self.checked_sub(other) {
            Some(v) => v,
            None => 0,
        }
    }

    fn mul(self, other: i64) -> i64 {
        match self.checked_mul(other) {
            Some(v) => v,
            None => 0,
        }
    }

    fn div(self, other: i64) -> i64 {
        match self.checked_div(other) {
            Some(v) => v,
            None => 0,
        }
    }

    fn powi(self, exponent: i32) -> i64 {
        self
    }

    fn powf(self, exponent: i64) -> i64 {
        self
    }

    fn abs(self) -> i64 {
        if self == i64::MIN {
            i64::MAX
        } else if self < 0 {
            -self
        } else {
            self
        }
    }

    fn sqrt(self) -> i64 {
        self
    }

    fn ceil(self) -> i64 {
        self
    }

    fn floor(self) -> i64 {
        self
    }

    fn trunc(self) -> i64 {
        self
    }

    fn log10(self) -> i64 {
        0
    }

    fn ln(self) -> i64 {
        0
    }

    fn exp(self) -> i64 {
        1
    }

    fn sin(self) -> i64 {
        0
    }

    fn cos(self) -> i64 {
        1
    }

    fn tan(self) -> i64 {
        0
    }

    fn asin(self) -> i64 {
        0
    }

    fn acos(self) -> i64 {
        0
    }

    fn atan(self) -> i64 {
        0
    }

    fn atan2(self, other: i64) -> i64 {
        0
    }

    fn min_v(self, other: i64) -> i64 {
        if other < self {
            other
        } else {
            self
        }
    }

    fn eq_v(self, other: i64) -> bool {
        self == other
    }

    fn lt_v(self, other: i64) -> bool {
        self < other
    }

    fn gt_v(self, other: i64) -> bool {
        self > other
    }

    fn ge_v(self, other: i64) -> bool {
        self >= other
    }

    fn is_nan(self) -> bool {
        false
    }

    fn is_finite(self) -> bool {
        true
    }

    fn is_infinite(self) -> bool {
        false
    }

    fn exp10(self) -> i32 {
        0
    }

    fn zero() -> i64 {
        0
    }

    fn one() -> i64 {
        1
    }

    fn pi() -> i64 {
        3
    }

    fn infinity() -> i64 {
        i64::MAX
    }

    fn from_usize(n: usize) -> i64 {
        if n > i64::MAX as usize {
            i64::MAX
        } else {
            n as i64
        }
    }
}

} // verus!
