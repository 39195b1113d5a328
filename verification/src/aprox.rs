//! Significant-figure rounding of a value/error pair.
//!
//! `round` rounds half away from zero toward positive infinity (it computes
//! `ceil(x * 10^d - 1/2) / 10^d`), `trucate` cuts toward zero, and `aprox`
//! rounds a value and its error to the decimal position of the error's first
//! significant digit, moving one position further when rounding would bump a
//! leading digit of one into ten.

use crate::scalar::Scalar;
use vstd::prelude::*;

verus! {

/// The multiplier `10^d` that shifts a value to `d` decimal places.
pub open spec fn spec_shift<T: Scalar>(decimal_places: i32) -> T {
    T::s_from_usize(10).s_powi(decimal_places)
}

/// What `round` returns.
pub open spec fn spec_round<T: Scalar>(value: T, decimal_places: i32) -> T {
    let multiplier = spec_shift::<T>(decimal_places);
    let half = T::s_one().s_div(T::s_from_usize(2));
    value.s_mul(multiplier).s_sub(half).s_ceil().s_div(multiplier)
}

/// What `trucate` returns.
pub open spec fn spec_trucate<T: Scalar>(value: T, decimal_places: i32) -> T {
    let multiplier = spec_shift::<T>(decimal_places);
    value.s_mul(multiplier).s_trunc().s_div(multiplier)
}

/// The decimal position of the first significant figure of `error`: the
/// negated decimal exponent, moved one further when the truncated error has a
/// leading digit of one and rounding `error` there yields exactly the next
/// power of ten.
pub open spec fn spec_sig_fig<T: Scalar>(error: T) -> i32 {
    let position = (-error.s_abs().s_exp10()) as i32;
    let new_error = spec_trucate(error, position);
    if new_error.s_log10().s_eq(new_error.s_log10().s_floor()) && spec_round(
        error,
        position,
    ).s_eq(T::s_from_usize(10).s_powi((-position) as i32)) {
        (position + 1) as i32
    } else {
        position
    }
}

/// What `aprox` returns on a finite value and a finite, nonzero error.
pub open spec fn spec_aprox_primary<T: Scalar>(value: T, error: T) -> (T, T) {
    let position = spec_sig_fig(error);
    (spec_round(value, position), spec_round(error, position))
}

/// The error component of `aprox` applied to a unit value: the approximated
/// error alone, used when the value is NaN or infinite.
pub open spec fn spec_aprox_unit<T: Scalar>(error: T) -> T {
    if T::s_one().s_is_finite() && error.s_is_finite() && !error.s_eq(T::s_zero()) {
        spec_round(error, spec_sig_fig(error))
    } else {
        error
    }
}

/// What `aprox` returns.
pub open spec fn spec_aprox<T: Scalar>(value: T, error: T) -> (T, T) {
    if value.s_is_finite() && error.s_is_finite() && !error.s_eq(T::s_zero()) {
        spec_aprox_primary(value, error)
    } else if error.s_eq(T::s_zero()) || error.s_is_nan() {
        (value, error)
    } else if value.s_is_nan() {
        (value, spec_aprox_unit(error))
    } else if error.s_is_infinite() {
        (T::s_zero(), error)
    } else if value.s_is_infinite() {
        (value, spec_aprox_unit(error))
    } else {
        (value, error)
    }
}

/// Rounds a value at the decimal position given, half away from zero toward
/// positive infinity.
pub fn round<T: Scalar>(value: T, decimal_places: i32) -> (r: T)
    ensures
        r == spec_round(value, decimal_places),
{
    let multiplier = T::from_usize(10).powi(decimal_places);
    let half = T::one().div(T::from_usize(2));
    value.mul(multiplier).sub(half).ceil().div(multiplier)
}

/// Cuts a value toward zero at the decimal position given.
pub fn trucate<T: Scalar>(value: T, decimal_places: i32) -> (r: T)
    ensures
        r == spec_trucate(value, decimal_places),
{
    let multiplier = T::from_usize(10).powi(decimal_places);
    value.mul(multiplier).trunc().div(multiplier)
}

/// The decimal position of the first significant figure of `error`.
fn sig_fig<T: Scalar>(error: T) -> (r: i32)
    ensures
        r == spec_sig_fig(error),
        -10000 <= r <= 10000,
{
    let position: i32 = -error.abs().exp10();
    let new_error = trucate(error, position);
    if new_error.log10().eq_v(new_error.log10().floor()) && round(error, position).eq_v(
        T::from_usize(10).powi(-position),
    ) {
        position + 1
    } else {
        position
    }
}

/// Rounds both the value and its error to the decimal position of the error's
/// first significant digit. A zero or NaN error leaves the pair unchanged; a
/// NaN or infinite value keeps the value and approximates the error alone; an
/// infinite error zeroes the value.
pub fn aprox<T: Scalar>(value: T, error: T) -> (r: (T, T))
    ensures
        r == spec_aprox(value, error),
{
    if value.is_finite() && error.is_finite() && !error.eq_v(T::zero()) {
        let position = sig_fig(error);
        (round(value, position), round(error, position))
    } else if error.eq_v(T::zero()) || error.is_nan() {
        (value, error)
    } else if value.is_nan() {
        (value, aprox_unit(error))
    } else if error.is_infinite() {
        (T::zero(), error)
    } else if value.is_infinite() {
        (value, aprox_unit(error))
    } else {
        (value, error)
    }
}

/// The error component of `aprox` applied to a unit value.
fn aprox_unit<T: Scalar>(error: T) -> (r: T)
    ensures
        r == spec_aprox_unit(error),
{
    if T::one().is_finite() && error.is_finite() && !error.eq_v(T::zero()) {
        round(error, sig_fig(error))
    } else {
        error
    }
}

} // verus!
