//! The arithmetic of `rust_decimal::Decimal` on non-negative values, as plain
//! `(mantissa, scale)` pairs. A pair stands for `mantissa / 10^scale`.
//!
//! The three functions at the end of this file are the only ones in the crate
//! whose contracts are taken on trust: their bodies call `rust_decimal`.

use rust_decimal::Decimal;
use vstd::prelude::*;

verus! {

/// One more than the largest mantissa of a decimal: two to the power 96.
pub const MANTISSA_LIMIT: i128 = 79228162514264337593543950336;

/// The largest scale of a decimal.
pub const MAX_SCALE: u32 = 28;

/// Ten to the power `n`.
pub open spec fn pow10(n: nat) -> nat
    decreases n,
{
    if n == 0 {
        1
    } else {
        10 * pow10((n - 1) as nat)
    }
}

/// Whether `(mantissa, scale)` is a non-negative decimal.
pub open spec fn is_decimal(mantissa: int, scale: nat) -> bool {
    0 <= mantissa < MANTISSA_LIMIT && scale <= MAX_SCALE
}

/// The mantissa that the value `mantissa / 10^scale` has at the scale
/// `target`, for `scale <= target`.
pub open spec fn rescaled(mantissa: int, scale: nat, target: nat) -> int {
    mantissa * pow10((target - scale) as nat)
}

/// The larger of two scales: the smallest scale at which both values have an
/// integer mantissa.
pub open spec fn common_scale(a: nat, b: nat) -> nat {
    if a >= b {
        a
    } else {
        b
    }
}

/// The mantissa of `mantissa / 10^scale` at the scale it shares with a second
/// decimal of scale `other_scale`.
pub open spec fn aligned(mantissa: int, scale: nat, other_scale: nat) -> int {
    rescaled(mantissa, scale, common_scale(scale, other_scale))
}

/// `Decimal + Decimal`, between `Decimal::from_i128_with_scale` on the way in
/// and `Decimal::mantissa` / `Decimal::scale` on the way out.
///
/// Claimed of it: where the exact sum, written at the larger of the two
/// scales, has a mantissa below two to the power 96, the result is that exact
/// sum, and its scale is not above the larger scale. Nothing is claimed where
/// the sum does not fit: there `rust_decimal` rounds or panics.
#[verifier::external_body]
pub(crate) fn decimal_add(a_mantissa: i128, a_scale: u32, b_mantissa: i128, b_scale: u32) -> (sum: (
    i128,
    u32,
))
    requires
        is_decimal(a_mantissa as int, a_scale as nat),
        is_decimal(b_mantissa as int, b_scale as nat),
        aligned(a_mantissa as int, a_scale as nat, b_scale as nat) + aligned(
            b_mantissa as int,
            b_scale as nat,
            a_scale as nat,
        ) < MANTISSA_LIMIT,
    ensures
        0 <= sum.0,
        sum.1 <= common_scale(a_scale as nat, b_scale as nat),
        rescaled(sum.0 as int, sum.1 as nat, common_scale(a_scale as nat, b_scale as nat))
            == aligned(a_mantissa as int, a_scale as nat, b_scale as nat) + aligned(
            b_mantissa as int,
            b_scale as nat,
            a_scale as nat,
        ),
{
    let total = Decimal::from_i128_with_scale(a_mantissa, a_scale) + Decimal::from_i128_with_scale(
        b_mantissa,
        b_scale,
    );
    (total.mantissa(), total.scale())
}

/// `Decimal - Decimal`, between the same conversions as `decimal_add`.
///
/// Claimed of it: where both operands can be written at the larger of the two
/// scales with a mantissa below two to the power 96, and the second is not
/// above the first, the result is the exact difference, and its scale is not
/// above the larger scale.
#[verifier::external_body]
pub(crate) fn decimal_sub(a_mantissa: i128, a_scale: u32, b_mantissa: i128, b_scale: u32) -> (rest: (
    i128,
    u32,
))
    requires
        is_decimal(a_mantissa as int, a_scale as nat),
        is_decimal(b_mantissa as int, b_scale as nat),
        aligned(b_mantissa as int, b_scale as nat, a_scale as nat) <= aligned(
            a_mantissa as int,
            a_scale as nat,
            b_scale as nat,
        ) < MANTISSA_LIMIT,
    ensures
        0 <= rest.0,
        rest.1 <= common_scale(a_scale as nat, b_scale as nat),
        rescaled(rest.0 as int, rest.1 as nat, common_scale(a_scale as nat, b_scale as nat))
            == aligned(a_mantissa as int, a_scale as nat, b_scale as nat) - aligned(
            b_mantissa as int,
            b_scale as nat,
            a_scale as nat,
        ),
{
    let rest = Decimal::from_i128_with_scale(a_mantissa, a_scale) - Decimal::from_i128_with_scale(
        b_mantissa,
        b_scale,
    );
    (rest.mantissa(), rest.scale())
}

/// `Decimal < Decimal`, after `Decimal::from_i128_with_scale` on both sides.
///
/// Claimed of it: the result is the order of the two values, that is the order
/// of their mantissas at the larger of the two scales.
#[verifier::external_body]
pub(crate) fn decimal_lt(a_mantissa: i128, a_scale: u32, b_mantissa: i128, b_scale: u32) -> (less:
    bool)
    requires
        is_decimal(a_mantissa as int, a_scale as nat),
        is_decimal(b_mantissa as int, b_scale as nat),
    ensures
        less == (aligned(a_mantissa as int, a_scale as nat, b_scale as nat) < aligned(
            b_mantissa as int,
            b_scale as nat,
            a_scale as nat,
        )),
{
    Decimal::from_i128_with_scale(a_mantissa, a_scale) < Decimal::from_i128_with_scale(
        b_mantissa,
        b_scale,
    )
}

} // verus!
