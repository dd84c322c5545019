//! Decimal arithmetic, carried out by `rust_decimal`.
//!
//! A decimal crosses this file as a pair of plain values: a mantissa and a
//! scale, which stand for `mantissa / 10^scale`. Each function here builds
//! its operands with `Decimal::from_i128_with_scale`, makes one call, and
//! reads the result with `Decimal::mantissa` and `Decimal::scale`. Their
//! contracts are believed, not proved: each says in its comment what it
//! claims of `rust_decimal`.

use rust_decimal::Decimal;
use vstd::prelude::*;

verus! {

/// Number of fractional digits that the ledger keeps.
pub const LEDGER_SCALE: u32 = 4;

/// Largest magnitude of an amount of the ledger, in ten-thousandths: 10^28.
pub const UNITS_LIMIT: i128 = 10_000_000_000_000_000_000_000_000_000;

/// Largest magnitude of a 96-bit mantissa: 2^96 - 1.
pub const MANTISSA_LIMIT: i128 = 79_228_162_514_264_337_593_543_950_335;

/// Largest scale of a 96-bit decimal.
pub const SCALE_LIMIT: u32 = 28;

/// Ten to the power `n`.
pub open spec fn pow10(n: nat) -> int
    decreases n,
{
    if n == 0 {
        1
    } else {
        10 * pow10((n - 1) as nat)
    }
}

/// How many ten-thousandths one unit of the last digit at `scale` is worth.
pub open spec fn scale_factor(scale: u32) -> int {
    if scale == 0 {
        10000
    } else if scale == 1 {
        1000
    } else if scale == 2 {
        100
    } else if scale == 3 {
        10
    } else {
        1
    }
}

/// The value of `mantissa / 10^scale` in ten-thousandths, for a scale of at
/// most four.
pub open spec fn units_of(mantissa: i128, scale: u32) -> int {
    mantissa * scale_factor(scale)
}

/// Whether `mantissa / 10^scale` is an amount that the ledger can hold.
pub open spec fn representable(mantissa: i128, scale: u32) -> bool {
    &&& scale <= LEDGER_SCALE
    &&& -UNITS_LIMIT <= units_of(mantissa, scale) <= UNITS_LIMIT
}

/// The quotient of `n` by a positive `d`, rounded toward zero.
pub open spec fn quotient_toward_zero(n: int, d: int) -> int {
    if n >= 0 {
        n / d
    } else {
        -((-n) / d)
    }
}

/// `Decimal`'s `+` (`Add::add`), on two representable amounts.
///
/// Claims that the sum is exact, and that its scale is at most the larger
/// of the operands' scales. `rust_decimal` rounds or fails only where an
/// operand brought to the larger scale, or the sum, has no room in 96 bits:
/// here both operands and their sum, at any scale up to four, are below
/// 2 * 10^28, which is less than 2^96.
#[verifier::external_body]
pub(crate) fn decimal_sum(am: i128, ascale: u32, bm: i128, bscale: u32) -> (r: (i128, u32))
    requires
        representable(am, ascale),
        representable(bm, bscale),
    ensures
        r.1 <= ascale || r.1 <= bscale,
        units_of(r.0, r.1) == units_of(am, ascale) + units_of(bm, bscale),
{
    let a = Decimal::from_i128_with_scale(am, ascale);
    let b = Decimal::from_i128_with_scale(bm, bscale);
    let sum = a + b;
    (sum.mantissa(), sum.scale())
}

/// `Decimal`'s `-` (`Sub::sub`), on two representable amounts.
///
/// Claims that the difference is exact, and that its scale is at most the
/// larger of the operands' scales, for the same reason as for the sum.
#[verifier::external_body]
pub(crate) fn decimal_difference(am: i128, ascale: u32, bm: i128, bscale: u32) -> (r: (i128, u32))
    requires
        representable(am, ascale),
        representable(bm, bscale),
    ensures
        r.1 <= ascale || r.1 <= bscale,
        units_of(r.0, r.1) == units_of(am, ascale) - units_of(bm, bscale),
{
    let a = Decimal::from_i128_with_scale(am, ascale);
    let b = Decimal::from_i128_with_scale(bm, bscale);
    let difference = a - b;
    (difference.mantissa(), difference.scale())
}

/// `Decimal`'s `<` (`PartialOrd::lt`), on two representable amounts.
///
/// Claims that decimals are ordered by the numbers they stand for, whatever
/// their scales.
#[verifier::external_body]
pub(crate) fn decimal_less(am: i128, ascale: u32, bm: i128, bscale: u32) -> (r: bool)
    requires
        representable(am, ascale),
        representable(bm, bscale),
    ensures
        r == (units_of(am, ascale) < units_of(bm, bscale)),
{
    let a = Decimal::from_i128_with_scale(am, ascale);
    let b = Decimal::from_i128_with_scale(bm, bscale);
    a < b
}

/// `Decimal::trunc`, on any decimal of 96 bits.
///
/// Claims that the result is the integral part of `mantissa / 10^scale`,
/// at scale zero: its mantissa is the quotient of `mantissa` by `10^scale`,
/// rounded toward zero.
#[verifier::external_body]
pub(crate) fn decimal_integral_part(mantissa: i128, scale: u32) -> (r: i128)
    requires
        -MANTISSA_LIMIT <= mantissa <= MANTISSA_LIMIT,
        scale <= SCALE_LIMIT,
    ensures
        r == quotient_toward_zero(mantissa as int, pow10(scale as nat)),
{
    Decimal::from_i128_with_scale(mantissa, scale).trunc().mantissa()
}

} // verus!
