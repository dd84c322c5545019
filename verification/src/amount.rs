//! Amounts of money: decimals with at most four fractional digits.

use crate::decimal::{
    decimal_difference, decimal_integral_part, decimal_less, decimal_sum, pow10,
    quotient_toward_zero, representable, scale_factor, units_of, LEDGER_SCALE, MANTISSA_LIMIT,
    SCALE_LIMIT, UNITS_LIMIT,
};
use vstd::arithmetic::div_mod::{lemma_div_is_ordered_by_denominator, lemma_div_pos_is_pos};
use vstd::prelude::*;
use vstd::std_specs::cmp::PartialEqSpecImpl;

verus! {

/// An amount of money with at most four fractional digits and a magnitude of
/// at most 10^24.
///
/// The view of an amount is its value in ten-thousandths. Two amounts are
/// equal when their views are, whatever their scales: `1.5` equals `1.5000`.
#[derive(Clone, Copy, Debug)]
pub struct Amount {
    mantissa: i128,
    scale: u32,
}

impl View for Amount {
    type V = int;

    open spec fn view(&self) -> int {
        units_of(self.spec_mantissa(), self.spec_scale())
    }
}

/// Whether a value in ten-thousandths is within the range of an amount.
pub open spec fn in_range(units: int) -> bool {
    -UNITS_LIMIT <= units <= UNITS_LIMIT
}

/// Whether `mantissa / 10^scale` is a decimal of 96 bits.
pub open spec fn is_decimal(mantissa: i128, scale: u32) -> bool {
    &&& -MANTISSA_LIMIT <= mantissa <= MANTISSA_LIMIT
    &&& scale <= SCALE_LIMIT
}

/// The value in ten-thousandths of `mantissa / 10^scale` once it is cut to
/// `digits` fractional digits, for `digits` of at most four. Cutting rounds
/// toward zero; a decimal with no more than `digits` fractional digits is
/// left as it is.
pub open spec fn truncated_units(mantissa: i128, scale: u32, digits: u32) -> int {
    if scale <= digits {
        units_of(mantissa, scale)
    } else {
        quotient_toward_zero(mantissa as int, pow10((scale - digits) as nat)) * scale_factor(
            digits,
        )
    }
}

/// A decimal cut to four fractional digits is always in range.
pub proof fn lemma_truncated_to_four_digits_in_range(mantissa: i128, scale: u32)
    requires
        is_decimal(mantissa, scale),
        scale > LEDGER_SCALE,
    ensures
        in_range(truncated_units(mantissa, scale, LEDGER_SCALE)),
{
    let power = pow10((scale - LEDGER_SCALE) as nat);
    assert(power >= 10) by {
        assert(pow10(0) == 1);
        lemma_pow10_increases(1, (scale - LEDGER_SCALE) as nat);
        assert(pow10(1) == 10 * pow10(0));
    }
    let magnitude: int = if mantissa >= 0 {
        mantissa as int
    } else {
        -mantissa
    };
    lemma_div_is_ordered_by_denominator(magnitude, 10, power);
    lemma_div_pos_is_pos(magnitude, power);
    assert(magnitude / 10 <= MANTISSA_LIMIT / 10);
}

/// `pow10` grows with its exponent.
proof fn lemma_pow10_increases(low: nat, high: nat)
    requires
        low <= high,
    ensures
        0 < pow10(low) <= pow10(high),
    decreases high,
{
    if high == 0 {
    } else if low == high {
        lemma_pow10_increases(0, (high - 1) as nat);
    } else {
        lemma_pow10_increases(low, (high - 1) as nat);
    }
}

/// `units_of`, computed.
fn units(mantissa: i128, scale: u32) -> (r: i128)
    requires
        scale <= LEDGER_SCALE,
        -UNITS_LIMIT <= mantissa <= UNITS_LIMIT,
    ensures
        r == units_of(mantissa, scale),
{
    if scale == 0 {
        mantissa * 10000
    } else if scale == 1 {
        mantissa * 1000
    } else if scale == 2 {
        mantissa * 100
    } else if scale == 3 {
        mantissa * 10
    } else {
        mantissa
    }
}

impl Amount {
    /// What holds of every amount: it has at most four fractional digits,
    /// and its value is in range.
    #[verifier::type_invariant]
    pub open spec fn bounded(self) -> bool {
        representable(self.spec_mantissa(), self.spec_scale())
    }

    /// The mantissa of this amount: its value times `10^scale`.
    pub closed spec fn spec_mantissa(self) -> i128 {
        self.mantissa
    }

    /// The number of fractional digits that this amount is written with.
    pub closed spec fn spec_scale(self) -> u32 {
        self.scale
    }

    /// The amount `mantissa / 10^scale`, if the ledger can hold it.
    pub fn from_parts(mantissa: i128, scale: u32) -> (r: Option<Amount>)
        ensures
            r is Some <==> representable(mantissa, scale),
            r matches Some(a) ==> a.spec_mantissa() == mantissa && a.spec_scale() == scale,
    {
        if scale > LEDGER_SCALE || mantissa > UNITS_LIMIT || mantissa < -UNITS_LIMIT {
            return None;
        }
        let u = units(mantissa, scale);
        if u > UNITS_LIMIT || u < -UNITS_LIMIT {
            None
        } else {
            Some(Amount { mantissa, scale })
        }
    }

    /// The decimal `mantissa / 10^scale` cut to `digits` fractional digits,
    /// if the ledger can hold it. With four digits it can hold every decimal
    /// that has more than four.
    pub fn truncated(mantissa: i128, scale: u32, digits: u32) -> (r: Option<Amount>)
        ensures
            r is Some <==> digits <= LEDGER_SCALE && is_decimal(mantissa, scale) && in_range(
                truncated_units(mantissa, scale, digits),
            ),
            r matches Some(a) ==> a@ == truncated_units(mantissa, scale, digits) && if scale
                <= digits {
                a.spec_mantissa() == mantissa && a.spec_scale() == scale
            } else {
                a.spec_mantissa() == quotient_toward_zero(
                    mantissa as int,
                    pow10((scale - digits) as nat),
                ) && a.spec_scale() == digits
            },
            digits == LEDGER_SCALE && scale > LEDGER_SCALE && is_decimal(mantissa, scale)
                ==> r is Some,
    {
        if digits > LEDGER_SCALE || scale > SCALE_LIMIT || mantissa > MANTISSA_LIMIT || mantissa
            < -MANTISSA_LIMIT {
            return None;
        }
        proof {
            if scale > LEDGER_SCALE {
                lemma_truncated_to_four_digits_in_range(mantissa, scale);
            }
        }
        if scale <= digits {
            Amount::from_parts(mantissa, scale)
        } else {
            let whole = decimal_integral_part(mantissa, scale - digits);
            Amount::from_parts(whole, digits)
        }
    }

    /// The amount `num / 10^scale`. What goes beyond four fractional digits
    /// is cut off: with a scale of more than 28 that is everything.
    pub fn new(num: i64, scale: u32) -> (r: Amount)
        ensures
            scale <= LEDGER_SCALE ==> r.spec_mantissa() == num && r.spec_scale() == scale,
            scale <= SCALE_LIMIT ==> r@ == truncated_units(num as i128, scale, LEDGER_SCALE),
            scale > SCALE_LIMIT ==> r@ == 0,
    {
        match Amount::truncated(num as i128, scale, LEDGER_SCALE) {
            Some(amount) => amount,
            None => Amount::zero(),
        }
    }

    /// The amount zero.
    pub fn zero() -> (r: Amount)
        ensures
            r.spec_mantissa() == 0,
            r.spec_scale() == 0,
    {
        Amount { mantissa: 0, scale: 0 }
    }

    /// The mantissa of this amount: its value times `10^scale`.
    pub fn mantissa(&self) -> (m: i128)
        ensures
            m == self.spec_mantissa(),
    {
        self.mantissa
    }

    /// The number of fractional digits that this amount is written with.
    pub fn scale(&self) -> (s: u32)
        ensures
            s == self.spec_scale(),
            s <= LEDGER_SCALE,
    {
        proof {
            use_type_invariant(self);
        }
        self.scale
    }

    /// The sum of two amounts, unless it leaves the range of an amount.
    pub fn checked_add(self, other: Amount) -> (r: Option<Amount>)
        ensures
            r is Some <==> in_range(self@ + other@),
            r matches Some(sum) ==> sum@ == self@ + other@ && (sum.spec_scale()
                <= self.spec_scale() || sum.spec_scale() <= other.spec_scale()),
    {
        proof {
            use_type_invariant(self);
            use_type_invariant(other);
        }
        let (mantissa, scale) = decimal_sum(self.mantissa, self.scale, other.mantissa, other.scale);
        Amount::from_parts(mantissa, scale)
    }

    /// The difference of two amounts, unless it leaves the range of an
    /// amount.
    pub fn checked_sub(self, other: Amount) -> (r: Option<Amount>)
        ensures
            r is Some <==> in_range(self@ - other@),
            r matches Some(difference) ==> difference@ == self@ - other@ && (
            difference.spec_scale() <= self.spec_scale() || difference.spec_scale()
                <= other.spec_scale()),
    {
        proof {
            use_type_invariant(self);
            use_type_invariant(other);
        }
        let (mantissa, scale) = decimal_difference(
            self.mantissa,
            self.scale,
            other.mantissa,
            other.scale,
        );
        Amount::from_parts(mantissa, scale)
    }

    /// Whether this amount is smaller than the other.
    pub fn less_than(&self, other: &Amount) -> (r: bool)
        ensures
            r == (self@ < other@),
    {
        proof {
            use_type_invariant(self);
            use_type_invariant(other);
        }
        decimal_less(self.mantissa, self.scale, other.mantissa, other.scale)
    }

    /// Whether this amount is greater than zero.
    pub fn is_positive(&self) -> (r: bool)
        ensures
            r == (self@ > 0),
    {
        let zero = Amount::zero();
        zero.less_than(self)
    }
}

impl PartialEq for Amount {
    fn eq(&self, other: &Self) -> (r: bool) {
        !self.less_than(other) && !other.less_than(self)
    }
}

impl PartialEqSpecImpl for Amount {
    open spec fn obeys_eq_spec() -> bool {
        true
    }

    open spec fn eq_spec(&self, other: &Self) -> bool {
        self@ == other@
    }
}

impl Eq for Amount {}

} // verus!
