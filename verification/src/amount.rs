//! Fixed-point monetary amounts with four fractional decimal digits.

use vstd::prelude::*;

verus! {

/// Largest magnitude an amount may hold, counted in ten-thousandths. It
/// mirrors the 96-bit mantissa limit of the decimal values that the
/// surrounding input and output tooling exchanges at scale four.
pub const MAX_UNITS: i128 = 79228162514264337593543950335;

/// Whether a mathematical value, counted in ten-thousandths, lies within the
/// supported range of an [`Amount`].
pub open spec fn amt_ok(v: int) -> bool {
    -(MAX_UNITS as int) <= v && v <= MAX_UNITS as int
}

/// A monetary amount with exactly four fractional decimal digits, stored as a
/// count of ten-thousandths. Every representable value is already rounded to
/// four decimal places, so arithmetic on amounts is exact and rounding to four
/// places is the identity.
#[derive(Clone, Copy, Debug, PartialEq, Eq, Structural)]
pub struct Amount {
    units: i128,
}

impl View for Amount {
    type V = int;

    closed spec fn view(&self) -> int {
        self.units as int
    }
}

impl Amount {
    /// Range invariant: the stored value lies within the supported range.
    pub open spec fn inv(self) -> bool {
        amt_ok(self@)
    }

    /// The zero amount.
    pub fn zero() -> (r: Amount)
        ensures
            r@ == 0,
            r.inv(),
    {
        Amount { units: 0 }
    }

    /// Builds the amount of `units` ten-thousandths; `units` of 5432 is 0.5432.
    pub fn from_units(units: i64) -> (r: Amount)
        ensures
            r@ == units as int,
            r.inv(),
    {
        Amount { units: units as i128 }
    }

    /// Builds an amount from a wide count of ten-thousandths, refusing values
    /// outside the supported range.
    pub fn try_from_units(units: i128) -> (r: Option<Amount>)
        ensures
            amt_ok(units as int) ==> (r matches Some(a) && a@ == units as int && a.inv()),
            !amt_ok(units as int) ==> r is None,
    {
        if -MAX_UNITS <= units && units <= MAX_UNITS {
            Some(Amount { units })
        } else {
            None
        }
    }

    /// The value as a count of ten-thousandths.
    pub fn units(&self) -> (r: i128)
        ensures
            r as int == self@,
    {
        self.units
    }

    /// Exact sum, or `None` when the sum leaves the supported range.
    pub fn checked_add(self, other: Amount) -> (r: Option<Amount>)
        requires
            self.inv(),
            other.inv(),
        ensures
            amt_ok(self@ + other@) ==> (r matches Some(a) && a@ == self@ + other@ && a.inv()),
            !amt_ok(self@ + other@) ==> r is None,
    {
        let s: i128 = self.units + other.units;
        if -MAX_UNITS <= s && s <= MAX_UNITS {
            Some(Amount { units: s })
        } else {
            None
        }
    }

    /// Exact difference, or `None` when it leaves the supported range.
    pub fn checked_sub(self, other: Amount) -> (r: Option<Amount>)
        requires
            self.inv(),
            other.inv(),
        ensures
            amt_ok(self@ - other@) ==> (r matches Some(a) && a@ == self@ - other@ && a.inv()),
            !amt_ok(self@ - other@) ==> r is None,
    {
        let s: i128 = self.units - other.units;
        if -MAX_UNITS <= s && s <= MAX_UNITS {
            Some(Amount { units: s })
        } else {
            None
        }
    }

    /// Exact difference of two in-range amounts. The result may lie outside
    /// the range that `inv` admits, but is always exact.
    pub fn sub_wide(self, other: Amount) -> (r: Amount)
        requires
            self.inv(),
            other.inv(),
        ensures
            r@ == self@ - other@,
    {
        Amount { units: self.units - other.units }
    }

    /// Comparison: at most.
    pub fn le(self, other: Amount) -> (r: bool)
        ensures
            r == (self@ <= other@),
    {
        self.units <= other.units
    }

    /// Whether the amount is zero or positive.
    pub fn is_nonneg(self) -> (r: bool)
        ensures
            r == (self@ >= 0),
    {
        self.units >= 0
    }
}

} // verus!
