//! Monetary quantities in two tiers.
//!
//! A quantity is a whole number of [`UNITS_PER_WHOLE`]-ths. The narrow tier
//! (`u64`) is what a single transaction carries; the wide tier (`u128`) is the
//! accumulator that running balances are kept in. Both tiers count the same
//! unit, so promoting a narrow value to the accumulator is exact.

use std::cmp::Ordering;
use vstd::prelude::*;
use vstd::std_specs::cmp::PartialEqSpec;

verus! {

/// How many units make one whole of the currency: four fractional digits.
pub const UNITS_PER_WHOLE: u64 = 10_000;

/// A monetary quantity held in the integer type `T`.
#[derive(Debug)]
pub struct Amount<T>(pub T);

impl<T: Copy> Clone for Amount<T> {
    fn clone(&self) -> (copy: Self)
        ensures
            copy == *self,
    {
        *self
    }
}

impl<T: Copy> Copy for Amount<T> {

}

impl<T: PartialEq> PartialEq for Amount<T> {
    /// Whether the two quantities are the same.
    fn eq(&self, other: &Self) -> (r: bool) {
        self.0 == other.0
    }
}

impl<T: PartialEq> vstd::std_specs::cmp::PartialEqSpecImpl for Amount<T> {
    open spec fn obeys_eq_spec() -> bool {
        T::obeys_eq_spec()
    }

    open spec fn eq_spec(&self, other: &Self) -> bool {
        self.0.eq_spec(&other.0)
    }
}

/// The accumulator value after adding `delta`: the exact sum, or the
/// accumulator's capacity where the sum would pass it.
pub open spec fn sum_at_capacity(acc: u128, delta: u64) -> u128 {
    if acc + delta <= u128::MAX {
        (acc + delta) as u128
    } else {
        u128::MAX
    }
}

/// The accumulator value after a guarded subtraction of `delta`: the exact
/// difference where the accumulator covers `delta`, else the accumulator
/// unchanged.
pub open spec fn guarded_difference(acc: u128, delta: u64) -> u128 {
    if acc >= delta {
        (acc - delta) as u128
    } else {
        acc
    }
}

impl Amount<u128> {
    /// Adds a narrow-tier quantity to the accumulator. The addition is
    /// unconditional and stops at the accumulator's capacity.
    pub fn add_assign(&mut self, rhs: u64)
        ensures
            final(self).0 == sum_at_capacity(old(self).0, rhs),
    {
        self.0 = self.0.saturating_add(u128::from(rhs));
    }

    /// Subtracts a narrow-tier quantity from the accumulator if the
    /// accumulator covers it, and leaves the accumulator as it is otherwise.
    pub fn sub_assign(&mut self, rhs: u64)
        ensures
            final(self).0 == guarded_difference(old(self).0, rhs),
    {
        let delta: u128 = u128::from(rhs);
        if self.0 >= delta {
            self.0 = self.0 - delta;
        }
    }
}

impl PartialEq<u64> for Amount<u128> {
    /// Whether the accumulator holds exactly the narrow-tier quantity `other`.
    fn eq(&self, other: &u64) -> (r: bool) {
        self.0 == u128::from(*other)
    }
}

impl vstd::std_specs::cmp::PartialEqSpecImpl<u64> for Amount<u128> {
    open spec fn obeys_eq_spec() -> bool {
        true
    }

    open spec fn eq_spec(&self, other: &u64) -> bool {
        self.0 == *other
    }
}

impl PartialOrd<u64> for Amount<u128> {
    /// How the accumulator compares with the narrow-tier quantity `other`.
    fn partial_cmp(&self, other: &u64) -> (r: Option<Ordering>) {
        let wide: u128 = u128::from(*other);
        if self.0 < wide {
            Some(Ordering::Less)
        } else if self.0 == wide {
            Some(Ordering::Equal)
        } else {
            Some(Ordering::Greater)
        }
    }
}

impl vstd::std_specs::cmp::PartialOrdSpecImpl<u64> for Amount<u128> {
    open spec fn obeys_partial_cmp_spec() -> bool {
        true
    }

    open spec fn partial_cmp_spec(&self, other: &u64) -> Option<Ordering> {
        if self.0 < *other {
            Some(Ordering::Less)
        } else if self.0 == *other {
            Some(Ordering::Equal)
        } else {
            Some(Ordering::Greater)
        }
    }
}

} // verus!
