//! Chronological order for values that carry a timestamp.

use std::cmp::Ordering;
use vstd::prelude::*;
use vstd::std_specs::cmp::{PartialEqSpecImpl, PartialOrdSpecImpl};
use crate::api::timestamp::Timestamped;

verus! {

/// Wrapping something `Timestamped` in a `ChronoSort` orders it by its timestamp,
/// sooner before later. Two values with the same timestamp are equal in this order.
pub struct ChronoSort<T: Timestamped>(pub T);

impl<T: Timestamped> ChronoSort<T> {
    /// The wrapped value.
    pub fn get(&self) -> (r: &T)
        ensures
            *r == self.0,
    {
        &self.0
    }

    /// Whether `self` is no later than `other`.
    pub open spec fn no_later(&self, other: &ChronoSort<T>) -> bool {
        self.0.stamp() <= other.0.stamp()
    }
}

impl<T: Timestamped> PartialEq for ChronoSort<T> {
    fn eq(&self, other: &Self) -> (r: bool) {
        self.0.timestamp() == other.0.timestamp()
    }
}

impl<T: Timestamped> PartialEqSpecImpl for ChronoSort<T> {
    open spec fn obeys_eq_spec() -> bool {
        true
    }

    open spec fn eq_spec(&self, other: &Self) -> bool {
        self.0.stamp() == other.0.stamp()
    }
}

impl<T: Timestamped> Eq for ChronoSort<T> {

}

impl<T: Timestamped> PartialOrd for ChronoSort<T> {
    fn partial_cmp(&self, other: &Self) -> (r: Option<Ordering>) {
        let a = self.0.timestamp();
        let b = other.0.timestamp();
        if a < b {
            Some(Ordering::Less)
        } else if a == b {
            Some(Ordering::Equal)
        } else {
            Some(Ordering::Greater)
        }
    }
}

impl<T: Timestamped> PartialOrdSpecImpl for ChronoSort<T> {
    open spec fn obeys_partial_cmp_spec() -> bool {
        true
    }

    open spec fn partial_cmp_spec(&self, other: &Self) -> Option<Ordering> {
        if self.0.stamp() < other.0.stamp() {
            Some(Ordering::Less)
        } else if self.0.stamp() == other.0.stamp() {
            Some(Ordering::Equal)
        } else {
            Some(Ordering::Greater)
        }
    }
}

/// `<=` on wrapped values is `<=` on their timestamps.
pub fn no_later_than<T: Timestamped>(a: &ChronoSort<T>, b: &ChronoSort<T>) -> (r: bool)
    ensures
        r == a.no_later(b),
{
    a <= b
}

} // verus!
