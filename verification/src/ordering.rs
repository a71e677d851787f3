//! The order of recorded sets: by set number, and by nothing else.

use std::cmp::Ordering;
use vstd::prelude::*;
use vstd::std_specs::cmp::PartialOrdSpecImpl;
use crate::models::{SetPerformance, SetPerformancePayload};

verus! {

/// How two set numbers compare.
pub open spec fn set_number_order(left: i16, right: i16) -> Ordering {
    if left < right {
        Ordering::Less
    } else if left == right {
        Ordering::Equal
    } else {
        Ordering::Greater
    }
}

/// Compares two set numbers.
pub fn compare_set_numbers(left: i16, right: i16) -> (order: Ordering)
    ensures
        order == set_number_order(left, right),
{
    if left < right {
        Ordering::Less
    } else if left == right {
        Ordering::Equal
    } else {
        Ordering::Greater
    }
}

impl PartialOrd for SetPerformance {
    fn partial_cmp(&self, other: &Self) -> (order: Option<Ordering>) {
        Some(compare_set_numbers(self.set_number, other.set_number))
    }
}

impl PartialOrdSpecImpl for SetPerformance {
    open spec fn obeys_partial_cmp_spec() -> bool {
        true
    }

    open spec fn partial_cmp_spec(&self, other: &Self) -> Option<Ordering> {
        Some(set_number_order(self.set_number, other.set_number))
    }
}

impl PartialOrd for SetPerformancePayload {
    fn partial_cmp(&self, other: &Self) -> (order: Option<Ordering>) {
        Some(compare_set_numbers(self.set_number, other.set_number))
    }
}

impl PartialOrdSpecImpl for SetPerformancePayload {
    open spec fn obeys_partial_cmp_spec() -> bool {
        true
    }

    open spec fn partial_cmp_spec(&self, other: &Self) -> Option<Ordering> {
        Some(set_number_order(self.set_number, other.set_number))
    }
}

} // verus!
