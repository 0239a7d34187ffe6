//! The order of physical devices: by score, and by nothing else.

use core::cmp::Ordering;
use vstd::prelude::*;
use vstd::std_specs::cmp::PartialEqSpecImpl;
use vstd::std_specs::cmp::PartialOrdSpecImpl;
use crate::physical_device::PhysicalDevice;

verus! {

impl PartialEq for PhysicalDevice {
    /// Two devices are equal when they score the same.
    fn eq(&self, other: &Self) -> (equal: bool) {
        self.score() == other.score()
    }
}

impl PartialEqSpecImpl for PhysicalDevice {
    open spec fn obeys_eq_spec() -> bool {
        true
    }

    open spec fn eq_spec(&self, other: &Self) -> bool {
        self.spec_properties().rank() == other.spec_properties().rank()
    }
}

impl PartialOrd for PhysicalDevice {
    /// A device comes before another when it scores less.
    fn partial_cmp(&self, other: &Self) -> (order: Option<Ordering>) {
        let mine = self.score();
        let theirs = other.score();
        if mine < theirs {
            Some(Ordering::Less)
        } else if mine == theirs {
            Some(Ordering::Equal)
        } else {
            Some(Ordering::Greater)
        }
    }
}

impl PartialOrdSpecImpl for PhysicalDevice {
    open spec fn obeys_partial_cmp_spec() -> bool {
        true
    }

    open spec fn partial_cmp_spec(&self, other: &Self) -> Option<Ordering> {
        if self.spec_properties().rank() < other.spec_properties().rank() {
            Some(Ordering::Less)
        } else if self.spec_properties().rank() == other.spec_properties().rank() {
            Some(Ordering::Equal)
        } else {
            Some(Ordering::Greater)
        }
    }
}

} // verus!
