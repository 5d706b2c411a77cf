//! Equality of values as the operator `==` sees it.

use crate::types::{Allocation, Type};
use crate::types::order::{compare, equal, Order};
use crate::vm::field::Field;
use vstd::prelude::*;
use vstd::std_specs::cmp::PartialEqSpecImpl;

verus! {

impl PartialEq for Allocation {
    /// Whether the two regions start at the same address.
    fn eq(&self, other: &Allocation) -> (r: bool) {
        self.ptr == other.ptr
    }
}

impl PartialEqSpecImpl for Allocation {
    open spec fn obeys_eq_spec() -> bool {
        true
    }

    open spec fn eq_spec(&self, other: &Allocation) -> bool {
        self.ptr == other.ptr
    }
}

impl PartialEq for Type {
    /// Whether the two values are equal: they have an order, and it is
    /// `Equal`.
    fn eq(&self, other: &Type) -> (r: bool) {
        match compare(self, other) {
            Some(Order::Equal) => true,
            _ => false,
        }
    }
}

impl PartialEqSpecImpl for Type {
    open spec fn obeys_eq_spec() -> bool {
        true
    }

    open spec fn eq_spec(&self, other: &Type) -> bool {
        equal(self@, other@)
    }
}

impl PartialEq for Field {
    /// Whether the two values are equal: they have an order, and it is
    /// `Equal`.
    fn eq(&self, other: &Field) -> (r: bool) {
        match compare(&self.0, &other.0) {
            Some(Order::Equal) => true,
            _ => false,
        }
    }
}

impl PartialEqSpecImpl for Field {
    open spec fn obeys_eq_spec() -> bool {
        true
    }

    open spec fn eq_spec(&self, other: &Field) -> bool {
        equal(self@, other@)
    }
}

} // verus!
