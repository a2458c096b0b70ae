//! Measured quantities, carried by the bits of a double-precision number.
//!
//! The library compares quantities; it does no arithmetic on them.
use vstd::prelude::*;

verus! {

/// A double-precision number by its IEEE 754 bits.
#[derive(Debug, Clone, Copy, PartialEq, Eq, Structural)]
pub struct Quantity {
    pub bits: u64,
}

/// The bit that holds the sign.
pub const SIGN: u64 = 0x8000_0000_0000_0000;

/// The magnitude of infinity. What is larger is no number.
pub const INFINITE: u64 = 0x7ff0_0000_0000_0000;

/// The bits without the sign. They grow with the absolute value.
pub open spec fn magnitude(quantity: Quantity) -> int {
    quantity.bits as int % 0x8000_0000_0000_0000
}

/// Whether this is a number, finite or not.
pub open spec fn is_number(quantity: Quantity) -> bool {
    magnitude(quantity) <= INFINITE
}

/// Whether this is a finite number.
pub open spec fn is_finite(quantity: Quantity) -> bool {
    magnitude(quantity) < INFINITE
}

/// Where a number stands in the order of numbers; both zeros stand at zero.
pub open spec fn rank(quantity: Quantity) -> int {
    if quantity.bits >= SIGN {
        -magnitude(quantity)
    } else {
        magnitude(quantity)
    }
}

/// Whether one quantity is at most another. Nothing compares with what is no number.
pub open spec fn at_most(left: Quantity, right: Quantity) -> bool {
    is_number(left) && is_number(right) && rank(left) <= rank(right)
}

/// Whether one quantity is less than another.
pub open spec fn less(left: Quantity, right: Quantity) -> bool {
    is_number(left) && is_number(right) && rank(left) < rank(right)
}

impl Quantity {
    /// Whether this is a finite number.
    pub fn finite(&self) -> (result: bool)
        ensures
            result == is_finite(*self),
    {
        self.bits % SIGN < INFINITE
    }

    fn ranked(&self) -> (result: Option<i64>)
        ensures
            match result {
                Some(value) => is_number(*self) && value == rank(*self),
                None => !is_number(*self),
            },
    {
        let magnitude: u64 = self.bits % SIGN;
        if magnitude > INFINITE {
            None
        } else if self.bits >= SIGN {
            Some(-(magnitude as i64))
        } else {
            Some(magnitude as i64)
        }
    }

    /// Whether this quantity is at most another.
    pub fn at_most(&self, other: &Quantity) -> (result: bool)
        ensures
            result == at_most(*self, *other),
    {
        match (self.ranked(), other.ranked()) {
            (Some(left), Some(right)) => left <= right,
            _ => false,
        }
    }

    /// Whether this quantity is less than another.
    pub fn less(&self, other: &Quantity) -> (result: bool)
        ensures
            result == less(*self, *other),
    {
        match (self.ranked(), other.ranked()) {
            (Some(left), Some(right)) => left < right,
            _ => false,
        }
    }
}

} // verus!
