//! The fixed-point amount type: a signed 128-bit count of raw units, with 18
//! decimal places understood.

use vstd::prelude::*;

verus! {

/// An amount of a resource, in raw units of 10^-18.
#[derive(Debug, Clone, Copy, PartialEq, Eq, Structural)]
pub struct Decimal(pub i128);

impl View for Decimal {
    type V = int;

    open spec fn view(&self) -> int {
        self.0 as int
    }
}

impl Decimal {
    pub fn new(raw: i128) -> (r: Self)
        ensures
            r@ == raw as int,
    {
        Decimal(raw)
    }

    pub fn zero() -> (r: Self)
        ensures
            r@ == 0,
    {
        Decimal(0)
    }

    pub fn is_negative(&self) -> (r: bool)
        ensures
            r == (self@ < 0),
    {
        self.0 < 0
    }

    pub fn is_zero(&self) -> (r: bool)
        ensures
            r == (self@ == 0),
    {
        self.0 == 0
    }

    /// The sum, unless it leaves the representable range.
    pub fn checked_add(&self, other: &Decimal) -> (r: Option<Decimal>)
        ensures
            r is Some <==> i128::MIN <= self@ + other@ <= i128::MAX,
            r matches Some(s) ==> s@ == self@ + other@,
    {
        match self.0.checked_add(other.0) {
            Some(x) => Some(Decimal(x)),
            None => None,
        }
    }

    /// The difference, unless it leaves the representable range.
    pub fn checked_sub(&self, other: &Decimal) -> (r: Option<Decimal>)
        ensures
            r is Some <==> i128::MIN <= self@ - other@ <= i128::MAX,
            r matches Some(s) ==> s@ == self@ - other@,
    {
        match self.0.checked_sub(other.0) {
            Some(x) => Some(Decimal(x)),
            None => None,
        }
    }

    pub fn from_usize(n: usize) -> (r: Self)
        ensures
            r@ == n as int,
    {
        Decimal(n as i128)
    }

    pub fn lt(&self, other: &Decimal) -> (r: bool)
        ensures
            r == (self@ < other@),
    {
        self.0 < other.0
    }

    pub fn le(&self, other: &Decimal) -> (r: bool)
        ensures
            r == (self@ <= other@),
    {
        self.0 <= other.0
    }

    pub fn equals(&self, other: &Decimal) -> (r: bool)
        ensures
            r == (self@ == other@),
    {
        self.0 == other.0
    }
}

} // verus!
