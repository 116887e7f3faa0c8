use vstd::prelude::*;

use crate::afi::{width, Afi};
use crate::bits::ones;
use super::addr::Address;

verus! {

/// An inclusive range of [`Address<A>`].
#[derive(Copy, Debug)]
pub struct AddressRange<A: Afi> {
    start: Address<A>,
    end: Address<A>,
}

impl<A: Afi> View for AddressRange<A> {
    type V = (u128, u128);

    closed spec fn view(&self) -> (u128, u128) {
        (self.start@, self.end@)
    }
}

impl<A: Afi> AddressRange<A> {
    /// Construct a new [`AddressRange<A>`] from `start` and `end` bounds.
    pub fn new(start: Address<A>, end: Address<A>) -> (r: Self)
        ensures
            r@ == (start@, end@),
    {
        AddressRange { start, end }
    }

    /// The range between two address values.
    pub fn from_values(start: u128, end: u128) -> (r: Self)
        requires
            start <= ones(width::<A>()),
            end <= ones(width::<A>()),
        ensures
            r@ == (start, end),
    {
        AddressRange { start: Address::from_value(start), end: Address::from_value(end) }
    }

    /// Returns [`true`] if `addr` is contained in the range.
    pub fn contains(&self, addr: &Address<A>) -> (r: bool)
        ensures
            r == (self@.0 <= addr@ && addr@ <= self@.1),
    {
        self.start.value() <= addr.value() && addr.value() <= self.end.value()
    }
}

impl<A: Afi> Clone for AddressRange<A> {
    fn clone(&self) -> (r: Self)
        ensures
            r == *self,
    {
        *self
    }
}

} // verus!
