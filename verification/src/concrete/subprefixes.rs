use vstd::prelude::*;

use crate::afi::{width, Afi};
use crate::bits::ones;
use crate::error::{Error, Kind};
use crate::model::{covers, lemma_sub_succ, lemma_truncate, sub_succ, truncate, unit, PrefixModel};
use super::len::PrefixLength;
use super::mask::{Hostmask, Netmask};
use super::prefix::Prefix;

verus! {

/// The subprefixes of a given length of a base prefix, produced in address
/// order by [`Subprefixes::next`].
#[derive(Copy, Debug)]
pub struct Subprefixes<A: Afi> {
    base: Prefix<A>,
    next: Option<Prefix<A>>,
    length: PrefixLength<A>,
}

/// The abstract state of a [`Subprefixes`]: the base prefix, the next
/// subprefix to produce, and the length of the subprefixes.
pub type SubprefixesModel = (PrefixModel, Option<PrefixModel>, u8);

/// The model of an optional prefix.
pub open spec fn opt_view<A: Afi>(p: Option<Prefix<A>>) -> Option<PrefixModel> {
    match p {
        Some(q) => Some(q@),
        None => None,
    }
}

impl<A: Afi> View for Subprefixes<A> {
    type V = SubprefixesModel;

    closed spec fn view(&self) -> SubprefixesModel {
        (self.base@, opt_view(self.next), self.length@)
    }
}

impl<A: Afi> Subprefixes<A> {
    /// The pending subprefix, if any, has the iteration length and lies
    /// within the base prefix.
    #[verifier::type_invariant]
    pub open spec fn wf(self) -> bool {
        &&& self@.0.1 <= self@.2
        &&& self@.2 as u128 <= width::<A>()
        &&& self@.1 matches Some(q) ==> q.1 == self@.2 && covers(width::<A>(), self@.0, q)
    }

    /// Produce the next subprefix, in address order.
    pub fn next(&mut self) -> (r: Option<Prefix<A>>)
        ensures
            opt_view(r) == old(self)@.1,
            final(self)@.0 == old(self)@.0,
            final(self)@.2 == old(self)@.2,
            final(self)@.1 == (match old(self)@.1 {
                Some(q) => sub_succ(width::<A>(), old(self)@.0, q),
                None => None,
            }),
    {
        proof {
            use_type_invariant(&*self);
        }
        match self.next {
            Some(cur) => {
                self.next = cur.next_within(&self.base);
                Some(cur)
            },
            None => None,
        }
    }
}

impl<A: Afi> Clone for Subprefixes<A> {
    fn clone(&self) -> (r: Self)
        ensures
            r == *self,
    {
        *self
    }
}

impl<A: Afi> Prefix<A> {
    /// The next prefix of the same length as `self` inside `base`, in address
    /// order, if any.
    pub fn next_within(&self, base: &Self) -> (r: Option<Self>)
        requires
            covers(width::<A>(), base@, self@),
        ensures
            opt_view(r) == sub_succ(width::<A>(), base@, self@),
    {
        proof {
            use_type_invariant(self);
            use_type_invariant(base);
            A::lemma_afi();
            lemma_sub_succ(width::<A>(), base@, self@);
        }
        let length = self.length();
        match length.decrement() {
            Ok(shorter) => {
                let step = Hostmask::from_length(shorter).and_mask(Netmask::from_length(length));
                match self.prefix().checked_add_mask(step) {
                    Some(addr) => {
                        let candidate = Prefix::new(addr, length);
                        proof {
                            use_type_invariant(&addr);
                            A::lemma_afi();
                            crate::model::lemma_unit_aligned(width::<A>(), length@ as u128, self@.0);
                        }
                        if base.covers(&candidate) {
                            Some(candidate)
                        } else {
                            None
                        }
                    },
                    None => None,
                }
            },
            Err(_) => None,
        }
    }

    /// The subprefixes of `self` of the given length.
    ///
    /// # Errors
    ///
    /// Fails with [`Kind::PrefixLength`] if `length` is shorter than `self`.
    pub fn subprefixes(&self, length: PrefixLength<A>) -> (r: Result<Subprefixes<A>, Error>)
        ensures
            r is Ok <==> length@ >= self@.1,
            r matches Ok(s) ==> s@ == (self@, Some(truncate(width::<A>(), self@.0, length@)), length@),
            r matches Err(e) ==> e.spec_kind() == Kind::PrefixLength,
    {
        proof {
            use_type_invariant(self);
            use_type_invariant(&length);
            A::lemma_afi();
        }
        if length.into_primitive() < self.length().into_primitive() {
            Err(Error::of_kind(Kind::PrefixLength))
        } else {
            let first = Prefix::new(self.prefix(), length);
            proof {
                crate::model::lemma_truncate_covered(width::<A>(), self@, length@);
            }
            Ok(Subprefixes { base: *self, next: Some(first), length })
        }
    }
}

} // verus!
