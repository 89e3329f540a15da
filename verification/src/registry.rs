//! The closure registry: an ordered, append-only collection of pending
//! units of work, consumed exactly once by a terminal operation.
//!
//! The registry is generic over the unit type `U`, so a driver may store
//! boxed closures, while proofs and tests may store plain values. Its view
//! is the sequence of units in submission order.

use vstd::prelude::*;

verus! {

/// A builder that accumulates units of work in submission order.
///
/// Registration does no work beyond bookkeeping: a unit is only recorded,
/// never invoked, and both registration operations are infallible.
#[must_use]
pub struct Parallel<U> {
    /// Pending units, in submission order.
    units: Vec<U>,
}

impl<U> View for Parallel<U> {
    type V = Seq<U>;

    closed spec fn view(&self) -> Seq<U> {
        self.units@
    }
}

impl<U> Parallel<U> {
    /// Creates an empty registry.
    pub fn new() -> (r: Parallel<U>)
        ensures
            r@ == Seq::<U>::empty(),
    {
        Parallel { units: Vec::new() }
    }

    /// Appends one unit of work, returning the registry for chaining.
    pub fn add(self, unit: U) -> (r: Parallel<U>)
        ensures
            r@ == self@.push(unit),
    {
        let mut units = self.units;
        units.push(unit);
        Parallel { units }
    }

    /// Appends one unit per item, in the items' order: each unit is what the
    /// template produces for its item.
    pub fn each<A, F: Fn(A) -> U>(self, items: Vec<A>, template: F) -> (r: Parallel<U>)
        requires
            forall|i: int| 0 <= i < items@.len() ==> call_requires(template, (items@[i],)),
        ensures
            r@.len() == self@.len() + items@.len(),
            forall|i: int| 0 <= i < self@.len() ==> r@[i] == self@[i],
            forall|i: int|
                0 <= i < items@.len() ==> call_ensures(
                    template,
                    (items@[i],),
                    #[trigger] r@[self@.len() + i],
                ),
    {
        let ghost pending: Seq<A> = items@;
        let ghost submitted: Seq<U> = self@;
        let mut units = self.units;
        let mut items = items;
        let ghost mut taken: int = 0;
        while items.len() > 0
            invariant
                0 <= taken,
                taken + items@.len() == pending.len(),
                items@ == pending.skip(taken),
                units@.len() == submitted.len() + taken,
                forall|i: int| 0 <= i < submitted.len() ==> units@[i] == submitted[i],
                forall|i: int|
                    0 <= i < taken ==> call_ensures(
                        template,
                        (pending[i],),
                        #[trigger] units@[submitted.len() + i],
                    ),
                forall|i: int| 0 <= i < pending.len() ==> call_requires(template, (pending[i],)),
            decreases items@.len(),
        {
            let item = items.remove(0);
            assert(item == pending[taken]);
            units.push(template(item));
            proof {
                taken = taken + 1;
                assert(items@ =~= pending.skip(taken));
            }
        }
        Parallel { units }
    }

    /// The number of pending units.
    pub fn len(&self) -> (n: usize)
        ensures
            n == self@.len(),
    {
        self.units.len()
    }

    /// Detaches the most recently submitted unit, if any: the one a terminal
    /// operation runs on the calling thread rather than on a spawned thread.
    pub fn split_last(self) -> (r: (Parallel<U>, Option<U>))
        ensures
            self@.len() == 0 ==> r.1 is None && r.0@ == self@,
            self@.len() > 0 ==> r.1 == Some(self@.last()) && r.0@ == self@.drop_last(),
    {
        let mut units = self.units;
        let last = units.pop();
        (Parallel { units }, last)
    }

    /// Consumes the registry, handing out all units in submission order.
    pub fn into_units(self) -> (r: Vec<U>)
        ensures
            r@ == self@,
    {
        self.units
    }
}

impl<U> Default for Parallel<U> {
    /// An empty registry.
    fn default() -> (r: Parallel<U>)
        ensures
            r@ == Seq::<U>::empty(),
    {
        Parallel::new()
    }
}

} // verus!
