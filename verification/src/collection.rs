//! The unit collection: the ordered list of records behind the table, and the
//! notifications that tell its dependents of each change.

use crate::filter::{filter, filtered, FilterState};
use crate::sort::{sort_by_column, sorted};
use crate::table::Column;
use crate::unit::{views, UnitObject, UnitView};
use vstd::prelude::*;

verus! {

/// One notification: at `position`, `removed` records went and `added` came.
#[derive(Clone, Copy, Debug, PartialEq, Eq, Structural)]
pub struct ItemsChanged {
    pub position: usize,
    pub removed: usize,
    pub added: usize,
}

/// The records in the order in which they arrived, and the notifications that no
/// dependent has taken yet.
#[derive(Debug)]
pub struct UnitCollection {
    items: Vec<UnitObject>,
    pending: Vec<ItemsChanged>,
}

impl View for UnitCollection {
    type V = Seq<UnitView>;

    closed spec fn view(&self) -> Seq<UnitView> {
        views(self.items@)
    }
}

impl UnitCollection {
    /// The notifications that wait to be taken, oldest first.
    pub closed spec fn notifications(&self) -> Seq<ItemsChanged> {
        self.pending@
    }

    /// The empty collection, with nothing to tell.
    pub fn new() -> (r: Self)
        ensures
            r@ == Seq::<UnitView>::empty(),
            r.notifications() == Seq::<ItemsChanged>::empty(),
    {
        let r = UnitCollection { items: Vec::new(), pending: Vec::new() };
        proof {
            assert(views(r.items@) =~= Seq::<UnitView>::empty());
        }
        r
    }

    /// The number of records.
    pub fn len(&self) -> (r: usize)
        ensures
            r == self@.len(),
    {
        self.items.len()
    }

    /// The records, in the order in which they arrived.
    pub fn items(&self) -> (r: &Vec<UnitObject>)
        ensures
            views(r@) == self@,
    {
        &self.items
    }

    /// Adds `records` behind the records that are there, in their order, and tells
    /// the dependents once, however many records came.
    pub fn append(&mut self, records: Vec<UnitObject>)
        ensures
            final(self)@ == old(self)@ + views(records@),
            final(self).notifications() == old(self).notifications().push(
                ItemsChanged {
                    position: old(self)@.len() as usize,
                    removed: 0,
                    added: records@.len() as usize,
                },
            ),
    {
        let mut records = records;
        let change = ItemsChanged { position: self.items.len(), removed: 0, added: records.len() };
        proof {
            assert(views(self.items@ + records@) =~= views(self.items@) + views(records@));
        }
        self.items.append(&mut records);
        self.pending.push(change);
    }

    /// Puts `records` in the place of all records that are there, and tells the
    /// dependents once.
    pub fn replace_all(&mut self, records: Vec<UnitObject>)
        ensures
            final(self)@ == views(records@),
            final(self).notifications() == old(self).notifications().push(
                ItemsChanged {
                    position: 0,
                    removed: old(self)@.len() as usize,
                    added: records@.len() as usize,
                },
            ),
    {
        let change = ItemsChanged { position: 0, removed: self.items.len(), added: records.len() };
        self.items = records;
        self.pending.push(change);
    }

    /// Hands out the notifications that wait, oldest first, and keeps none. The
    /// records stay as they are.
    pub fn take_notifications(&mut self) -> (r: Vec<ItemsChanged>)
        ensures
            r@ == old(self).notifications(),
            final(self).notifications() == Seq::<ItemsChanged>::empty(),
            final(self)@ == old(self)@,
    {
        let mut taken: Vec<ItemsChanged> = Vec::new();
        taken.append(&mut self.pending);
        taken
    }

    /// What the table shows: the records that match the term of `state`, sorted by
    /// `column`.
    pub fn derived_view(&self, state: &FilterState, column: Column) -> (r: Vec<UnitObject>)
        ensures
            views(r@) == sorted(column, filtered(self@, state@)),
    {
        let kept = filter(&self.items, state);
        sort_by_column(&kept, column)
    }
}

/// Two appends keep the order of arrival: the records that were there come first,
/// then those of the first append, then those of the second, each group in its
/// own order.
pub proof fn lemma_appends_keep_arrival_order(
    held: Seq<UnitView>,
    first: Seq<UnitView>,
    second: Seq<UnitView>,
)
    ensures
        (held + first) + second == held + (first + second),
        forall|i: int| 0 <= i < held.len() ==> ((held + first) + second)[i] == held[i],
        forall|i: int|
            0 <= i < first.len() ==> ((held + first) + second)[held.len() + i] == first[i],
        forall|i: int|
            0 <= i < second.len() ==> ((held + first) + second)[held.len() + first.len() + i]
                == second[i],
{
    assert((held + first) + second =~= held + (first + second));
}

} // verus!
