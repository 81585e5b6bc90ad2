//! Reading a slot table.
use super::SlotTable;
use vstd::prelude::*;

verus! {

/// Reader for a [`SlotTable`].
pub struct SlotReader<T> {
    /// The current slot table being read
    table: SlotTable<T>,
    /// The number of times `begin_empty` has been called.
    empty_count: usize,
    /// The current slot of the parent group. This slot is the next one
    /// returned by `next_slot` unless it is equal to `current_slot_end`.
    current_slot: usize,
    /// The current end slot of the parent group.
    current_slot_end: usize,
}

impl<T> SlotReader<T> {
    pub closed spec fn table(self) -> SlotTable<T> {
        self.table
    }

    pub closed spec fn empty_count(self) -> usize {
        self.empty_count
    }

    pub closed spec fn current_slot(self) -> usize {
        self.current_slot
    }

    pub closed spec fn current_slot_end(self) -> usize {
        self.current_slot_end
    }

    /// The reader that `new` creates: positioned before any slot.
    pub closed spec fn spec_new(table: SlotTable<T>) -> SlotReader<T> {
        SlotReader { table, empty_count: 0, current_slot: 0, current_slot_end: 0 }
    }

    /// The reader is positioned inside the table.
    pub closed spec fn wf(self) -> bool {
        self.table.wf() && self.current_slot_end <= self.table.slots_len
    }

    /// Create a new slot reader from the given [`SlotTable`].
    pub fn new(table: SlotTable<T>) -> (r: Self)
        requires
            table.wf(),
        ensures
            r == Self::spec_new(table),
            r.wf(),
    {
        Self { empty_count: 0, current_slot: 0, current_slot_end: 0, table }
    }
}

impl<T: Copy> SlotReader<T> {
    /// Get the value of the slot at the current position, or `None` at the
    /// end of the group. In empty mode this is always `None`, the value of a
    /// newly inserted slot.
    pub fn next_slot(&mut self) -> (r: Option<T>)
        requires
            old(self).wf(),
        ensures
            final(self).wf(),
            final(self).table() == old(self).table(),
            final(self).empty_count() == old(self).empty_count(),
            final(self).current_slot_end() == old(self).current_slot_end(),
            if old(self).empty_count() > 0 || old(self).current_slot() >= old(self).current_slot_end() {
                r.is_none() && final(self).current_slot() == old(self).current_slot()
            } else {
                r == old(self).table().slots()[old(self).current_slot() as int] && final(self).current_slot() == old(self).current_slot() + 1
            },
    {
        if self.empty_count > 0 || self.current_slot >= self.current_slot_end {
            None
        } else {
            let idx = self.current_slot;
            self.current_slot = self.current_slot + 1;
            self.table.slots[idx]
        }
    }
}

} // verus!
