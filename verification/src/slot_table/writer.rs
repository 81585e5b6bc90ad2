//! Writing a slot table: groups and slots are inserted at a cursor that moves
//! the gaps of the two gap buffers.
use super::reader::SlotReader;
use super::{
    lemma_group_builders, lemma_set_node_count_bits, lemma_spec_new_fields, Group, SlotTable,
    GROUP_FIELDS_SIZE, NODE_COUNT_MASK,
};
use crate::gap::{
    fill_range, gap_address, gap_fits, gap_view, grow_gap, lemma_gap_view_ext,
    lemma_gap_view_index, lemma_gap_view_len,
    lemma_gap_view_shrink, lemma_gap_view_update, move_gap,
};
use std::any::TypeId;
use vstd::prelude::*;

verus! {

/// Double the size of an array, but grow it by at least this many cells.
const MIN_SLOTS_GROWTH_SIZE: usize = 32;

/// Double the size of an array, but grow it by at least this many cells.
const MIN_GROUP_GROWTH_SIZE: usize = 32;

/// The data slots that a new group receives: its node (the auxiliary value)
/// when it is a node group, its object key when it has one, and its auxiliary
/// value when it is not a node group and has one.
pub open spec fn group_data_slots<T>(object_key: Option<T>, is_node: bool, aux: Option<T>) -> Seq<
    Option<T>,
> {
    (if is_node {
        seq![aux]
    } else {
        Seq::empty()
    }) + (if object_key.is_some() {
        seq![object_key]
    } else {
        Seq::empty()
    }) + (if !is_node && aux.is_some() {
        seq![aux]
    } else {
        Seq::empty()
    })
}

/// The capacity an array grows to when its gap cannot take `size` more
/// cells: double the old capacity, but at least the minimum growth and at
/// least what is in use plus `size`.
pub open spec fn grown_capacity(capacity: int, used: int, size: int) -> int {
    let doubled = if 2 * capacity > 32 {
        2 * capacity
    } else {
        32
    };
    if used + size > doubled {
        used + size
    } else {
        doubled
    }
}

/// The largest capacity of either array that the writer can still double.
pub open spec fn capacity_limit() -> int {
    (usize::MAX as int - 8) / 2
}

pub struct SlotWriter<T> {
    table: SlotTable<T>,
    /// The location of the `slots` array that contains the data for the parent group.
    current_slot: usize,
    current_slot_end: usize,
    slot_gap_start: usize,
    slot_gap_len: usize,
    insert_count: usize,
    parent: i32,
    group_gap_start: usize,
    group_gap_len: usize,
    current_group: usize,
    current_group_end: usize,
    end_stack: Vec<usize>,
    node_count: usize,
    node_count_stack: Vec<usize>,
}

impl<T> SlotWriter<T> {
    /// The logical slots: the slot array without its gap.
    pub closed spec fn slots(self) -> Seq<Option<T>> {
        gap_view(self.table.slots@, self.slot_gap_start as int, self.slot_gap_len as int)
    }

    /// The logical groups: the group array without its gap.
    pub closed spec fn groups(self) -> Seq<Group> {
        gap_view(self.table.groups@, self.group_gap_start as int, self.group_gap_len as int)
    }

    pub closed spec fn slot_capacity(self) -> nat {
        self.table.slots@.len()
    }

    pub closed spec fn group_capacity(self) -> nat {
        self.table.groups@.len()
    }

    pub closed spec fn slot_gap_start(self) -> usize {
        self.slot_gap_start
    }

    pub closed spec fn group_gap_start(self) -> usize {
        self.group_gap_start
    }

    pub closed spec fn current_slot(self) -> usize {
        self.current_slot
    }

    pub closed spec fn current_slot_end(self) -> usize {
        self.current_slot_end
    }

    pub closed spec fn insert_count(self) -> usize {
        self.insert_count
    }

    pub closed spec fn parent(self) -> i32 {
        self.parent
    }

    pub closed spec fn current_group(self) -> usize {
        self.current_group
    }

    pub closed spec fn current_group_end(self) -> usize {
        self.current_group_end
    }

    pub closed spec fn end_stack(self) -> Seq<usize> {
        self.end_stack@
    }

    pub closed spec fn node_count(self) -> usize {
        self.node_count
    }

    pub closed spec fn node_count_stack(self) -> Seq<usize> {
        self.node_count_stack@
    }

    /// The writer's gaps fit in their arrays and its cursors lie inside the
    /// logical contents.
    pub closed spec fn wf(self) -> bool {
        &&& self.table.slots@.len() <= usize::MAX
        &&& self.table.groups@.len() <= usize::MAX
        &&& gap_fits(self.table.slots@, self.slot_gap_start as int, self.slot_gap_len as int)
        &&& gap_fits(self.table.groups@, self.group_gap_start as int, self.group_gap_len as int)
        &&& self.current_slot <= self.slots().len()
        &&& self.current_slot_end <= self.slots().len()
        &&& self.current_group <= self.groups().len()
        &&& forall|i: int|
            0 <= i < self.end_stack@.len() ==> #[trigger] self.end_stack@[i] <= self.groups().len()
    }

    /// What a valid writer keeps: both arrays fit a `usize`, the gaps lie
    /// inside the logical contents, and the cursors and saved group ends lie
    /// inside them too.
    pub proof fn lemma_wf_bounds(self)
        requires
            self.wf(),
        ensures
            self.slots().len() <= self.slot_capacity() <= usize::MAX,
            self.groups().len() <= self.group_capacity() <= usize::MAX,
            self.slot_gap_start() <= self.slots().len(),
            self.group_gap_start() <= self.groups().len(),
            self.current_slot() <= self.slots().len(),
            self.current_slot_end() <= self.slots().len(),
            self.current_group() <= self.groups().len(),
            forall|i: int| 0 <= i < self.end_stack().len() ==> #[trigger] self.end_stack()[i] <= self.groups().len(),
    {
        lemma_gap_view_len(self.table.slots@, self.slot_gap_start as int, self.slot_gap_len as int);
        lemma_gap_view_len(self.table.groups@, self.group_gap_start as int, self.group_gap_len as int);
    }

    /// Both arrays are small enough to be doubled.
    pub open spec fn has_room(self) -> bool {
        self.slot_capacity() <= capacity_limit() && self.group_capacity() <= capacity_limit()
    }

    /// A valid writer opened on `table` and not used yet: it holds the
    /// table's slots, groups and capacities, both gaps at the end, nothing
    /// being inserted, no parent group, the cursors at the start.
    pub open spec fn fresh_for(self, table: SlotTable<T>) -> bool {
        &&& self.wf()
        &&& self.slots() == table.slots()
        &&& self.groups() == table.groups()
        &&& self.slot_capacity() == table.slot_capacity()
        &&& self.group_capacity() == table.group_capacity()
        &&& self.slot_gap_start() == table.slots().len()
        &&& self.group_gap_start() == table.groups().len()
        &&& self.current_slot() == 0
        &&& self.current_slot_end() == 0
        &&& self.insert_count() == 0
        &&& self.parent() == -1
        &&& self.current_group() == 0
        &&& self.current_group_end() == table.groups().len()
        &&& self.end_stack() == Seq::<usize>::empty()
        &&& self.node_count() == 0
        &&& self.node_count_stack() == Seq::<usize>::empty()
    }

    /// What a writer that `new` creates for `table` holds: the table's
    /// slots, groups and capacities, both gaps at the end, nothing being
    /// inserted, no parent group, the cursors at the start.
    pub proof fn lemma_is_new_for(self, table: SlotTable<T>)
        requires
            table.wf(),
            self.is_new_for(table),
        ensures
            self.slots() == table.slots(),
            self.groups() == table.groups(),
            self.slot_capacity() == table.slot_capacity(),
            self.group_capacity() == table.group_capacity(),
            self.slot_gap_start() == table.slots().len(),
            self.group_gap_start() == table.groups().len(),
            self.current_slot() == 0,
            self.current_slot_end() == 0,
            self.insert_count() == 0,
            self.parent() == -1,
            self.current_group() == 0,
            self.current_group_end() == table.groups().len(),
            self.end_stack() == Seq::<usize>::empty(),
            self.node_count() == 0,
            self.node_count_stack() == Seq::<usize>::empty(),
    {
        assert(self.slots() =~= table.slots());
        assert(self.groups() =~= table.groups());
    }

    /// This writer is the one that `new` creates for `table`: both gaps at
    /// the end of the cells in use, nothing being inserted, no parent group.
    pub closed spec fn is_new_for(self, table: SlotTable<T>) -> bool {
        &&& self.table == table
        &&& self.current_slot == 0
        &&& self.current_slot_end == 0
        &&& self.slot_gap_start == table.slots_len
        &&& self.slot_gap_len == table.slots@.len() - table.slots_len
        &&& self.insert_count == 0
        &&& self.parent == -1
        &&& self.group_gap_start == table.groups_len
        &&& self.group_gap_len == table.groups@.len() - table.groups_len
        &&& self.current_group == 0
        &&& self.current_group_end == table.groups_len
        &&& self.end_stack@ == Seq::<usize>::empty()
        &&& self.node_count == 0
        &&& self.node_count_stack@ == Seq::<usize>::empty()
    }

    /// The table that `close` gives back: the cells before each gap.
    pub closed spec fn spec_close(self) -> SlotTable<T> {
        SlotTable {
            groups_len: self.group_gap_start,
            slots_len: self.slot_gap_start,
            ..self.table
        }
    }

    pub fn new(table: SlotTable<T>) -> (r: Self)
        requires
            table.wf(),
        ensures
            r.is_new_for(table),
            r.wf(),
            r.slots() == table.slots(),
            r.groups() == table.groups(),
            r.slot_capacity() == table.slot_capacity(),
            r.group_capacity() == table.group_capacity(),
            r.slot_gap_start() == table.slots().len(),
            r.group_gap_start() == table.groups().len(),
            r.current_slot() == 0,
            r.current_slot_end() == 0,
            r.insert_count() == 0,
            r.parent() == -1,
            r.current_group() == 0,
            r.current_group_end() == table.groups().len(),
            r.end_stack() == Seq::<usize>::empty(),
            r.node_count() == 0,
            r.node_count_stack() == Seq::<usize>::empty(),
    {
        let slot_gap_start = table.slots_len;
        let slot_gap_len = table.slots.len() - table.slots_len;
        let group_gap_start = table.groups_len;
        let group_gap_len = table.groups.len() / GROUP_FIELDS_SIZE - table.groups_len;
        let current_group_end = table.groups_len;
        let r = Self {
            current_slot: 0,
            current_slot_end: 0,
            slot_gap_start,
            slot_gap_len,
            insert_count: 0,
            parent: -1,
            group_gap_start,
            group_gap_len,
            current_group: 0,
            current_group_end,
            end_stack: Vec::new(),
            node_count: 0,
            node_count_stack: Vec::new(),
            table,
        };
        assert(r.slots() =~= table.slots());
        assert(r.groups() =~= table.groups());
        assert(r.end_stack@ =~= Seq::<usize>::empty());
        assert(r.node_count_stack@ =~= Seq::<usize>::empty());
        r
    }

    /// Ends writing: the table keeps the groups and slots before each gap.
    pub fn close(self) -> (r: SlotTable<T>)
        requires
            self.wf(),
        ensures
            r == self.spec_close(),
            r.wf(),
            r.slots() == self.slots().subrange(0, self.slot_gap_start() as int),
            r.groups() == self.groups().subrange(0, self.group_gap_start() as int),
            r.slot_capacity() == self.slot_capacity(),
            r.group_capacity() == self.group_capacity(),
    {
        let mut me = self;
        me.table.groups_len = me.group_gap_start;
        me.table.slots_len = me.slot_gap_start;
        let r = me.table;
        assert(r.slots() =~= self.slots().subrange(0, self.slot_gap_start as int));
        assert(r.groups() =~= self.groups().subrange(0, self.group_gap_start as int));
        r
    }
}

impl<T> SlotWriter<T> {
    /// Every field that concerns groups is the same in both writers.
    pub closed spec fn same_groups(self, other: Self) -> bool {
        &&& self.table.groups@ == other.table.groups@
        &&& self.table.groups_len == other.table.groups_len
        &&& self.table.slots_len == other.table.slots_len
        &&& self.group_gap_start == other.group_gap_start
        &&& self.group_gap_len == other.group_gap_len
        &&& self.current_group == other.current_group
        &&& self.current_group_end == other.current_group_end
        &&& self.end_stack@ == other.end_stack@
        &&& self.node_count == other.node_count
        &&& self.node_count_stack@ == other.node_count_stack@
        &&& self.insert_count == other.insert_count
        &&& self.parent == other.parent
    }

    /// What two writers with the same group fields agree on.
    pub proof fn lemma_same_groups(self, other: Self)
        requires
            self.same_groups(other),
        ensures
            self.groups() == other.groups(),
            self.group_capacity() == other.group_capacity(),
            self.group_gap_start() == other.group_gap_start(),
            self.current_group() == other.current_group(),
            self.current_group_end() == other.current_group_end(),
            self.end_stack() == other.end_stack(),
            self.node_count() == other.node_count(),
            self.node_count_stack() == other.node_count_stack(),
            self.insert_count() == other.insert_count(),
            self.parent() == other.parent(),
    {
    }

    /// What two writers with the same slot fields agree on.
    pub proof fn lemma_same_slots(self, other: Self)
        requires
            self.same_slots(other),
        ensures
            self.slots() == other.slots(),
            self.slot_capacity() == other.slot_capacity(),
            self.slot_gap_start() == other.slot_gap_start(),
            self.current_slot() == other.current_slot(),
            self.current_slot_end() == other.current_slot_end(),
    {
    }

    /// Every field that concerns slots is the same in both writers.
    pub closed spec fn same_slots(self, other: Self) -> bool {
        &&& self.table.slots@ == other.table.slots@
        &&& self.table.groups_len == other.table.groups_len
        &&& self.table.slots_len == other.table.slots_len
        &&& self.slot_gap_start == other.slot_gap_start
        &&& self.slot_gap_len == other.slot_gap_len
        &&& self.current_slot == other.current_slot
        &&& self.current_slot_end == other.current_slot_end
    }

    fn data_index_to_data_address(&self, data_index: usize) -> (r: usize)
        requires
            self.wf(),
            data_index < self.slots().len(),
        ensures
            r == gap_address(data_index as int, self.slot_gap_start as int, self.slot_gap_len as int),
            r < self.table.slots@.len(),
    {
        proof {
            lemma_gap_view_len(self.table.slots@, self.slot_gap_start as int, self.slot_gap_len as int);
        }
        let _capacity = self.table.slots.len();
        if data_index < self.slot_gap_start {
            data_index
        } else {
            data_index + self.slot_gap_len
        }
    }

    fn group_index_to_address(&self, index: usize) -> (r: usize)
        requires
            self.wf(),
            index < self.groups().len(),
        ensures
            r == gap_address(index as int, self.group_gap_start as int, self.group_gap_len as int),
            r < self.table.groups@.len(),
    {
        proof {
            lemma_gap_view_len(self.table.groups@, self.group_gap_start as int, self.group_gap_len as int);
        }
        let _capacity = self.table.groups.len();
        if index < self.group_gap_start {
            index
        } else {
            index + self.group_gap_len
        }
    }

    fn capacity(&self) -> (r: usize)
        ensures
            r == self.group_capacity(),
    {
        self.table.groups.len() / GROUP_FIELDS_SIZE
    }

    /// Save `current_group_end` to `end_stack`. The end location is recorded
    /// relative to the end of the table, so that when it is popped back off,
    /// all inserts and removes that happened while a child group was open
    /// are already reflected in it.
    fn save_current_group_end(&mut self)
        requires
            old(self).wf(),
            old(self).current_group_end <= old(self).groups().len(),
        ensures
            final(self).wf(),
            final(self).end_stack@ == old(self).end_stack@.push(
                (old(self).groups().len() - old(self).current_group_end) as usize,
            ),
            final(self).table == old(self).table,
            final(self).same_slots(*old(self)),
            final(self).group_gap_start == old(self).group_gap_start,
            final(self).group_gap_len == old(self).group_gap_len,
            final(self).current_group == old(self).current_group,
            final(self).current_group_end == old(self).current_group_end,
            final(self).node_count == old(self).node_count,
            final(self).node_count_stack@ == old(self).node_count_stack@,
            final(self).insert_count == old(self).insert_count,
            final(self).parent == old(self).parent,
    {
        proof {
            lemma_gap_view_len(self.table.groups@, self.group_gap_start as int, self.group_gap_len as int);
        }
        let e = self.capacity() - self.group_gap_len - self.current_group_end;
        self.end_stack.push(e);
    }

    /// Restore `current_group_end` from `end_stack`.
    fn restore_current_group_end(&mut self) -> (r: usize)
        requires
            old(self).wf(),
            old(self).end_stack@.len() > 0,
        ensures
            final(self).wf(),
            r == final(self).current_group_end,
            final(self).current_group_end == old(self).groups().len() - old(self).end_stack@.last(),
            final(self).end_stack@ == old(self).end_stack@.drop_last(),
            final(self).table == old(self).table,
            final(self).same_slots(*old(self)),
            final(self).group_gap_start == old(self).group_gap_start,
            final(self).group_gap_len == old(self).group_gap_len,
            final(self).current_group == old(self).current_group,
            final(self).node_count == old(self).node_count,
            final(self).node_count_stack@ == old(self).node_count_stack@,
            final(self).insert_count == old(self).insert_count,
            final(self).parent == old(self).parent,
    {
        proof {
            lemma_gap_view_len(self.table.groups@, self.group_gap_start as int, self.group_gap_len as int);
            assert(self.end_stack@[self.end_stack@.len() - 1] <= self.groups().len());
        }
        let top = match self.end_stack.pop() {
            Some(e) => e,
            None => 0,
        };
        self.current_group_end = (self.capacity() - self.group_gap_len) - top;
        self.current_group_end
    }
}

impl<T: Copy> SlotWriter<T> {
    /// Move the gap in the slot array to `index`, where `group` is expected to
    /// receive any new slots added.
    fn move_slot_gap_to(&mut self, index: usize, _group: i32)
        requires
            old(self).wf(),
            index <= old(self).slots().len(),
        ensures
            final(self).wf(),
            final(self).slots() == old(self).slots(),
            final(self).slot_gap_start == index,
            final(self).slot_gap_len == old(self).slot_gap_len,
            final(self).table.slots@.len() == old(self).table.slots@.len(),
            final(self).current_slot == old(self).current_slot,
            final(self).current_slot_end == old(self).current_slot_end,
            final(self).same_groups(*old(self)),
    {
        proof {
            lemma_gap_view_len(self.table.slots@, self.slot_gap_start as int, self.slot_gap_len as int);
        }
        if self.slot_gap_start != index {
            let gs = self.slot_gap_start;
            let gl = self.slot_gap_len;
            move_gap(&mut self.table.slots, gs, gl, index);
            self.slot_gap_start = index;
        }
    }

    /// Insert room into the slot array. This first moves the gap to
    /// `current_slot` and then reduces the gap by `size` slots. If the gap is
    /// smaller than `size` the array is grown so that the gap holds at least
    /// `size` slots. The new slots are associated with `group`.
    #[verifier::rlimit(60)]
    fn insert_slots(&mut self, size: usize, group: i32)
        requires
            old(self).wf(),
            old(self).slot_capacity() <= capacity_limit(),
            old(self).slots().len() + size <= usize::MAX,
        ensures
            final(self).wf(),
            final(self).same_groups(*old(self)),
            final(self).current_slot == old(self).current_slot,
            final(self).slots().len() == old(self).slots().len() + size,
            final(self).slots().subrange(0, old(self).current_slot as int)
                == old(self).slots().subrange(0, old(self).current_slot as int),
            final(self).slots().subrange(
                old(self).current_slot + size,
                final(self).slots().len() as int,
            ) == old(self).slots().subrange(
                old(self).current_slot as int,
                old(self).slots().len() as int,
            ),
            forall|i: int|
                old(self).current_slot <= i < old(self).current_slot + size ==> (
                #[trigger] final(self).slots()[i]).is_none(),
            old(self).slot_gap_len < size ==> final(self).slot_capacity() == grown_capacity(
                old(self).slot_capacity() as int,
                old(self).slots().len() as int,
                size as int,
            ),
            size > 0 ==> final(self).slot_gap_start == old(self).current_slot + size,
            final(self).current_slot_end == if size > 0 && old(self).current_slot_end
                >= old(self).current_slot {
                old(self).current_slot_end + size
            } else {
                old(self).current_slot_end as int
            },
            final(self).slot_capacity() >= old(self).slot_capacity(),
            final(self).slot_capacity() <= 2 * old(self).slot_capacity() + 32 + size,
            old(self).slot_gap_len >= size ==> final(self).slot_capacity() == old(self).slot_capacity(),
    {
        if size == 0 {
            assert(self.slots().subrange(0, self.current_slot as int) =~= self.slots().subrange(0, self.current_slot as int));
            return ;
        }
        let cs = self.current_slot;
        self.move_slot_gap_to(cs, group);
        let ghost moved = *self;
        if self.slot_gap_len < size {
            // Create a bigger gap
            let old_capacity = self.table.slots.len();
            let old_size = old_capacity - self.slot_gap_len;
            // Double the size of the array, but at least MIN_SLOTS_GROWTH_SIZE and >= size
            let mut new_capacity = MIN_SLOTS_GROWTH_SIZE;
            if old_capacity * 2 > new_capacity {
                new_capacity = old_capacity * 2;
            }
            if old_size + size > new_capacity {
                new_capacity = old_size + size;
            }
            let new_data = grow_gap(
                &self.table.slots,
                self.slot_gap_start,
                self.slot_gap_len,
                new_capacity,
                None,
            );
            let new_gap_len = new_capacity - old_size;
            // Update the gap and slots
            self.table.slots = new_data;
            self.slot_gap_len = new_gap_len;
        }
        let ghost before_fill = self.table.slots@;
        let gs = self.slot_gap_start;
        fill_range(&mut self.table.slots, gs, gs + size, None);
        proof {
            lemma_gap_view_ext(before_fill, self.table.slots@, gs as int, self.slot_gap_len as int);
        }
        proof {
            lemma_gap_view_len(self.table.slots@, self.slot_gap_start as int, self.slot_gap_len as int);
            lemma_gap_view_shrink(
                self.table.slots@,
                self.slot_gap_start as int,
                self.slot_gap_len as int,
                size as int,
            );
        }
        if self.current_slot_end >= self.slot_gap_start {
            self.current_slot_end = self.current_slot_end + size;
        }
        self.slot_gap_start = self.slot_gap_start + size;
        self.slot_gap_len = self.slot_gap_len - size;
        proof {
            lemma_gap_view_len(self.table.slots@, self.slot_gap_start as int, self.slot_gap_len as int);
            assert(self.slots().subrange(0, cs as int) =~= old(self).slots().subrange(0, cs as int));
            assert(self.slots().subrange(cs + size, self.slots().len() as int) =~= old(self).slots().subrange(
                cs as int,
                old(self).slots().len() as int,
            ));
            assert forall|i: int| cs <= i < cs + size implies (#[trigger] self.slots()[i]).is_none() by {
                assert(self.slots()[i] == self.table.slots@[i]);
            }
        }
    }
}

impl<T> SlotWriter<T> {
    /// Move the gap in the group array to `index`.
    fn move_group_gap_to(&mut self, index: usize)
        requires
            old(self).wf(),
            index <= old(self).groups().len(),
        ensures
            final(self).wf(),
            final(self).groups() == old(self).groups(),
            final(self).group_gap_start == index,
            final(self).group_gap_len == old(self).group_gap_len,
            final(self).table.groups@.len() == old(self).table.groups@.len(),
            final(self).current_group == old(self).current_group,
            final(self).current_group_end == old(self).current_group_end,
            final(self).end_stack@ == old(self).end_stack@,
            final(self).node_count == old(self).node_count,
            final(self).node_count_stack@ == old(self).node_count_stack@,
            final(self).insert_count == old(self).insert_count,
            final(self).parent == old(self).parent,
            final(self).table.groups_len == old(self).table.groups_len,
            final(self).same_slots(*old(self)),
    {
        proof {
            lemma_gap_view_len(self.table.groups@, self.group_gap_start as int, self.group_gap_len as int);
        }
        if self.group_gap_start == index {
            return ;
        }
        if self.group_gap_len > 0 {
            let gs = self.group_gap_start;
            let gl = self.group_gap_len;
            move_gap(&mut self.table.groups, gs, gl, index);
        } else {
            assert(gap_view(self.table.groups@, index as int, 0) =~= gap_view(
                self.table.groups@,
                self.group_gap_start as int,
                0,
            ));
        }
        self.group_gap_start = index;
    }

    /// Insert `size` groups in front of `current_group`. These groups are
    /// implicitly children of `parent`.
    fn insert_groups(&mut self, size: usize)
        requires
            old(self).wf(),
            old(self).group_capacity() <= capacity_limit(),
            old(self).groups().len() + size <= usize::MAX,
            old(self).current_group_end + size <= usize::MAX,
        ensures
            final(self).wf(),
            final(self).same_slots(*old(self)),
            final(self).current_group == old(self).current_group,
            final(self).end_stack@ == old(self).end_stack@,
            final(self).node_count == old(self).node_count,
            final(self).node_count_stack@ == old(self).node_count_stack@,
            final(self).insert_count == old(self).insert_count,
            final(self).parent == old(self).parent,
            final(self).table.groups_len == old(self).table.groups_len,
            final(self).groups().len() == old(self).groups().len() + size,
            final(self).groups().subrange(0, old(self).current_group as int)
                == old(self).groups().subrange(0, old(self).current_group as int),
            final(self).groups().subrange(
                old(self).current_group + size,
                final(self).groups().len() as int,
            ) == old(self).groups().subrange(
                old(self).current_group as int,
                old(self).groups().len() as int,
            ),
            size > 0 ==> final(self).group_gap_start == old(self).current_group + size,
            final(self).current_group_end == if size > 0 && old(self).current_group_end
                >= old(self).current_group {
                old(self).current_group_end + size
            } else {
                old(self).current_group_end as int
            },
            final(self).group_capacity() >= old(self).group_capacity(),
            final(self).group_capacity() <= 2 * old(self).group_capacity() + 32 + size,
            old(self).group_gap_len >= size ==> final(self).group_capacity() == old(self).group_capacity(),
            old(self).group_gap_len < size ==> final(self).group_capacity() == grown_capacity(
                old(self).group_capacity() as int,
                old(self).groups().len() as int,
                size as int,
            ),
    {
        if size == 0 {
            return ;
        }
        let cg = self.current_group;
        self.move_group_gap_to(cg);
        let old_capacity = self.table.groups.len() / GROUP_FIELDS_SIZE;
        let old_size = old_capacity - self.group_gap_len;
        if self.group_gap_len < size {
            // Create a bigger gap
            // Double the size of the array, but at least MIN_GROUP_GROWTH_SIZE and >= size
            let mut new_capacity = MIN_GROUP_GROWTH_SIZE;
            if old_capacity * 2 > new_capacity {
                new_capacity = old_capacity * 2;
            }
            if old_size + size > new_capacity {
                new_capacity = old_size + size;
            }
            let new_groups = grow_gap(
                &self.table.groups,
                self.group_gap_start,
                self.group_gap_len,
                new_capacity * GROUP_FIELDS_SIZE,
                Group::empty(),
            );
            let new_gap_len = new_capacity - old_size;
            // Update the gap and groups
            self.table.groups = new_groups;
            self.group_gap_len = new_gap_len;
        }
        proof {
            lemma_gap_view_len(self.table.groups@, self.group_gap_start as int, self.group_gap_len as int);
            lemma_gap_view_shrink(
                self.table.groups@,
                self.group_gap_start as int,
                self.group_gap_len as int,
                size as int,
            );
        }
        // Move the current_group_end to account for inserted groups.
        if self.current_group_end >= self.group_gap_start {
            self.current_group_end = self.current_group_end + size;
        }
        // Update the gap start and length
        self.group_gap_start = self.group_gap_start + size;
        self.group_gap_len = self.group_gap_len - size;
        proof {
            lemma_gap_view_len(self.table.groups@, self.group_gap_start as int, self.group_gap_len as int);
            assert(self.groups().subrange(0, cg as int) =~= old(self).groups().subrange(0, cg as int));
            assert(self.groups().subrange(cg + size, self.groups().len() as int) =~= old(self).groups().subrange(
                cg as int,
                old(self).groups().len() as int,
            ));
            assert forall|i: int| 0 <= i < self.end_stack@.len() implies #[trigger] self.end_stack@[i] <= self.groups().len() by {
                assert(old(self).end_stack@[i] <= old(self).groups().len());
            }
        }
    }
}

impl<T> SlotWriter<T> {
    /// Both writers hold the same table and agree on everything but the
    /// insertion depth, the end stack and the current group end.
    pub closed spec fn same_but_insertion(self, other: Self) -> bool {
        &&& self.table == other.table
        &&& self.slot_gap_start == other.slot_gap_start
        &&& self.slot_gap_len == other.slot_gap_len
        &&& self.group_gap_start == other.group_gap_start
        &&& self.group_gap_len == other.group_gap_len
        &&& self.current_slot == other.current_slot
        &&& self.current_slot_end == other.current_slot_end
        &&& self.current_group == other.current_group
        &&& self.node_count == other.node_count
        &&& self.node_count_stack@ == other.node_count_stack@
        &&& self.parent == other.parent
    }

    /// Relates a writer to the one `set(value)` leaves and what it returns:
    /// the slot before the cursor receives `value` and its old content is
    /// returned; nothing else moves.
    pub open spec fn set_post(self, value: Option<T>, next: Self, r: Option<T>) -> bool {
        &&& next.slots() == self.slots().update(self.current_slot() - 1, value)
        &&& r == self.slots()[self.current_slot() - 1]
        &&& next.current_slot() == self.current_slot()
        &&& next.current_slot_end() == self.current_slot_end()
    }

    /// Relates a writer to the one `begin_insert` leaves.
    pub open spec fn begin_insert_post(self, next: Self) -> bool {
        &&& (next.same_but_insertion(self))
        &&& (next.slot_capacity() == self.slot_capacity())
        &&& (next.group_capacity() == self.group_capacity())
        &&& (next.slot_gap_start() == self.slot_gap_start())
        &&& (next.group_gap_start() == self.group_gap_start())
        &&& (next.current_slot() == self.current_slot())
        &&& (next.current_slot_end() == self.current_slot_end())
        &&& (next.current_group() == self.current_group())
        &&& (next.parent() == self.parent())
        &&& (next.node_count() == self.node_count())
        &&& (next.node_count_stack() == self.node_count_stack())
        &&& (next.slots() == self.slots())
        &&& (next.groups() == self.groups())
        &&& (next.insert_count() == self.insert_count() + 1)
        &&& (next.current_group_end() == self.current_group_end())
        &&& (next.end_stack() == if self.insert_count() == 0 {
                self.end_stack().push(
                    (self.groups().len() - self.current_group_end()) as usize,
                )
            } else {
                self.end_stack()
            })
    }

    /// Relates a writer to the one `end_insert` leaves.
    pub open spec fn end_insert_post(self, next: Self) -> bool {
        &&& (next.same_but_insertion(self))
        &&& (next.slot_capacity() == self.slot_capacity())
        &&& (next.group_capacity() == self.group_capacity())
        &&& (next.slot_gap_start() == self.slot_gap_start())
        &&& (next.group_gap_start() == self.group_gap_start())
        &&& (next.current_slot() == self.current_slot())
        &&& (next.current_slot_end() == self.current_slot_end())
        &&& (next.current_group() == self.current_group())
        &&& (next.parent() == self.parent())
        &&& (next.node_count() == self.node_count())
        &&& (next.node_count_stack() == self.node_count_stack())
        &&& (next.slots() == self.slots())
        &&& (next.groups() == self.groups())
        &&& (next.insert_count() == self.insert_count() - 1)
        &&& (next.current_group_end() == if self.insert_count() == 1 {
                self.groups().len() - self.end_stack().last()
            } else {
                self.current_group_end() as int
            })
        &&& (next.end_stack() == if self.insert_count() == 1 {
                self.end_stack().drop_last()
            } else {
                self.end_stack()
            })
    }

    /// Relates a writer to the one `start_group(id, data_key)` leaves.
    pub open spec fn start_group_post(self, id: TypeId, data_key: Option<T>, next: Self) -> bool {
        &&& (next.node_count_stack() == self.node_count_stack().push(
                self.node_count(),
            ))
        &&& (next.groups() == self.groups().insert(
                self.current_group() as int,
                Group::spec_new(
                    id,
                    false,
                    data_key.is_some(),
                    false,
                    self.parent() as usize,
                    self.current_slot(),
                ),
            ))
        &&& (next.slots() == self.slots().subrange(0, self.current_slot() as int)
                + (if data_key.is_some() {
                seq![data_key]
            } else {
                Seq::empty()
            }) + self.slots().subrange(
                self.current_slot() as int,
                self.slots().len() as int,
            ))
        &&& (next.current_slot() == self.current_slot() + (if data_key.is_some() {
                1int
            } else {
                0int
            }))
        &&& (next.current_slot_end() == next.current_slot())
        &&& (next.node_count() == 0)
        &&& (next.parent() == self.current_group() as i32)
        &&& (next.current_group() == self.current_group() + 1)
        &&& (next.current_group_end() == (if self.current_group_end() >= self.current_group() {
                self.current_group_end() + 1
            } else {
                self.current_group_end() as int
            }) + 1)
        &&& (next.insert_count() == self.insert_count())
        &&& (next.end_stack() == self.end_stack())
        &&& (next.slot_capacity() <= 2 * self.slot_capacity() + 40)
        &&& (next.group_capacity() <= 2 * self.group_capacity() + 40)
        &&& (next.group_gap_start() == self.current_group() + 1)
    }

    /// Relates a writer to the one `end_group` leaves and the count it returns.
    pub open spec fn end_group_post(self, next: Self, r: usize) -> bool {
        &&& (r == self.node_count())
        &&& (next.same_slots(self))
        &&& (next.current_group() == self.current_group())
        &&& (next.current_group_end() == self.current_group_end())
        &&& (next.parent() == self.parent())
        &&& (next.insert_count() == self.insert_count())
        &&& (next.end_stack() == self.end_stack())
        &&& (next.slot_capacity() == self.slot_capacity())
        &&& (next.group_capacity() == self.group_capacity())
        &&& (next.group_gap_start() == self.group_gap_start())
        &&& (if self.insert_count() > 0 {
                let p = self.parent() as int;
                let g = self.groups()[p];
                &&& next.groups() == self.groups().update(
                    p,
                    g.with_size_offset((self.current_group() - p) as usize).with_mask(
                        g.mask() & (!NODE_COUNT_MASK | (self.node_count() as u32)),
                    ),
                )
                &&& next.node_count() == self.node_count_stack().last() + (
                if g.is_node_flag() {
                    1
                } else {
                    self.node_count() as int
                })
                &&& next.node_count_stack() == self.node_count_stack().drop_last()
            } else {
                &&& next.groups() == self.groups()
                &&& next.node_count() == self.node_count()
                &&& next.node_count_stack() == self.node_count_stack()
            })
    }

    /// Begin inserting at the current location. `begin_insert` can be nested
    /// and must be matched by as many calls of `end_insert`.
    pub fn begin_insert(&mut self)
        requires
            old(self).wf(),
            old(self).insert_count() < usize::MAX,
            old(self).insert_count() == 0 ==> old(self).current_group_end()
                <= old(self).groups().len(),
        ensures
            final(self).wf(),
            old(self).begin_insert_post(*final(self)),
    {
        let count = self.insert_count;
        self.insert_count = self.insert_count + 1;
        if count == 0 {
            self.save_current_group_end()
        }
    }

    /// Ends inserting. When the outermost insertion ends, the current group
    /// end is restored relative to the end of the table.
    pub fn end_insert(&mut self)
        requires
            old(self).wf(),
            old(self).insert_count() > 0,
            old(self).insert_count() == 1 ==> old(self).end_stack().len() > 0,
        ensures
            final(self).wf(),
            old(self).end_insert_post(*final(self)),
    {
        self.insert_count = self.insert_count - 1;
        if self.insert_count == 0 {
            self.restore_current_group_end();
        }
    }
}

impl<T: Copy> SlotWriter<T> {
    /// Advances past the current slot, inserting an empty cell for it first
    /// when inserting; returns the slot's address in the slot array.
    fn skip_inner(&mut self) -> (r: usize)
        requires
            old(self).wf(),
            old(self).has_room(),
            old(self).insert_count == 0 ==> old(self).current_slot < old(self).slots().len(),
        ensures
            final(self).wf(),
            final(self).same_groups(*old(self)),
            final(self).current_slot == old(self).current_slot + 1,
            r == gap_address(
                old(self).current_slot as int,
                final(self).slot_gap_start as int,
                final(self).slot_gap_len as int,
            ),
            r < final(self).table.slots@.len(),
            old(self).insert_count > 0 ==> {
                &&& final(self).slots().len() == old(self).slots().len() + 1
                &&& final(self).slots().subrange(0, old(self).current_slot as int)
                    == old(self).slots().subrange(0, old(self).current_slot as int)
                &&& final(self).slots().subrange(
                    old(self).current_slot + 1,
                    final(self).slots().len() as int,
                ) == old(self).slots().subrange(
                    old(self).current_slot as int,
                    old(self).slots().len() as int,
                )
                &&& final(self).slots()[old(self).current_slot as int].is_none()
                &&& final(self).current_slot_end == if old(self).current_slot_end
                    >= old(self).current_slot {
                    old(self).current_slot_end + 1
                } else {
                    old(self).current_slot_end as int
                }
                &&& final(self).slot_capacity() <= 2 * old(self).slot_capacity() + 33
            },
            old(self).insert_count == 0 ==> {
                &&& final(self).table.slots@ == old(self).table.slots@
                &&& final(self).slot_gap_start == old(self).slot_gap_start
                &&& final(self).slot_gap_len == old(self).slot_gap_len
                &&& final(self).current_slot_end == old(self).current_slot_end
            },
    {
        if self.insert_count > 0 {
            let p = self.parent;
            proof {
                lemma_gap_view_len(self.table.slots@, self.slot_gap_start as int, self.slot_gap_len as int);
            }
            self.insert_slots(1, p);
        }
        let idx = self.current_slot;
        self.current_slot = self.current_slot + 1;
        self.data_index_to_data_address(idx)
    }

    /// Set the value at the group's current data slot (the slot before the
    /// cursor). Returns the slot's previous value.
    pub fn set(&mut self, value: Option<T>) -> (r: Option<T>)
        requires
            old(self).wf(),
            1 <= old(self).current_slot() <= old(self).current_slot_end(),
        ensures
            final(self).wf(),
            final(self).same_groups(*old(self)),
            old(self).set_post(value, *final(self), r),
            final(self).slot_gap_start() == old(self).slot_gap_start(),
            final(self).slot_capacity() == old(self).slot_capacity(),
            final(self).has_room() == old(self).has_room(),
    {
        let i = self.current_slot - 1;
        let addr = self.data_index_to_data_address(i);
        proof {
            lemma_gap_view_index(self.table.slots@, self.slot_gap_start as int, self.slot_gap_len as int, i as int);
            lemma_gap_view_update(self.table.slots@, self.slot_gap_start as int, self.slot_gap_len as int, i as int, value);
        }
        let previous = self.table.slots[addr];
        self.table.slots[addr] = value;
        previous
    }

    /// Skip the current slot without updating it. When inserting, an empty
    /// slot is added and `None` is returned; otherwise the slot's value is.
    /// The table passed in is not used.
    pub fn skip(&mut self, _table: &mut SlotTable<T>) -> (r: Option<T>)
        requires
            old(self).wf(),
            old(self).has_room(),
            old(self).insert_count() == 0 ==> old(self).current_slot() < old(self).slots().len(),
        ensures
            final(self).wf(),
            *final(_table) == *old(_table),
            final(self).same_groups(*old(self)),
            final(self).current_slot() == old(self).current_slot() + 1,
            if old(self).insert_count() > 0 {
                &&& final(self).slots() == old(self).slots().subrange(
                    0,
                    old(self).current_slot() as int,
                ).push(None) + old(self).slots().subrange(
                    old(self).current_slot() as int,
                    old(self).slots().len() as int,
                )
                &&& r.is_none()
                &&& final(self).current_slot_end() == if old(self).current_slot_end()
                    >= old(self).current_slot() {
                    old(self).current_slot_end() + 1
                } else {
                    old(self).current_slot_end() as int
                }
            } else {
                &&& final(self).slots() == old(self).slots()
                &&& r == old(self).slots()[old(self).current_slot() as int]
                &&& final(self).current_slot_end() == old(self).current_slot_end()
                &&& final(self).slot_capacity() == old(self).slot_capacity()
            },
    {
        let idx = self.skip_inner();
        let r = self.table.slots[idx];
        proof {
            let cs = old(self).current_slot as int;
            lemma_gap_view_index(self.table.slots@, self.slot_gap_start as int, self.slot_gap_len as int, cs);
            if old(self).insert_count > 0 {
                let f = self.slots();
                let o = old(self).slots();
                assert(f =~= o.subrange(0, cs).push(r) + o.subrange(cs, o.len() as int)) by {
                    assert forall|i: int| 0 <= i < f.len() implies f[i] == (o.subrange(0, cs).push(r)
                        + o.subrange(cs, o.len() as int))[i] by {
                        if i < cs {
                            assert(f[i] == f.subrange(0, cs)[i]);
                        } else if i > cs {
                            assert(f[i] == f.subrange(cs + 1, f.len() as int)[i - cs - 1]);
                        }
                    }
                }
            }
        }
        r
    }

    /// Set the value of the next slot, inserting an empty slot for it first
    /// when inserting. Returns the slot's previous value: `None` when
    /// inserting.
    pub fn update(&mut self, value: Option<T>) -> (r: Option<T>)
        requires
            old(self).wf(),
            old(self).has_room(),
            if old(self).insert_count() > 0 {
                old(self).current_slot() <= old(self).current_slot_end()
            } else {
                old(self).current_slot() < old(self).current_slot_end()
            },
        ensures
            final(self).wf(),
            final(self).same_groups(*old(self)),
            r == if old(self).insert_count() > 0 {
                None
            } else {
                old(self).slots()[old(self).current_slot() as int]
            },
            final(self).current_slot() == old(self).current_slot() + 1,
            if old(self).insert_count() > 0 {
                &&& final(self).slots() == old(self).slots().subrange(
                    0,
                    old(self).current_slot() as int,
                ).push(value) + old(self).slots().subrange(
                    old(self).current_slot() as int,
                    old(self).slots().len() as int,
                )
                &&& final(self).current_slot_end() == old(self).current_slot_end() + 1
            } else {
                &&& final(self).slots() == old(self).slots().update(
                    old(self).current_slot() as int,
                    value,
                )
                &&& final(self).current_slot_end() == old(self).current_slot_end()
                &&& final(self).slot_capacity() == old(self).slot_capacity()
            },
    {
        let _idx = self.skip_inner();
        let ghost skipped = *self;
        let r = self.set(value);
        proof {
            let cs = old(self).current_slot as int;
            if old(self).insert_count > 0 {
                let f = self.slots();
                let o = old(self).slots();
                let k = skipped.slots();
                assert(f =~= o.subrange(0, cs).push(value) + o.subrange(cs, o.len() as int)) by {
                    assert forall|i: int| 0 <= i < f.len() implies f[i] == (o.subrange(0, cs).push(
                        value,
                    ) + o.subrange(cs, o.len() as int))[i] by {
                        if i < cs {
                            assert(k[i] == k.subrange(0, cs)[i]);
                        } else if i > cs {
                            assert(k[i] == k.subrange(cs + 1, k.len() as int)[i - cs - 1]);
                        }
                    }
                }
            }
        }
        r
    }
}

impl<T: Copy> SlotWriter<T> {
    /// Writes `value` into the freshly inserted slot at the cursor and
    /// advances the cursor.
    fn put_slot(&mut self, value: Option<T>)
        requires
            old(self).wf(),
            old(self).current_slot < old(self).slot_gap_start,
        ensures
            final(self).wf(),
            final(self).same_groups(*old(self)),
            final(self).slots() == old(self).slots().update(old(self).current_slot as int, value),
            final(self).current_slot == old(self).current_slot + 1,
            final(self).current_slot_end == old(self).current_slot_end,
            final(self).slot_gap_start == old(self).slot_gap_start,
            final(self).slot_gap_len == old(self).slot_gap_len,
            final(self).table.slots@.len() == old(self).table.slots@.len(),
    {
        proof {
            lemma_gap_view_len(self.table.slots@, self.slot_gap_start as int, self.slot_gap_len as int);
            lemma_gap_view_update(
                self.table.slots@,
                self.slot_gap_start as int,
                self.slot_gap_len as int,
                self.current_slot as int,
                value,
            );
        }
        let idx = self.current_slot;
        self.current_slot = idx + 1;
        self.table.slots[idx] = value;
    }

    fn start_group_inner(
        &mut self,
        id: TypeId,
        object_key: Option<T>,
        is_node: bool,
        aux: Option<T>,
    )
        requires
            old(self).wf(),
            old(self).has_room(),
            old(self).insert_count > 0,
            old(self).current_group_end + 2 <= usize::MAX,
        ensures
            final(self).wf(),
            final(self).node_count_stack@ == old(self).node_count_stack@.push(old(self).node_count),
            final(self).groups() == old(self).groups().insert(
                old(self).current_group as int,
                Group::spec_new(
                    id,
                    is_node,
                    object_key.is_some(),
                    !is_node && aux.is_some(),
                    old(self).parent as usize,
                    old(self).current_slot,
                ),
            ),
            final(self).slots() == old(self).slots().subrange(0, old(self).current_slot as int)
                + group_data_slots(object_key, is_node, aux) + old(self).slots().subrange(
                old(self).current_slot as int,
                old(self).slots().len() as int,
            ),
            final(self).current_slot == old(self).current_slot + group_data_slots(
                object_key,
                is_node,
                aux,
            ).len(),
            final(self).current_slot_end == final(self).current_slot,
            final(self).node_count == 0,
            final(self).parent == old(self).current_group as i32,
            final(self).current_group == old(self).current_group + 1,
            final(self).current_group_end == (if old(self).current_group_end >= old(self).current_group {
                old(self).current_group_end + 1
            } else {
                old(self).current_group_end as int
            }) + 1,
            final(self).insert_count == old(self).insert_count,
            final(self).end_stack@ == old(self).end_stack@,
            final(self).slot_capacity() <= 2 * old(self).slot_capacity() + 40,
            final(self).group_capacity() <= 2 * old(self).group_capacity() + 40,
            final(self).group_gap_start == old(self).current_group + 1,
    {
        let nc = self.node_count;
        self.node_count_stack.push(nc);
        let ghost o = old(self).slots();
        let ghost og = old(self).groups();
        let ghost cs = old(self).current_slot as int;
        let ghost cg = old(self).current_group as int;
        self.insert_groups(1);
        let has_aux = !is_node && aux.is_some();
        let key_present = object_key.is_some();
        let addr = self.group_index_to_address(self.current_group);
        let group = Group::new(
            id,
            is_node,
            key_present,
            has_aux,
            self.parent as usize,
            self.current_slot,
        );
        proof {
            lemma_gap_view_update(
                self.table.groups@,
                self.group_gap_start as int,
                self.group_gap_len as int,
                cg,
                group,
            );
        }
        let ghost g1 = self.groups();
        self.table.groups.set(addr, group);
        proof {
            let f = self.groups();
            assert(f =~= og.insert(cg, group)) by {
                assert forall|i: int| 0 <= i < f.len() implies f[i] == og.insert(cg, group)[i] by {
                    if i < cg {
                        assert(g1[i] == g1.subrange(0, cg)[i]);
                    } else if i > cg {
                        assert(g1[i] == g1.subrange(cg + 1, g1.len() as int)[i - cg - 1]);
                    }
                }
            }
        }
        self.current_slot_end = self.current_slot;
        let data_slots_needed: usize = (if is_node {
            1
        } else {
            0
        }) + (if key_present {
            1
        } else {
            0
        }) + (if has_aux {
            1
        } else {
            0
        });
        let ghost data = group_data_slots(object_key, is_node, aux);
        assert(data.len() == data_slots_needed);
        if data_slots_needed > 0 {
            let group_index = self.current_group as i32;
            self.insert_slots(data_slots_needed, group_index);
            let ghost s1 = self.slots();
            if is_node {
                self.put_slot(aux);
            }
            if key_present {
                self.put_slot(object_key);
            }
            if has_aux {
                self.put_slot(aux);
            }
            proof {
                let f = self.slots();
                let n = data_slots_needed as int;
                let want = o.subrange(0, cs) + data + o.subrange(cs, o.len() as int);
                assert(f.len() == want.len());
                assert forall|i: int| 0 <= i < f.len() implies f[i] == want[i] by {
                    if i < cs {
                        assert(s1[i] == s1.subrange(0, cs)[i]);
                    } else if i >= cs + n {
                        assert(s1[i] == s1.subrange(cs + n, s1.len() as int)[i - cs - n]);
                    }
                }
                assert(f =~= want);
            }
        } else {
            assert(self.slots() =~= o.subrange(0, cs) + data + o.subrange(cs, o.len() as int));
        }
        self.node_count = 0;
        self.parent = self.current_group as i32;
        self.current_group = self.current_group + 1;
        self.current_group_end = self.current_group_end + 1;
    }

    /// Starts a group that is not a node, with an optional data key slot.
    /// Groups can only be started while inserting.
    pub fn start_group(&mut self, id: TypeId, data_key: Option<T>)
        requires
            old(self).wf(),
            old(self).has_room(),
            old(self).insert_count() > 0,
            old(self).current_group_end() + 2 <= usize::MAX,
        ensures
            final(self).wf(),
            old(self).start_group_post(id, data_key, *final(self)),
    {
        self.start_group_inner(id, data_key, false, None);
        assert(group_data_slots(data_key, false, None::<T>) =~= (if data_key.is_some() {
            seq![data_key]
        } else {
            Seq::empty()
        }));
    }

    /// End the current group; must be called after the matching
    /// `start_group`. While inserting, the group records its size and node
    /// count and the parent's node count is restored. Returns the node count
    /// of the group being ended.
    pub fn end_group(&mut self) -> (r: usize)
        requires
            old(self).wf(),
            0 <= old(self).parent(),
            old(self).parent() < old(self).groups().len(),
            old(self).parent() <= old(self).current_group(),
            old(self).insert_count() > 0 ==> {
                &&& old(self).node_count() < NODE_COUNT_MASK
                &&& old(self).node_count_stack().len() > 0
                &&& old(self).node_count_stack().last() + (if old(self).groups()[old(
                    self,
                ).parent() as int].is_node_flag() {
                    1
                } else {
                    old(self).node_count() as int
                }) <= usize::MAX
            },
        ensures
            final(self).wf(),
            old(self).end_group_post(*final(self), r),
    {
        let p = self.parent as usize;
        let group_address = self.group_index_to_address(p);
        proof {
            lemma_gap_view_index(self.table.groups@, self.group_gap_start as int, self.group_gap_len as int, p as int);
        }
        let new_nodes = self.node_count;
        let new_group_size = self.current_group - p;
        let is_node = self.table.groups[group_address].is_node();
        if self.insert_count > 0 {
            let mut group = self.table.groups[group_address];
            group.size_offset = new_group_size;
            group.set_node_count(self.node_count as u32);
            proof {
                lemma_gap_view_update(
                    self.table.groups@,
                    self.group_gap_start as int,
                    self.group_gap_len as int,
                    p as int,
                    group,
                );
            }
            self.table.groups.set(group_address, group);
            let top = match self.node_count_stack.pop() {
                Some(n) => n,
                None => 0,
            };
            self.node_count = top + if is_node {
                1
            } else {
                self.node_count
            };
        }
        new_nodes
    }
}

/// Opening a writer on a table and closing it right away gives the table
/// back.
pub proof fn law_close_after_new_keeps_table<T>(table: SlotTable<T>, w: SlotWriter<T>)
    requires
        table.wf(),
        w.is_new_for(table),
    ensures
        w.spec_close() == table,
{
}

/// The end of the current group is saved relative to the end of the table:
/// when the outermost insertion ends, the restored end has moved by the
/// number of groups inserted while it was open.
pub proof fn law_insertion_end_tracks_inserted_groups<T>(
    a: SlotWriter<T>,
    b: SlotWriter<T>,
    c: SlotWriter<T>,
    d: SlotWriter<T>,
)
    requires
        a.wf(),
        a.insert_count() == 0,
        a.current_group_end() <= a.groups().len(),
        a.begin_insert_post(b),
        c.insert_count() == 1,
        c.end_stack() == b.end_stack(),
        c.end_insert_post(d),
    ensures
        d.insert_count() == 0,
        d.end_stack() == a.end_stack(),
        d.current_group_end() == a.current_group_end() + (c.groups().len() - a.groups().len()),
{
    let e = (a.groups().len() - a.current_group_end()) as usize;
    assert(b.end_stack() == a.end_stack().push(e));
    assert(c.end_stack().last() == e);
    assert(d.end_stack() =~= a.end_stack());
}

/// A group started and ended while inserting, with nothing inside it, spans
/// one group, has no nodes, and gives the enclosing group its node count
/// back.
pub proof fn law_empty_group<T>(
    a: SlotWriter<T>,
    id: TypeId,
    data_key: Option<T>,
    b: SlotWriter<T>,
    c: SlotWriter<T>,
    r: usize,
)
    requires
        a.wf(),
        a.insert_count() > 0,
        a.current_group() <= i32::MAX,
        a.start_group_post(id, data_key, b),
        b.end_group_post(c, r),
    ensures
        r == 0,
        c.groups().len() == a.groups().len() + 1,
        c.groups()[a.current_group() as int].size_offset() == 1,
        c.groups()[a.current_group() as int].node_count_of() == 0,
        c.groups()[a.current_group() as int].is_node_flag() == false,
        c.groups()[a.current_group() as int].type_id() == id,
        c.node_count() == a.node_count(),
        c.node_count_stack() == a.node_count_stack(),
        c.current_group() == a.current_group() + 1,
{
    let cg = a.current_group() as int;
    assert(b.parent() as int == cg);
    assert(b.insert_count() > 0);
    lemma_spec_new_fields(id, false, data_key.is_some(), false, a.parent() as usize, a.current_slot());
    let g = b.groups()[cg];
    assert(g == Group::spec_new(id, false, data_key.is_some(), false, a.parent() as usize, a.current_slot()));
    assert((b.node_count() as u32) == 0u32);
    lemma_set_node_count_bits(g.mask(), 0);
    let m = g.mask();
    assert((m & NODE_COUNT_MASK) & 0u32 == 0u32) by (bit_vector);
    lemma_group_builders(g, 1, g.mask());
    lemma_group_builders(g.with_size_offset(1), 1, g.mask() & (!NODE_COUNT_MASK | 0u32));
    assert(c.node_count_stack() =~= a.node_count_stack());
}

/// What a reader gives back of a write: a slot set through the writer, in
/// front of the slot gap, holds the value set in the table that closing the
/// writer leaves, which is what a reader standing at that slot reads.
pub proof fn law_read_gives_back_write<T>(
    a: SlotWriter<T>,
    value: Option<T>,
    b: SlotWriter<T>,
    reader: SlotReader<T>,
)
    requires
        a.wf(),
        b.wf(),
        1 <= a.current_slot() <= a.slot_gap_start(),
        b.slots() == a.slots().update(a.current_slot() - 1, value),
        b.slot_gap_start() == a.slot_gap_start(),
        reader.table() == b.spec_close(),
        reader.current_slot() == a.current_slot() - 1,
    ensures
        reader.table().slots()[reader.current_slot() as int] == value,
{
    let t = b.spec_close();
    assert(t.slots() =~= b.slots().subrange(0, b.slot_gap_start as int));
}

/// Setting a slot and then setting the old content back gives the value
/// set and leaves the slots as they were.
pub proof fn law_set_round_trip<T>(
    a: SlotWriter<T>,
    value: Option<T>,
    b: SlotWriter<T>,
    previous: Option<T>,
    c: SlotWriter<T>,
    r: Option<T>,
)
    requires
        a.wf(),
        1 <= a.current_slot() <= a.current_slot_end(),
        a.set_post(value, b, previous),
        b.set_post(previous, c, r),
    ensures
        r == value,
        c.slots() == a.slots(),
{
    a.lemma_wf_bounds();
    assert(c.slots() =~= a.slots());
}

/// `begin_insert` followed by `end_insert` leaves the insertion depth, the
/// saved group ends and the current group end as they were: only the
/// outermost `begin_insert` saves the end, and its `end_insert` restores it.
pub proof fn law_insert_round_trip<T>(a: SlotWriter<T>, b: SlotWriter<T>, c: SlotWriter<T>)
    requires
        a.wf(),
        a.insert_count() == 0 ==> a.current_group_end() <= a.groups().len(),
        a.begin_insert_post(b),
        b.end_insert_post(c),
    ensures
        b.insert_count() == a.insert_count() + 1,
        c.insert_count() == a.insert_count(),
        c.end_stack() == a.end_stack(),
        c.current_group_end() == a.current_group_end(),
        c.groups() == a.groups(),
        c.slots() == a.slots(),
{
    a.lemma_wf_bounds();
    if a.insert_count() == 0 {
        assert(c.end_stack() =~= a.end_stack());
    }
}

/// A group inserted in a write session survives closing the writer: after
/// `begin_insert`, `start_group`, `end_group` and `end_insert`, the table
/// that `close` leaves ends with the new group.
pub proof fn law_inserted_group_survives_close<T>(
    a: SlotWriter<T>,
    b: SlotWriter<T>,
    id: TypeId,
    data_key: Option<T>,
    c: SlotWriter<T>,
    d: SlotWriter<T>,
    count: usize,
    e: SlotWriter<T>,
)
    requires
        a.wf(),
        e.wf(),
        a.current_group() <= i32::MAX,
        a.begin_insert_post(b),
        b.start_group_post(id, data_key, c),
        c.end_group_post(d, count),
        d.end_insert_post(e),
    ensures
        e.spec_close().groups().len() == a.current_group() + 1,
        e.spec_close().groups()[a.current_group() as int].type_id() == id,
{
    let cg = a.current_group() as int;
    a.lemma_wf_bounds();
    lemma_spec_new_fields(id, false, data_key.is_some(), false, b.parent() as usize, b.current_slot());
    let g = c.groups()[cg];
    lemma_group_builders(g, (c.current_group() - cg) as usize, g.mask() & (!NODE_COUNT_MASK | (c.node_count() as u32)));
    lemma_group_builders(
        g.with_size_offset((c.current_group() - cg) as usize),
        0,
        g.mask() & (!NODE_COUNT_MASK | (c.node_count() as u32)),
    );
    assert(c.insert_count() > 0);
    assert(c.parent() as int == cg);
    assert(g.type_id() == id);
    assert(d.groups()[cg].type_id() == id);
    assert(e.groups()[cg].type_id() == id);
    e.lemma_wf_bounds();
    let t = e.spec_close();
    assert(t.groups() =~= e.groups().subrange(0, e.group_gap_start as int));
}

} // verus!
