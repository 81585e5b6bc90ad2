//! The slot table: a gap buffer of groups and a gap buffer of slots that
//! together record the structure of a composition.
use std::any::TypeId;
use vstd::prelude::*;

pub mod reader;
pub mod writer;

pub use reader::SlotReader;
pub use writer::SlotWriter;

verus! {

#[verifier::external_type_specification]
#[verifier::external_body]
pub struct ExTypeId(TypeId);

/// `TypeId::of::<T>()`: the identifier of a type. Nothing is stated of the
/// returned identifier; the table only carries it.
pub assume_specification<T: ?Sized + 'static>[ TypeId::of::<T> ]() -> TypeId;

/// The number of array cells that a group occupies.
pub const GROUP_FIELDS_SIZE: usize = 1;

/// The bits of a group's mask that hold its node count.
pub const NODE_COUNT_MASK: u32 = 0x03FF_FFFF;

/// The bit of a group's mask that marks a node group.
pub const NODE_BIT_MASK: u32 = 0x4000_0000;

/// The bit of a group's mask that marks a group with an object key slot.
pub const OBJECT_KEY_MASK: u32 = 0x2000_0000;

/// The bit of a group's mask that marks a group with an auxiliary data slot.
pub const AUX_MASK: u32 = 0x1000_0000;

/// The mask that `Group::new` builds from its flags.
pub open spec fn group_mask(is_node: bool, has_data_key: bool, has_data: bool) -> u32 {
    (if is_node {
        NODE_BIT_MASK
    } else {
        0u32
    }) | (if has_data_key {
        OBJECT_KEY_MASK
    } else {
        0u32
    }) | (if has_data {
        AUX_MASK
    } else {
        0u32
    })
}

/// A group of the slot table.
#[derive(Clone, Copy)]
pub struct Group {
    id: TypeId,
    mask: u32,
    parent_anchor: usize,
    size_offset: usize,
    data_anchor: usize,
}

impl Group {
    /// The type identifier the group was started with.
    pub closed spec fn type_id(self) -> TypeId {
        self.id
    }

    /// The group's mask: flags and node count.
    pub closed spec fn mask(self) -> u32 {
        self.mask
    }

    pub closed spec fn parent_anchor(self) -> usize {
        self.parent_anchor
    }

    pub closed spec fn size_offset(self) -> usize {
        self.size_offset
    }

    pub closed spec fn data_anchor(self) -> usize {
        self.data_anchor
    }

    /// The group with the same fields but a different size offset.
    pub closed spec fn with_size_offset(self, size_offset: usize) -> Group {
        Group { size_offset, ..self }
    }

    /// The group with the same fields but a different mask.
    pub closed spec fn with_mask(self, mask: u32) -> Group {
        Group { mask, ..self }
    }

    pub open spec fn is_node_flag(self) -> bool {
        self.mask() & NODE_BIT_MASK != 0
    }

    pub open spec fn has_object_key_flag(self) -> bool {
        self.mask() & OBJECT_KEY_MASK != 0
    }

    pub open spec fn has_aux_flag(self) -> bool {
        self.mask() & AUX_MASK != 0
    }

    pub open spec fn node_count_of(self) -> u32 {
        self.mask() & NODE_COUNT_MASK
    }

    /// The group `new` builds from these arguments.
    pub closed spec fn spec_new(
        id: TypeId,
        is_node: bool,
        has_data_key: bool,
        has_data: bool,
        parent_anchor: usize,
        data_anchor: usize,
    ) -> Group {
        Group {
            id,
            mask: group_mask(is_node, has_data_key, has_data),
            parent_anchor,
            size_offset: 0,
            data_anchor,
        }
    }

    /// A group with no flags, no anchors and the identifier of `()`.
    pub fn empty() -> (r: Self)
        ensures
            r.mask() == 0,
            r.parent_anchor() == 0,
            r.size_offset() == 0,
            r.data_anchor() == 0,
    {
        Self { id: TypeId::of::<()>(), mask: 0, parent_anchor: 0, size_offset: 0, data_anchor: 0 }
    }

    pub fn new(
        id: TypeId,
        is_node: bool,
        has_data_key: bool,
        has_data: bool,
        parent_anchor: usize,
        data_anchor: usize,
    ) -> (r: Self)
        ensures
            r == Group::spec_new(id, is_node, has_data_key, has_data, parent_anchor, data_anchor),
            r.type_id() == id,
            r.mask() == group_mask(is_node, has_data_key, has_data),
            r.is_node_flag() == is_node,
            r.has_object_key_flag() == has_data_key,
            r.has_aux_flag() == has_data,
            r.node_count_of() == 0,
            r.parent_anchor() == parent_anchor,
            r.size_offset() == 0,
            r.data_anchor() == data_anchor,
    {
        let node_bit: u32 = if is_node {
            NODE_BIT_MASK
        } else {
            0
        };
        let data_key_bit: u32 = if has_data_key {
            OBJECT_KEY_MASK
        } else {
            0
        };
        let data_bit: u32 = if has_data {
            AUX_MASK
        } else {
            0
        };
        let mask = node_bit | data_key_bit | data_bit;
        proof {
            lemma_group_mask_flags(is_node, has_data_key, has_data);
        }
        Self { id, mask, parent_anchor, size_offset: 0, data_anchor }
    }

    pub fn is_node(&self) -> (r: bool)
        ensures
            r == self.is_node_flag(),
    {
        self.mask & NODE_BIT_MASK != 0
    }

    pub fn node_count(&self) -> (r: u32)
        ensures
            r == self.node_count_of(),
    {
        self.mask & NODE_COUNT_MASK
    }

    /// Combines `value` into the node count bits: the mask becomes
    /// `mask & (!NODE_COUNT_MASK | value)`, so count bits that `value` lacks
    /// are cleared and no count bit is set; the flag bits are kept.
    pub fn set_node_count(&mut self, value: u32)
        requires
            value < NODE_COUNT_MASK,
        ensures
            *final(self) == old(self).with_mask(old(self).mask() & (!NODE_COUNT_MASK | value)),
            final(self).node_count_of() == old(self).node_count_of() & value,
            final(self).is_node_flag() == old(self).is_node_flag(),
            final(self).has_object_key_flag() == old(self).has_object_key_flag(),
            final(self).has_aux_flag() == old(self).has_aux_flag(),
    {
        let m = self.mask;
        proof {
            lemma_set_node_count_bits(m, value);
        }
        self.mask = m & (!NODE_COUNT_MASK | value);
    }
}

/// What the group builders set and keep.
pub proof fn lemma_group_builders(g: Group, size_offset: usize, mask: u32)
    ensures
        g.with_size_offset(size_offset).size_offset() == size_offset,
        g.with_size_offset(size_offset).mask() == g.mask(),
        g.with_size_offset(size_offset).type_id() == g.type_id(),
        g.with_size_offset(size_offset).parent_anchor() == g.parent_anchor(),
        g.with_size_offset(size_offset).data_anchor() == g.data_anchor(),
        g.with_mask(mask).mask() == mask,
        g.with_mask(mask).size_offset() == g.size_offset(),
        g.with_mask(mask).type_id() == g.type_id(),
        g.with_mask(mask).parent_anchor() == g.parent_anchor(),
        g.with_mask(mask).data_anchor() == g.data_anchor(),
{
}

/// Reading the node count back after `set_node_count(value)` gives `value`
/// when every bit of `value` is set in the count held before (the setter
/// only clears count bits).
pub proof fn law_node_count_after_set(g: Group, value: u32, h: Group)
    requires
        value < NODE_COUNT_MASK,
        h == g.with_mask(g.mask() & (!NODE_COUNT_MASK | value)),
        g.node_count_of() & value == value,
    ensures
        h.node_count_of() == value,
{
    lemma_group_builders(g, 0, g.mask() & (!NODE_COUNT_MASK | value));
    lemma_set_node_count_bits(g.mask(), value);
}

/// The fields of a group that `Group::new` builds.
pub proof fn lemma_spec_new_fields(
    id: TypeId,
    is_node: bool,
    has_data_key: bool,
    has_data: bool,
    parent_anchor: usize,
    data_anchor: usize,
)
    ensures
        ({
            let g = Group::spec_new(id, is_node, has_data_key, has_data, parent_anchor, data_anchor);
            &&& g.type_id() == id
            &&& g.mask() == group_mask(is_node, has_data_key, has_data)
            &&& g.is_node_flag() == is_node
            &&& g.has_object_key_flag() == has_data_key
            &&& g.has_aux_flag() == has_data
            &&& g.node_count_of() == 0
            &&& g.parent_anchor() == parent_anchor
            &&& g.size_offset() == 0
            &&& g.data_anchor() == data_anchor
        }),
{
    lemma_group_mask_flags(is_node, has_data_key, has_data);
}

/// The flags that `group_mask` sets are read back by the flag tests, and the
/// node count of a fresh mask is zero.
pub proof fn lemma_group_mask_flags(is_node: bool, has_data_key: bool, has_data: bool)
    ensures
        (group_mask(is_node, has_data_key, has_data) & NODE_BIT_MASK != 0) == is_node,
        (group_mask(is_node, has_data_key, has_data) & OBJECT_KEY_MASK != 0) == has_data_key,
        (group_mask(is_node, has_data_key, has_data) & AUX_MASK != 0) == has_data,
        group_mask(is_node, has_data_key, has_data) & NODE_COUNT_MASK == 0,
{
    let a: u32 = if is_node {
        NODE_BIT_MASK
    } else {
        0
    };
    let b: u32 = if has_data_key {
        OBJECT_KEY_MASK
    } else {
        0
    };
    let c: u32 = if has_data {
        AUX_MASK
    } else {
        0
    };
    assert(((a | b | c) & 0x4000_0000u32 != 0) == (a == 0x4000_0000u32) && ((a | b | c)
        & 0x2000_0000u32 != 0) == (b == 0x2000_0000u32) && ((a | b | c) & 0x1000_0000u32 != 0)
        == (c == 0x1000_0000u32) && (a | b | c) & 0x03FF_FFFFu32 == 0) by (bit_vector)
        requires
            a == 0 || a == 0x4000_0000u32,
            b == 0 || b == 0x2000_0000u32,
            c == 0 || c == 0x1000_0000u32,
    ;
}

/// What `set_node_count` does to the bits of a mask.
pub proof fn lemma_set_node_count_bits(m: u32, value: u32)
    requires
        value < NODE_COUNT_MASK,
    ensures
        (m & (!NODE_COUNT_MASK | value)) & NODE_COUNT_MASK == (m & NODE_COUNT_MASK) & value,
        ((m & (!NODE_COUNT_MASK | value)) & NODE_BIT_MASK != 0) == (m & NODE_BIT_MASK != 0),
        ((m & (!NODE_COUNT_MASK | value)) & OBJECT_KEY_MASK != 0) == (m & OBJECT_KEY_MASK != 0),
        ((m & (!NODE_COUNT_MASK | value)) & AUX_MASK != 0) == (m & AUX_MASK != 0),
{
    assert((m & (!0x03FF_FFFFu32 | value)) & 0x03FF_FFFFu32 == (m & 0x03FF_FFFFu32) & value
        && ((m & (!0x03FF_FFFFu32 | value)) & 0x4000_0000u32 != 0) == (m & 0x4000_0000u32 != 0)
        && ((m & (!0x03FF_FFFFu32 | value)) & 0x2000_0000u32 != 0) == (m & 0x2000_0000u32 != 0)
        && ((m & (!0x03FF_FFFFu32 | value)) & 0x1000_0000u32 != 0) == (m & 0x1000_0000u32 != 0))
        by (bit_vector)
        requires
            value < 0x03FF_FFFFu32,
    ;
}

/// A slot table: groups and slots, each held in an array whose first
/// `groups_len` (respectively `slots_len`) cells are in use.
pub struct SlotTable<T> {
    slots: Vec<Option<T>>,
    slots_len: usize,
    groups: Vec<Group>,
    groups_len: usize,
}

impl<T> SlotTable<T> {
    /// The cells in use fit in the arrays.
    pub closed spec fn wf(self) -> bool {
        self.slots_len <= self.slots@.len() && self.groups_len <= self.groups@.len()
    }

    /// The slots in use.
    pub closed spec fn slots(self) -> Seq<Option<T>> {
        self.slots@.subrange(0, self.slots_len as int)
    }

    /// The groups in use.
    pub closed spec fn groups(self) -> Seq<Group> {
        self.groups@.subrange(0, self.groups_len as int)
    }

    /// The number of slot cells allocated.
    pub closed spec fn slot_capacity(self) -> nat {
        self.slots@.len()
    }

    /// The number of group cells allocated.
    pub closed spec fn group_capacity(self) -> nat {
        self.groups@.len()
    }

    /// A table without groups, slots or allocated cells.
    pub fn new() -> (r: Self)
        ensures
            r.wf(),
            r.slots() == Seq::<Option<T>>::empty(),
            r.groups() == Seq::<Group>::empty(),
            r.slot_capacity() == 0,
            r.group_capacity() == 0,
    {
        let r = SlotTable { slots: Vec::new(), slots_len: 0, groups: Vec::new(), groups_len: 0 };
        assert(r.slots() =~= Seq::<Option<T>>::empty());
        assert(r.groups() =~= Seq::<Group>::empty());
        r
    }

    pub fn is_empty(&self) -> (r: bool)
        requires
            self.wf(),
        ensures
            r == (self.groups().len() == 0),
    {
        self.groups_len == 0
    }

    pub fn into_reader(self) -> (r: SlotReader<T>)
        requires
            self.wf(),
        ensures
            r == SlotReader::spec_new(self),
    {
        SlotReader::new(self)
    }

    pub fn into_writer(self) -> (r: SlotWriter<T>)
        requires
            self.wf(),
        ensures
            r.is_new_for(self),
            r.wf(),
            r.slots() == self.slots(),
            r.groups() == self.groups(),
            r.slot_capacity() == self.slot_capacity(),
            r.group_capacity() == self.group_capacity(),
            r.slot_gap_start() == self.slots().len(),
            r.group_gap_start() == self.groups().len(),
            r.current_slot() == 0,
            r.current_slot_end() == 0,
            r.insert_count() == 0,
            r.parent() == -1,
            r.current_group() == 0,
            r.current_group_end() == self.groups().len(),
            r.end_stack() == Seq::<usize>::empty(),
            r.node_count() == 0,
            r.node_count_stack() == Seq::<usize>::empty(),
    {
        SlotWriter::new(self)
    }
}

impl<T> SlotTable<T> {
    /// Writes into the table: `f` works on a writer opened on the table, and
    /// the table is what closing that writer leaves.
    pub fn write<F: FnOnce(&mut SlotWriter<T>)>(self, f: F) -> (r: Self)
        requires
            self.wf(),
            forall|w: &mut SlotWriter<T>| #[trigger] w.fresh_for(self) ==> call_requires(f, (w,)),
            forall|w: &mut SlotWriter<T>| #[trigger] call_ensures(f, (w,), ()) ==> final(w).wf(),
        ensures
            r.wf(),
            exists|w: &mut SlotWriter<T>|
                w.fresh_for(self) && #[trigger] call_ensures(f, (w,), ()) && r == final(w).spec_close(),
    {
        let mut writer = self.into_writer();
        assert(writer.fresh_for(self));
        f(&mut writer);
        writer.close()
    }
}

impl<T> Default for SlotTable<T> {
    fn default() -> (r: Self)
        ensures
            r.wf(),
            r.slots() == Seq::<Option<T>>::empty(),
            r.groups() == Seq::<Group>::empty(),
            r.slot_capacity() == 0,
            r.group_capacity() == 0,
    {
        Self::new()
    }
}

impl<T> Default for SlotWriter<T> {
    fn default() -> (r: Self)
        ensures
            r.wf(),
            r.slots() == Seq::<Option<T>>::empty(),
            r.groups() == Seq::<Group>::empty(),
            r.insert_count() == 0,
            r.current_slot() == 0,
            r.current_group() == 0,
    {
        Self::new(SlotTable::new())
    }
}

} // verus!
