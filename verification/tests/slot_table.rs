use concoct::slot_table::{Group, SlotTable, SlotWriter};
use std::any::TypeId;

#[test]
fn group_flags_and_node_count() {
    let g = Group::new(TypeId::of::<u8>(), true, false, true, 3, 4);
    assert!(g.is_node());
    assert_eq!(g.node_count(), 0);
    let h = Group::new(TypeId::of::<u8>(), false, true, false, 0, 0);
    assert!(!h.is_node());
    let e = Group::empty();
    assert!(!e.is_node());
    assert_eq!(e.node_count(), 0);
}

#[test]
fn set_node_count_only_clears_count_bits() {
    // The count bits of the mask are combined with `&`, so a fresh group
    // keeps a count of zero.
    let mut g = Group::new(TypeId::of::<u8>(), true, false, false, 0, 0);
    g.set_node_count(3);
    assert_eq!(g.node_count(), 0);
    assert!(g.is_node());
}

#[test]
fn new_table_is_empty() {
    let table: SlotTable<u32> = SlotTable::new();
    assert!(table.is_empty());
    let table: SlotTable<u32> = SlotTable::default();
    let table = table.into_writer().close();
    assert!(table.is_empty());
}

#[test]
fn insert_a_group_with_a_key_then_read_it_back() {
    let mut writer: SlotWriter<u32> = SlotTable::new().into_writer();
    writer.begin_insert();
    writer.start_group(TypeId::of::<u32>(), Some(5));
    // The key is the group's current data slot.
    assert_eq!(writer.set(Some(7)), Some(5));
    assert_eq!(writer.end_group(), 0);
    writer.end_insert();
    let table = writer.close();
    assert!(!table.is_empty());

    let mut writer = table.into_writer();
    let mut other: SlotTable<u32> = SlotTable::new();
    assert_eq!(writer.skip(&mut other), Some(7));
    assert!(other.is_empty());
}

#[test]
fn update_while_inserting_returns_the_empty_previous_slot() {
    let mut writer: SlotWriter<u32> = SlotTable::new().into_writer();
    writer.begin_insert();
    writer.start_group(TypeId::of::<u32>(), None);
    assert_eq!(writer.update(Some(9)), None);
    assert_eq!(writer.update(None), None);
    assert_eq!(writer.set(Some(4)), None);
    assert_eq!(writer.end_group(), 0);
    writer.end_insert();
    let table = writer.close();

    let mut writer = table.into_writer();
    let mut other: SlotTable<u32> = SlotTable::new();
    assert_eq!(writer.skip(&mut other), Some(9));
    assert_eq!(writer.skip(&mut other), Some(4));
}

#[test]
fn skip_while_inserting_gives_an_empty_slot_in_a_new_array() {
    let mut writer: SlotWriter<u32> = SlotWriter::default();
    writer.begin_insert();
    let mut other: SlotTable<u32> = SlotTable::new();
    assert_eq!(writer.skip(&mut other), None);
    writer.end_insert();
}

#[test]
fn many_groups_grow_the_arrays() {
    let mut writer: SlotWriter<u64> = SlotTable::new().into_writer();
    writer.begin_insert();
    for i in 0..40u64 {
        writer.start_group(TypeId::of::<u64>(), Some(i));
        assert_eq!(writer.set(Some(i + 100)), Some(i));
    }
    for _ in 0..40 {
        writer.end_group();
    }
    writer.end_insert();
    let table = writer.close();
    let mut writer = table.into_writer();
    let mut other: SlotTable<u64> = SlotTable::new();
    for i in 0..40u64 {
        assert_eq!(writer.skip(&mut other), Some(i + 100));
    }
}

#[test]
fn reader_of_a_fresh_position_reads_nothing() {
    let mut writer: SlotWriter<u32> = SlotTable::new().into_writer();
    writer.begin_insert();
    writer.start_group(TypeId::of::<u32>(), Some(1));
    writer.end_group();
    writer.end_insert();
    let mut reader = writer.close().into_reader();
    assert_eq!(reader.next_slot(), None);
}

#[test]
fn write_keeps_the_inserted_group() {
    let table: SlotTable<u8> = SlotTable::default();
    assert!(table.is_empty());
    let table = table.write(|w| {
        w.begin_insert();
        w.start_group(TypeId::of::<u8>(), None);
        w.end_group();
        w.end_insert();
    });
    assert!(!table.is_empty());
}

#[test]
fn skip_while_inserting_returns_an_empty_slot_not_a_stale_one() {
    let table: SlotTable<u8> = SlotTable::default().write(|w| {
        w.begin_insert();
        w.start_group(TypeId::of::<u8>(), Some(7));
        w.end_group();
        w.end_insert();
    });
    let mut w = SlotWriter::new(table);
    w.begin_insert();
    let mut other: SlotTable<u8> = SlotTable::default();
    assert_eq!(w.skip(&mut other), None);
    assert_eq!(w.skip(&mut other), None);
    assert_eq!(w.update(Some(3)), None);
}

#[test]
fn set_round_trip_gives_the_value_back() {
    let mut w: SlotWriter<u8> = SlotTable::new().into_writer();
    w.begin_insert();
    w.start_group(TypeId::of::<u8>(), Some(5));
    let previous = w.set(Some(7));
    assert_eq!(previous, Some(5));
    assert_eq!(w.set(previous), Some(7));
    assert_eq!(w.set(None), Some(5));
}

#[test]
fn insert_round_trip_keeps_the_writer() {
    let mut w: SlotWriter<u8> = SlotTable::new().into_writer();
    w.begin_insert();
    w.begin_insert();
    w.end_insert();
    w.start_group(TypeId::of::<u8>(), None);
    assert_eq!(w.end_group(), 0);
    w.end_insert();
    assert!(!w.close().is_empty());
}
