use crosvm::bits::BitStore;
use crosvm::layout::{bits_boundary, default_field_type, max, offset_of, total_size};
use crosvm::layout::{BitField, FieldType};

#[test]
fn bits_are_numbered_from_the_least_significant() {
    let mut store = BitStore::new(16);
    store.set_bit(0, true);
    store.set_bit(9, true);
    assert!(store.get_bit(0));
    assert!(!store.get_bit(1));
    assert!(store.get_bit(9));
    assert_eq!(store.get(0, 8), 0x01);
    assert_eq!(store.get(8, 8), 0x02);
    assert_eq!(store.get(0, 16), 0x201);
    store.set_bit(9, false);
    assert_eq!(store.get(0, 16), 0x001);
}

#[test]
fn get_gives_back_what_set_stored() {
    let mut store = BitStore::new(128);
    store.set(3, 64, 0x0123_4567_89ab_cdef);
    assert_eq!(store.get(3, 64), 0x0123_4567_89ab_cdef);
    assert_eq!(store.get(0, 3), 0);
    assert_eq!(store.get(67, 61), 0);
    store.set(3, 4, 0xff);
    assert_eq!(store.get(3, 4), 0xf);
    assert_eq!(store.get(7, 60), 0x0123_4567_89ab_cdef >> 4);
    store.set(3, 4, 5);
    store.set(3, 4, 9);
    assert_eq!(store.get(3, 4), 9);
    let before = store.get(0, 64);
    store.set(10, 20, store.get(10, 20));
    assert_eq!(store.get(0, 64), before);
    store.set(0, 0, 7);
    assert_eq!(store.get(0, 0), 0);
    assert_eq!(store.get(0, 64), before);
}

#[test]
fn access_is_checked() {
    let store = BitStore::new(24);
    assert!(store.check_access(0, 24));
    assert!(store.check_access(23, 1));
    assert!(!store.check_access(24, 0));
    assert!(!store.check_access(20, 5));
    assert!(!store.check_access(usize::MAX, 1));
    let store = BitStore::new(128);
    assert!(store.check_access(0, 64));
    assert!(!store.check_access(0, 65));
    assert!(!BitStore::new(0).check_access(0, 0));
}

#[test]
fn fields_start_at_zero_and_keep_the_greatest_value() {
    let widths: Vec<u8> = vec![1, 2, 5, 16, 24, 64, 8, 0, 8];
    let mut fields = BitField::new(widths.clone()).unwrap();
    for i in 0..widths.len() {
        assert_eq!(fields.get_field(i), 0);
        fields.set_field(i, max(widths[i]));
        assert_eq!(fields.get_field(i), max(widths[i]));
    }
    fields.set_field(2, 0b10101);
    for i in 0..widths.len() {
        let expected = if i == 2 { 0b10101 } else { max(widths[i]) };
        assert_eq!(fields.get_field(i), expected);
    }
}

#[test]
fn fields_make_up_whole_bytes() {
    assert!(BitField::new(vec![1, 2, 5]).is_some());
    assert!(BitField::new(vec![1, 2, 4]).is_none());
    assert!(BitField::new(vec![]).is_some());
}

#[test]
fn offsets_and_sizes() {
    let widths = [1, 2, 5, 64];
    assert_eq!(offset_of(&widths, 0), 0);
    assert_eq!(offset_of(&widths, 2), 3);
    assert_eq!(offset_of(&widths, 4), 72);
    assert_eq!(total_size(&widths), 72);
    assert_eq!(total_size(&[]), 0);
}

#[test]
fn fields_stay_in_one_word() {
    assert!(bits_boundary(&[1, 2, 5]));
    assert!(bits_boundary(&[64, 64]));
    assert!(bits_boundary(&[60, 4, 64]));
    assert!(bits_boundary(&[8, 0, 56]));
    assert!(!bits_boundary(&[8, 64]));
    assert!(!bits_boundary(&[60, 5]));
    assert!(!bits_boundary(&[63, 2, 63]));
}

#[test]
fn greatest_values() {
    assert_eq!(max(0), 0);
    assert_eq!(max(1), 1);
    assert_eq!(max(5), 31);
    assert_eq!(max(63), u64::MAX / 2);
    assert_eq!(max(64), u64::MAX);
}

#[test]
fn field_types() {
    assert_eq!(default_field_type(0), FieldType::U8);
    assert_eq!(default_field_type(8), FieldType::U8);
    assert_eq!(default_field_type(9), FieldType::U16);
    assert_eq!(default_field_type(17), FieldType::U32);
    assert_eq!(default_field_type(32), FieldType::U32);
    assert_eq!(default_field_type(33), FieldType::U64);
    assert_eq!(FieldType::U8.from_u64(0x1234_5678_9abc_def0), 0xf0);
    assert_eq!(FieldType::U16.from_u64(0x1234_5678_9abc_def0), 0xdef0);
    assert_eq!(FieldType::U32.from_u64(0x1234_5678_9abc_def0), 0x9abc_def0);
    assert_eq!(FieldType::U64.from_u64(0x1234_5678_9abc_def0), 0x1234_5678_9abc_def0);
}
