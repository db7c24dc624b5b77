use kernul::codec;
use kernul::gdt::{self, GdtEntry, GdtError};

#[test]
fn limit_in_range_builds_and_round_trips() {
    let e = GdtEntry::new(0, 0xFFFFF, 0, 0).unwrap();
    assert_eq!(e.limit(), 0xFFFFF);
    let e = GdtEntry::new(0, 0, 0, 0).unwrap();
    assert_eq!(e.limit(), 0);
    let e = GdtEntry::new(0, 0x12345, 0, 0).unwrap();
    assert_eq!(e.limit(), 0x12345);
}

#[test]
fn limit_out_of_range_is_rejected() {
    assert!(matches!(GdtEntry::new(0, 0x100000, 0, 0), Err(GdtError::InvalidLimit)));
    assert!(matches!(GdtEntry::new(0, u32::MAX, 0, 0), Err(GdtError::InvalidLimit)));
    let mut e = GdtEntry::new(0, 0, 0, 0).unwrap();
    let before = e.bits;
    assert!(matches!(e.set_limit(0x100000), Err(GdtError::InvalidLimit)));
    assert_eq!(e.bits, before);
}

#[test]
fn base_round_trips_through_three_subfields() {
    let e = GdtEntry::new(0xDEAD_BEEF, 0, 0, 0).unwrap();
    assert_eq!(e.base(), 0xDEAD_BEEF);
    let e = GdtEntry::new(0xFFFF_FFFF, 0, 0, 0).unwrap();
    assert_eq!(e.base(), 0xFFFF_FFFF);
    let e = GdtEntry::new(0x0001_0000, 0, 0, 0).unwrap();
    assert_eq!(e.base(), 0x0001_0000);
    let mut e = GdtEntry::new(0, 0x345, 0, 0).unwrap();
    e.set_base(0x89AB_CDEF);
    assert_eq!(e.base(), 0x89AB_CDEF);
    assert_eq!(e.limit(), 0x345);
}

#[test]
fn present_bit_is_forced_into_access() {
    let e = GdtEntry::new(0, 0, 0, 0).unwrap();
    assert_eq!(e.access(), gdt::ACCESS_PRESENT as u64);
    let e = GdtEntry::new(0, 0, gdt::ACCESS_ACCESSED, 0).unwrap();
    assert_eq!(e.access(), 0x81);
}

#[test]
fn null_entry_decodes_empty_but_present() {
    let table = gdt::build_gdt_table();
    assert_eq!(table.len(), gdt::GDT_ENTRIES_COUNT);
    assert_eq!(table[0].base(), 0);
    assert_eq!(table[0].limit(), 0);
    assert_eq!(table[0].access(), gdt::ACCESS_PRESENT as u64);
    assert_eq!(table[0].flags(), gdt::FLAG_PROTECTED_MODE as u64);
}

#[test]
fn code_and_data_segments_span_full_range_with_page_granularity() {
    let table = gdt::build_gdt_table();
    for i in [1usize, 2usize] {
        assert_eq!(table[i].limit(), gdt::GDT_LIMIT_MAX as u64);
        assert_eq!(table[i].base(), 0);
        assert!(table[i].flags() & gdt::FLAG_PAGE_GRANULARITY as u64 != 0);
    }
    assert_eq!(table[1].access(), 0x9A);
    assert_eq!(table[2].access(), 0x92);
    // the classic flat-model descriptor words
    assert_eq!(table[1].bits, 0x00CF_9A00_0000_FFFF);
    assert_eq!(table[2].bits, 0x00CF_9200_0000_FFFF);
}

#[test]
fn tss_placeholder_is_zero_based_and_accessed() {
    let table = gdt::build_gdt_table();
    assert_eq!(table[3].base(), 0);
    assert_eq!(table[3].limit(), 0);
    assert_eq!(table[3].access(), 0x81);
    assert_eq!(table[3].flags(), gdt::FLAG_PROTECTED_MODE as u64);
}

#[test]
fn register_limit_is_byte_size_minus_one() {
    assert_eq!(codec::table_size_minus_one(gdt::GDT_ENTRIES_COUNT), 31);
    assert_eq!(codec::table_size_minus_one(1), 7);
    assert_eq!(codec::table_size_minus_one(8192), 0xFFFF);
}

#[test]
fn field_writes_touch_only_their_range() {
    let w = codec::write_field(0, 8, 8, 0xAB);
    assert_eq!(w, 0xAB00);
    assert_eq!(codec::read_field(w, 8, 8), 0xAB);
    assert_eq!(codec::read_field(w, 0, 8), 0);
    assert_eq!(codec::read_field(w, 16, 16), 0);
    let w2 = codec::write_field(0xFFFF_FFFF_FFFF_FFFF, 8, 8, 0);
    assert_eq!(w2, 0xFFFF_FFFF_FFFF_00FF);
}
