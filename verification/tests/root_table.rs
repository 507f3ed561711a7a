use opentype_layout::FeatureTable;
use opentype_layout::LookupTable;
use opentype_layout::Table;

fn push_u16(buf: &mut Vec<u8>, v: u16) {
    buf.extend_from_slice(&v.to_be_bytes());
}

fn push_u32(buf: &mut Vec<u8>, v: u32) {
    buf.extend_from_slice(&v.to_be_bytes());
}

fn push_tag(buf: &mut Vec<u8>, tag: &[u8; 4]) {
    buf.extend_from_slice(tag);
}

/// A minimal well-formed buffer: empty script, feature and lookup
/// lists at offsets 14, 16 and 18, with the four bytes at 10..14 free
/// for the version under test to interpret or ignore.
fn minimal_root(version: u32, bytes_at_10: u32) -> Vec<u8> {
    let mut data = Vec::new();
    push_u32(&mut data, version);
    push_u16(&mut data, 14);
    push_u16(&mut data, 16);
    push_u16(&mut data, 18);
    push_u32(&mut data, bytes_at_10);
    push_u16(&mut data, 0);
    push_u16(&mut data, 0);
    push_u16(&mut data, 0);
    data
}

#[test]
fn root_base_version_ignores_variations_offset_bytes() {
    // version 0x00010000: the non-zero bytes where the extended
    // version would keep its feature-variations offset are not read
    let data = minimal_root(0x00010000, 42);
    let table = Table::parse(&data).unwrap();
    assert!(table.feature_variations().is_none());
}

#[test]
fn root_extended_version_reads_variations_offset() {
    // the same bytes under version 0x00010001: offset 42 points past
    // the end, so the whole parse fails
    let data = minimal_root(0x00010001, 42);
    assert!(Table::parse(&data).is_none());
}

#[test]
fn root_extended_version_zero_offset_means_absent() {
    let data = minimal_root(0x00010001, 0);
    let table = Table::parse(&data).unwrap();
    assert!(table.feature_variations().is_none());
}

#[test]
fn root_extended_version_resolves_variations() {
    let mut data = minimal_root(0x00010001, 20);
    push_u32(&mut data, 0x00010000);
    push_u32(&mut data, 1);
    push_u32(&mut data, 0x30);
    push_u32(&mut data, 0x50);
    let table = Table::parse(&data).unwrap();
    let variations = table.feature_variations().unwrap();
    assert_eq!(variations.record_count(), 1);
    assert_eq!(variations.record(0).condition_set_offset, 0x30);
    assert_eq!(variations.record(0).feature_table_substitution_offset, 0x50);
}

#[test]
fn root_extended_version_bad_variations_version_rejected() {
    let mut data = minimal_root(0x00010001, 20);
    push_u32(&mut data, 0x00020000);
    push_u32(&mut data, 0);
    assert!(Table::parse(&data).is_none());
}

#[test]
fn root_unknown_version_rejected() {
    assert!(Table::parse(&minimal_root(0x00020000, 0)).is_none());
    assert!(Table::parse(&minimal_root(0x00000001, 0)).is_none());
    assert!(Table::parse(&minimal_root(0xFFFFFFFF, 0)).is_none());
}

#[test]
fn root_extended_version_needs_full_header() {
    // 10 bytes hold a base-version header, but not the extended one
    let mut data = Vec::new();
    push_u32(&mut data, 0x00010001);
    push_u16(&mut data, 10);
    push_u16(&mut data, 10);
    push_u16(&mut data, 10);
    assert!(Table::parse(&data).is_none());
}

#[test]
fn root_offset_past_end_rejected() {
    let mut data = Vec::new();
    push_u32(&mut data, 0x00010000);
    push_u16(&mut data, 100);
    push_u16(&mut data, 16);
    push_u16(&mut data, 18);
    assert!(Table::parse(&data).is_none());
}

#[test]
fn root_truncated_sub_table_rejected() {
    // the script list's declared record count overruns the buffer
    let mut data = Vec::new();
    push_u32(&mut data, 0x00010000);
    push_u16(&mut data, 10);
    push_u16(&mut data, 12);
    push_u16(&mut data, 14);
    push_u16(&mut data, 3);
    push_u16(&mut data, 0);
    push_u16(&mut data, 0);
    assert!(Table::parse(&data).is_none());
}

#[test]
fn root_short_buffer_rejected() {
    assert!(Table::parse(&[]).is_none());
    let mut data = Vec::new();
    push_u32(&mut data, 0x00010000);
    push_u16(&mut data, 10);
    push_u16(&mut data, 10);
    assert!(Table::parse(&data).is_none());
}

#[test]
fn root_end_to_end() {
    // version 1.0; script list with one "latn" record; feature list
    // with one "liga" record pointing at a feature table with lookup
    // indices [0]; lookup list with one lookup of type 1, flag 0, one
    // subtable offset, mark filtering set 0
    let mut data = Vec::new();
    push_u32(&mut data, 0x00010000);
    push_u16(&mut data, 10);
    push_u16(&mut data, 18);
    push_u16(&mut data, 32);
    assert_eq!(data.len(), 10);
    // script list at 10: one record
    push_u16(&mut data, 1);
    push_tag(&mut data, b"latn");
    push_u16(&mut data, 8);
    assert_eq!(data.len(), 18);
    // feature list at 18: one record, its feature table at +8
    push_u16(&mut data, 1);
    push_tag(&mut data, b"liga");
    push_u16(&mut data, 8);
    // feature table at 26 (= 18 + 8): no params, lookup indices [0]
    push_u16(&mut data, 0);
    push_u16(&mut data, 1);
    push_u16(&mut data, 0);
    assert_eq!(data.len(), 32);
    // lookup list at 32: one offset, its lookup table at +4
    push_u16(&mut data, 1);
    push_u16(&mut data, 4);
    // lookup table at 36: type 1, flag 0, one subtable offset, mark 0
    push_u16(&mut data, 1);
    push_u16(&mut data, 0);
    push_u16(&mut data, 1);
    push_u16(&mut data, 8);
    push_u16(&mut data, 0);
    assert_eq!(data.len(), 46);

    let table = Table::parse(&data).unwrap();

    let scripts = table.script_list();
    assert_eq!(scripts.record_count(), 1);
    assert_eq!(scripts.record(0).tag, u32::from_be_bytes(*b"latn"));
    assert_eq!(scripts.record(0).offset, 8);

    let features = table.feature_list();
    assert_eq!(features.record_count(), 1);
    assert_eq!(features.record(0).tag, u32::from_be_bytes(*b"liga"));
    assert_eq!(features.record(0).offset, 8);
    let feature = FeatureTable::parse(&data[18 + 8..]).unwrap();
    assert_eq!(feature.feature_params_offset(), None);
    assert_eq!(feature.index_count(), 1);
    assert_eq!(feature.index(0), 0);

    let lookups = table.lookup_list();
    assert_eq!(lookups.offset_count(), 1);
    assert_eq!(lookups.offset(0), 4);
    let lookup = LookupTable::parse(&data[32 + 4..]).unwrap();
    assert_eq!(lookup.lookup_type(), 1);
    assert_eq!(lookup.lookup_flag(), 0);
    assert_eq!(lookup.offset_count(), 1);
    assert_eq!(lookup.offset(0), 8);
    assert_eq!(lookup.mark_filtering_set(), 0);

    assert!(table.feature_variations().is_none());
}
