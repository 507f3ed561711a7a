use opentype_layout::FeatureListTable;
use opentype_layout::FeatureTable;
use opentype_layout::FeatureVariations;
use opentype_layout::LangSysTable;
use opentype_layout::LookupListTable;
use opentype_layout::LookupTable;
use opentype_layout::Script;
use opentype_layout::ScriptListTable;

fn push_u16(buf: &mut Vec<u8>, v: u16) {
    buf.extend_from_slice(&v.to_be_bytes());
}

fn push_u32(buf: &mut Vec<u8>, v: u32) {
    buf.extend_from_slice(&v.to_be_bytes());
}

fn push_tag(buf: &mut Vec<u8>, tag: &[u8; 4]) {
    buf.extend_from_slice(tag);
}

#[test]
fn script_list_records_kept() {
    let mut data = Vec::new();
    push_u16(&mut data, 2);
    push_tag(&mut data, b"latn");
    push_u16(&mut data, 14);
    push_tag(&mut data, b"cyrl");
    push_u16(&mut data, 20);
    let table = ScriptListTable::parse(&data).unwrap();
    assert_eq!(table.record_count(), 2);
    assert_eq!(table.record(0).tag, 0x6C61746E);
    assert_eq!(table.record(0).offset, 14);
    assert_eq!(table.record(1).tag, 0x6379726C);
    assert_eq!(table.record(1).offset, 20);
}

#[test]
fn script_list_overrun_count_rejected() {
    let mut data = Vec::new();
    push_u16(&mut data, 2);
    push_tag(&mut data, b"latn");
    push_u16(&mut data, 14);
    assert!(ScriptListTable::parse(&data).is_none());
}

#[test]
fn script_default_lang_sys_absent_when_zero() {
    let mut data = Vec::new();
    push_u16(&mut data, 0);
    push_u16(&mut data, 1);
    push_tag(&mut data, b"DEU ");
    push_u16(&mut data, 12);
    let script = Script::parse(&data).unwrap();
    assert_eq!(script.default_lang_sys_offset(), None);
    assert_eq!(script.record_count(), 1);
    assert_eq!(script.record(0).tag, 0x44455520);
    assert_eq!(script.record(0).offset, 12);
}

#[test]
fn script_default_lang_sys_present_when_nonzero() {
    let mut data = Vec::new();
    push_u16(&mut data, 10);
    push_u16(&mut data, 0);
    let script = Script::parse(&data).unwrap();
    assert_eq!(script.default_lang_sys_offset(), Some(10));
    assert_eq!(script.record_count(), 0);
}

#[test]
fn lang_sys_parses_and_keeps_indices() {
    let mut data = Vec::new();
    push_u16(&mut data, 0);
    push_u16(&mut data, 2);
    push_u16(&mut data, 3);
    push_u16(&mut data, 7);
    push_u16(&mut data, 4);
    push_u16(&mut data, 7);
    let table = LangSysTable::parse(&data).unwrap();
    assert_eq!(table.required_feature_index(), Some(2));
    assert_eq!(table.index_count(), 3);
    assert_eq!(table.index(0), 7);
    assert_eq!(table.index(1), 4);
    assert_eq!(table.index(2), 7);
}

#[test]
fn lang_sys_required_feature_sentinel() {
    let mut data = Vec::new();
    push_u16(&mut data, 0);
    push_u16(&mut data, 0xFFFF);
    push_u16(&mut data, 0);
    let table = LangSysTable::parse(&data).unwrap();
    assert_eq!(table.required_feature_index(), None);
}

#[test]
fn lang_sys_nonzero_reserved_rejected() {
    // otherwise fully valid, but the reserved field holds a value
    let mut data = Vec::new();
    push_u16(&mut data, 4);
    push_u16(&mut data, 0xFFFF);
    push_u16(&mut data, 1);
    push_u16(&mut data, 0);
    assert!(LangSysTable::parse(&data).is_none());
}

#[test]
fn lang_sys_overrun_count_rejected() {
    let mut data = Vec::new();
    push_u16(&mut data, 0);
    push_u16(&mut data, 0xFFFF);
    push_u16(&mut data, 3);
    push_u16(&mut data, 1);
    assert!(LangSysTable::parse(&data).is_none());
}

#[test]
fn feature_list_records_kept() {
    let mut data = Vec::new();
    push_u16(&mut data, 1);
    push_tag(&mut data, b"liga");
    push_u16(&mut data, 8);
    let table = FeatureListTable::parse(&data).unwrap();
    assert_eq!(table.record_count(), 1);
    assert_eq!(table.record(0).tag, 0x6C696761);
    assert_eq!(table.record(0).offset, 8);
}

#[test]
fn feature_table_keeps_order_and_duplicates() {
    let mut data = Vec::new();
    push_u16(&mut data, 0);
    push_u16(&mut data, 3);
    push_u16(&mut data, 3);
    push_u16(&mut data, 3);
    push_u16(&mut data, 1);
    let table = FeatureTable::parse(&data).unwrap();
    assert_eq!(table.feature_params_offset(), None);
    assert_eq!(table.index_count(), 3);
    assert_eq!(table.index(0), 3);
    assert_eq!(table.index(1), 3);
    assert_eq!(table.index(2), 1);
}

#[test]
fn feature_table_params_offset_present_when_nonzero() {
    let mut data = Vec::new();
    push_u16(&mut data, 6);
    push_u16(&mut data, 0);
    let table = FeatureTable::parse(&data).unwrap();
    assert_eq!(table.feature_params_offset(), Some(6));
}

#[test]
fn lookup_list_offsets_indexed_in_order() {
    let mut data = Vec::new();
    push_u16(&mut data, 2);
    push_u16(&mut data, 6);
    push_u16(&mut data, 16);
    let table = LookupListTable::parse(&data).unwrap();
    assert_eq!(table.offset_count(), 2);
    assert_eq!(table.offset(0), 6);
    assert_eq!(table.offset(1), 16);
}

#[test]
fn lookup_table_fields_kept() {
    let mut data = Vec::new();
    push_u16(&mut data, 4);
    push_u16(&mut data, 0x0008);
    push_u16(&mut data, 2);
    push_u16(&mut data, 10);
    push_u16(&mut data, 40);
    push_u16(&mut data, 5);
    let table = LookupTable::parse(&data).unwrap();
    assert_eq!(table.lookup_type(), 4);
    assert_eq!(table.lookup_flag(), 0x0008);
    assert_eq!(table.offset_count(), 2);
    assert_eq!(table.offset(0), 10);
    assert_eq!(table.offset(1), 40);
    assert_eq!(table.mark_filtering_set(), 5);
}

#[test]
fn lookup_table_missing_mark_filtering_set_rejected() {
    // the field after the array is mandatory
    let mut data = Vec::new();
    push_u16(&mut data, 4);
    push_u16(&mut data, 0);
    push_u16(&mut data, 1);
    push_u16(&mut data, 10);
    assert!(LookupTable::parse(&data).is_none());
}

#[test]
fn feature_variations_parses_supported_version() {
    let mut data = Vec::new();
    push_u32(&mut data, 0x00010000);
    push_u32(&mut data, 2);
    push_u32(&mut data, 0x20);
    push_u32(&mut data, 0x40);
    push_u32(&mut data, 0x60);
    push_u32(&mut data, 0);
    let table = FeatureVariations::parse(&data).unwrap();
    assert_eq!(table.record_count(), 2);
    assert_eq!(table.record(0).condition_set_offset, 0x20);
    assert_eq!(table.record(0).feature_table_substitution_offset, 0x40);
    assert_eq!(table.record(1).condition_set_offset, 0x60);
    assert_eq!(table.record(1).feature_table_substitution_offset, 0);
}

#[test]
fn feature_variations_other_version_rejected() {
    // well-formed remainder, but any version but the supported one fails
    let mut data = Vec::new();
    push_u32(&mut data, 0x00010001);
    push_u32(&mut data, 0);
    assert!(FeatureVariations::parse(&data).is_none());

    let mut data = Vec::new();
    push_u32(&mut data, 0x00020000);
    push_u32(&mut data, 0);
    assert!(FeatureVariations::parse(&data).is_none());
}

#[test]
fn feature_variations_overrun_count_rejected() {
    let mut data = Vec::new();
    push_u32(&mut data, 0x00010000);
    push_u32(&mut data, 2);
    push_u32(&mut data, 0x20);
    push_u32(&mut data, 0x40);
    assert!(FeatureVariations::parse(&data).is_none());
}
