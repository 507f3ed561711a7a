//! The top-level assembly of a glyph-substitution table from the
//! shared substructures: a version tag, three mandatory offsets to the
//! script list, feature list and lookup list, and — for the higher
//! version only — an optional offset to feature variations.

use crate::ggg::feature_list_records;
use crate::ggg::feature_list_wf;
use crate::ggg::feature_variations_records;
use crate::ggg::feature_variations_wf;
use crate::ggg::lookup_list_offsets;
use crate::ggg::lookup_list_wf;
use crate::ggg::script_list_records;
use crate::ggg::script_list_wf;
use crate::ggg::FeatureListTable;
use crate::ggg::FeatureVariations;
use crate::ggg::LookupListTable;
use crate::ggg::ScriptListTable;
use crate::parser::be16;
use crate::parser::be32;
use crate::parser::read_u16;
use crate::parser::read_u32;
use crate::parser::tail_at;
use vstd::prelude::*;

verus! {

/// The base version of the root table: the three mandatory offsets and
/// nothing more.
pub const VERSION_1_0: u32 = 0x00010000;

/// The extended version of the root table: the three mandatory offsets
/// followed by an optional feature-variations offset.
pub const VERSION_1_1: u32 = 0x00010001;

/// `s` carries a feature-variations offset that is to be read and
/// resolved: only under the extended version — the version gate takes
/// precedence over byte content — and only when the offset is non-zero.
pub open spec fn table_has_variations(s: Seq<u8>) -> bool {
    be32(s, 0) == VERSION_1_1 && be32(s, 10) != 0
}

/// `s` encodes a structurally sound root table: a recognized version,
/// a header long enough for that version's fields, and each resolved
/// offset landing inside the buffer at a sub-table that itself parses.
pub open spec fn table_wf(s: Seq<u8>) -> bool {
    &&& s.len() >= 10
    &&& (be32(s, 0) == VERSION_1_0 || be32(s, 0) == VERSION_1_1)
    &&& (be32(s, 0) == VERSION_1_1 ==> s.len() >= 14)
    &&& be16(s, 4) <= s.len() && script_list_wf(tail_at(s, be16(s, 4) as int))
    &&& be16(s, 6) <= s.len() && feature_list_wf(tail_at(s, be16(s, 6) as int))
    &&& be16(s, 8) <= s.len() && lookup_list_wf(tail_at(s, be16(s, 8) as int))
    &&& (table_has_variations(s) ==> be32(s, 10) <= s.len() && feature_variations_wf(
        tail_at(s, be32(s, 10) as int),
    ))
}

/// A fully resolved root table: the four aggregated views over the
/// original buffer. Immutable once parsed; queries re-derive their
/// answers from the retained sub-slices.
#[derive(Clone, Copy)]
pub struct Table<'a> {
    script_list_table: ScriptListTable<'a>,
    feature_list_table: FeatureListTable<'a>,
    lookup_list_table: LookupListTable<'a>,
    feature_variations: Option<FeatureVariations<'a>>,
}

impl<'a> Table<'a> {
    pub closed spec fn spec_script_list(&self) -> ScriptListTable<'a> {
        self.script_list_table
    }

    pub closed spec fn spec_feature_list(&self) -> FeatureListTable<'a> {
        self.feature_list_table
    }

    pub closed spec fn spec_lookup_list(&self) -> LookupListTable<'a> {
        self.lookup_list_table
    }

    pub closed spec fn spec_feature_variations(&self) -> Option<FeatureVariations<'a>> {
        self.feature_variations
    }

    pub closed spec fn wf(&self) -> bool {
        &&& self.script_list_table.wf()
        &&& self.feature_list_table.wf()
        &&& self.lookup_list_table.wf()
        &&& (self.feature_variations matches Some(v) ==> v.wf())
    }

    /// Parses a root table. Succeeds exactly on a structurally sound
    /// buffer; each aggregated view then holds what its offset's
    /// sub-slice encodes, and feature variations are present exactly
    /// when the extended version carries a non-zero offset for them.
    pub fn parse(data: &'a [u8]) -> (r: Option<Table<'a>>)
        ensures
            r is Some <==> table_wf(data@),
            r matches Some(t) ==> {
                &&& t.wf()
                &&& t.spec_script_list().spec_data() == tail_at(data@, be16(data@, 4) as int)
                &&& t.spec_script_list().records() == script_list_records(
                    tail_at(data@, be16(data@, 4) as int),
                )
                &&& t.spec_feature_list().records() == feature_list_records(
                    tail_at(data@, be16(data@, 6) as int),
                )
                &&& t.spec_lookup_list().offsets() == lookup_list_offsets(
                    tail_at(data@, be16(data@, 8) as int),
                )
                &&& (t.spec_feature_variations() is Some <==> table_has_variations(data@))
                &&& (t.spec_feature_variations() matches Some(v) ==> v.records()
                    == feature_variations_records(tail_at(data@, be32(data@, 10) as int)))
            },
    {
        let n: usize = data.len();
        if n < 10 {
            return None;
        }
        let version = read_u32(data, 0);
        if !(version == VERSION_1_0 || version == VERSION_1_1) {
            return None;
        }
        let script_list_offset = read_u16(data, 4);
        let feature_list_offset = read_u16(data, 6);
        let lookup_list_offset = read_u16(data, 8);
        let feature_variations_offset: Option<u32> = if version > VERSION_1_0 {
            if n < 14 {
                return None;
            }
            let raw_offset = read_u32(data, 10);
            if raw_offset == 0 {
                Option::None
            } else {
                Option::Some(raw_offset)
            }
        } else {
            Option::None
        };
        if script_list_offset as usize > n {
            return None;
        }
        let script_list_table = match ScriptListTable::parse(
            vstd::slice::slice_subrange(data, script_list_offset as usize, n),
        ) {
            Some(t) => t,
            None => {
                return None;
            },
        };
        if feature_list_offset as usize > n {
            return None;
        }
        let feature_list_table = match FeatureListTable::parse(
            vstd::slice::slice_subrange(data, feature_list_offset as usize, n),
        ) {
            Some(t) => t,
            None => {
                return None;
            },
        };
        if lookup_list_offset as usize > n {
            return None;
        }
        let lookup_list_table = match LookupListTable::parse(
            vstd::slice::slice_subrange(data, lookup_list_offset as usize, n),
        ) {
            Some(t) => t,
            None => {
                return None;
            },
        };
        let feature_variations = match feature_variations_offset {
            Some(offset) => {
                if offset as usize > n {
                    return None;
                }
                match FeatureVariations::parse(
                    vstd::slice::slice_subrange(data, offset as usize, n),
                ) {
                    Some(v) => Option::Some(v),
                    None => {
                        return None;
                    },
                }
            },
            None => Option::None,
        };
        Some(Table { script_list_table, feature_list_table, lookup_list_table, feature_variations })
    }

    pub fn script_list(&self) -> (r: ScriptListTable<'a>)
        ensures
            r == self.spec_script_list(),
    {
        self.script_list_table
    }

    pub fn feature_list(&self) -> (r: FeatureListTable<'a>)
        ensures
            r == self.spec_feature_list(),
    {
        self.feature_list_table
    }

    pub fn lookup_list(&self) -> (r: LookupListTable<'a>)
        ensures
            r == self.spec_lookup_list(),
    {
        self.lookup_list_table
    }

    pub fn feature_variations(&self) -> (r: Option<FeatureVariations<'a>>)
        ensures
            r == self.spec_feature_variations(),
    {
        self.feature_variations
    }
}

/// Version gating takes precedence over byte content: a root table of
/// the base version carries no feature variations, whatever stands in
/// the bytes where the extended version would put their offset.
pub proof fn lemma_base_version_has_no_variations(s: Seq<u8>)
    requires
        be32(s, 0) == VERSION_1_0,
    ensures
        !table_has_variations(s),
{
}

} // verus!
