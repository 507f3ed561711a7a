//! Common structures of the glyph-layout tables: coverage, class
//! definition, the script/language/feature graph, the lookup list and
//! feature variations.
//!
//! Every table borrows the byte range handed to it and re-reads it
//! lazily on each query. Structural parsers succeed exactly on
//! well-formed bytes; the hot-path queries (`CoverageTable::contains`,
//! `ClassDefinitionTable::get`) absorb any structural failure into a
//! safe default instead of propagating it.

use crate::parser::be16;
use crate::parser::be32;
use crate::parser::read_u16;
use crate::parser::read_u32;
use crate::parser::sorted_u16s;
use crate::parser::tag_offsets_at;
use crate::parser::u16s_at;
use crate::parser::variation_records_at;
use crate::parser::TagOffsetArray;
use crate::parser::TagOffsetRecord;
use crate::parser::U16Array;
use crate::parser::VariationRecord;
use crate::parser::VariationRecordArray;
use vstd::prelude::*;

verus! {

/// A contiguous glyph-id interval mapped to one 16-bit value.
#[derive(Clone, Copy, PartialEq, Eq, Structural, Debug)]
pub struct RangeRecord {
    pub start_glyph_id: u16,
    pub end_glyph_id: u16,
    pub value: u16,
}

impl RangeRecord {
    /// Whether `glyph_id` lies in the record's inclusive interval.
    /// A malformed record with `start > end` contains no glyph at all.
    pub open spec fn spec_contains_glyph(self, glyph_id: u16) -> bool {
        self.start_glyph_id <= glyph_id <= self.end_glyph_id
    }

    /// Whether `glyph_id` lies in the record's inclusive interval.
    pub fn contains_glyph(&self, glyph_id: u16) -> (r: bool)
        ensures
            r == self.spec_contains_glyph(glyph_id),
    {
        self.start_glyph_id <= glyph_id && glyph_id <= self.end_glyph_id
    }
}

/// The range record encoded at byte `pos` of `s`.
pub open spec fn range_record_at(s: Seq<u8>, pos: int) -> RangeRecord {
    RangeRecord {
        start_glyph_id: be16(s, pos),
        end_glyph_id: be16(s, pos + 2),
        value: be16(s, pos + 4),
    }
}

/// The sequence of `n` range records starting at byte `pos` of `s`.
pub open spec fn range_records_at(s: Seq<u8>, pos: int, n: int) -> Seq<RangeRecord> {
    Seq::new(n as nat, |i: int| range_record_at(s, pos + 6 * i))
}

/// Some record of `rs` contains `glyph_id`.
pub open spec fn glyph_in_ranges(rs: Seq<RangeRecord>, glyph_id: u16) -> bool {
    exists|i: int| 0 <= i < rs.len() && rs[i].spec_contains_glyph(glyph_id)
}

/// The value of the first record of `rs` containing `glyph_id`, if any.
pub open spec fn range_first_match(rs: Seq<RangeRecord>, glyph_id: u16) -> Option<u16>
    decreases rs.len(),
{
    if rs.len() == 0 {
        None
    } else if rs[0].spec_contains_glyph(glyph_id) {
        Some(rs[0].value)
    } else {
        range_first_match(rs.drop_first(), glyph_id)
    }
}

/// A first match exists exactly when some record contains the glyph.
pub proof fn lemma_range_first_match_iff(rs: Seq<RangeRecord>, glyph_id: u16)
    ensures
        range_first_match(rs, glyph_id) is Some <==> glyph_in_ranges(rs, glyph_id),
    decreases rs.len(),
{
    if rs.len() == 0 {
    } else if rs[0].spec_contains_glyph(glyph_id) {
        assert(glyph_in_ranges(rs, glyph_id));
    } else {
        lemma_range_first_match_iff(rs.drop_first(), glyph_id);
        if glyph_in_ranges(rs.drop_first(), glyph_id) {
            let i = choose|i: int|
                0 <= i < rs.drop_first().len() && rs.drop_first()[i].spec_contains_glyph(glyph_id);
            assert(rs[i + 1].spec_contains_glyph(glyph_id));
        } else if glyph_in_ranges(rs, glyph_id) {
            let i = choose|i: int| 0 <= i < rs.len() && rs[i].spec_contains_glyph(glyph_id);
            assert(rs.drop_first()[i - 1].spec_contains_glyph(glyph_id));
        }
    }
}

/// A lazily indexed array of 6-byte range records.
#[derive(Clone, Copy)]
pub struct RangeArray<'a> {
    data: &'a [u8],
}

impl<'a> View for RangeArray<'a> {
    type V = Seq<RangeRecord>;

    closed spec fn view(&self) -> Seq<RangeRecord> {
        Seq::new((self.data@.len() / 6) as nat, |i: int| range_record_at(self.data@, 6 * i))
    }
}

impl<'a> RangeArray<'a> {
    /// The backing slice holds exactly the array's records.
    pub closed spec fn wf(&self) -> bool {
        self.data@.len() % 6 == 0
    }

    /// Takes the `count`-record array starting at byte `pos`, failing
    /// when the declared count overruns the slice.
    pub fn read(data: &'a [u8], pos: usize, count: u16) -> (r: Option<RangeArray<'a>>)
        ensures
            r is Some <==> pos + 6 * count <= data@.len(),
            r matches Some(a) ==> a.wf() && a@ == range_records_at(data@, pos as int, count as int),
    {
        let n: usize = data.len();
        if pos <= n && 6 * (count as usize) <= n - pos {
            let end = pos + 6 * (count as usize);
            let a = RangeArray { data: vstd::slice::slice_subrange(data, pos, end) };
            proof {
                assert(a@ =~= range_records_at(data@, pos as int, count as int));
            }
            Some(a)
        } else {
            None
        }
    }

    pub fn len(&self) -> (n: usize)
        requires
            self.wf(),
        ensures
            n == self@.len(),
    {
        self.data.len() / 6
    }

    pub fn get(&self, i: usize) -> (r: RangeRecord)
        requires
            self.wf(),
            i < self@.len(),
        ensures
            r == self@[i as int],
    {
        let _n: usize = self.data.len();
        let start_glyph_id = read_u16(self.data, 6 * i);
        let end_glyph_id = read_u16(self.data, 6 * i + 2);
        let value = read_u16(self.data, 6 * i + 4);
        RangeRecord { start_glyph_id, end_glyph_id, value }
    }

    /// Whether any record's interval contains `glyph_id`; a linear scan,
    /// so the answer does not depend on the records being sorted.
    pub fn contains_glyph(&self, glyph_id: u16) -> (r: bool)
        requires
            self.wf(),
        ensures
            r == glyph_in_ranges(self@, glyph_id),
    {
        let len = self.len();
        let mut k: usize = 0;
        while k < len
            invariant
                self.wf(),
                len == self@.len(),
                k <= len,
                forall|i: int| 0 <= i < k ==> !self@[i].spec_contains_glyph(glyph_id),
            decreases len - k,
        {
            let rec = self.get(k);
            if rec.contains_glyph(glyph_id) {
                return true;
            }
            k = k + 1;
        }
        false
    }

    /// The value of the first record whose interval contains `glyph_id`.
    pub fn first_value_for(&self, glyph_id: u16) -> (r: Option<u16>)
        requires
            self.wf(),
        ensures
            r == range_first_match(self@, glyph_id),
    {
        let len = self.len();
        proof {
            assert(self@.subrange(0, len as int) =~= self@);
        }
        let mut k: usize = 0;
        while k < len
            invariant
                self.wf(),
                len == self@.len(),
                k <= len,
                range_first_match(self@, glyph_id) == range_first_match(
                    self@.subrange(k as int, len as int),
                    glyph_id,
                ),
            decreases len - k,
        {
            let rec = self.get(k);
            proof {
                assert(self@.subrange(k as int, len as int)[0] == self@[k as int]);
                assert(self@.subrange(k as int, len as int).drop_first() =~= self@.subrange(
                    k as int + 1,
                    len as int,
                ));
            }
            if rec.contains_glyph(glyph_id) {
                return Some(rec.value);
            }
            k = k + 1;
        }
        proof {
            assert(self@.subrange(len as int, len as int).len() == 0);
        }
        None
    }
}

/// `s` encodes a structurally sound format-1 coverage table: format tag
/// 1 and a glyph array whose declared count fits in the buffer.
pub open spec fn coverage1_wf(s: Seq<u8>) -> bool {
    s.len() >= 4 && be16(s, 0) == 1 && 4 + 2 * (be16(s, 2) as int) <= s.len()
}

/// The glyph list of a format-1 coverage table.
pub open spec fn coverage1_glyphs(s: Seq<u8>) -> Seq<u16> {
    u16s_at(s, 4, be16(s, 2) as int)
}

/// `s` encodes a structurally sound format-2 coverage table: format tag
/// 2 and a range-record array whose declared count fits in the buffer.
pub open spec fn coverage2_wf(s: Seq<u8>) -> bool {
    s.len() >= 4 && be16(s, 0) == 2 && 4 + 6 * (be16(s, 2) as int) <= s.len()
}

/// The range records of a format-2 coverage table.
pub open spec fn coverage2_ranges(s: Seq<u8>) -> Seq<RangeRecord> {
    range_records_at(s, 4, be16(s, 2) as int)
}

/// What membership means over the raw bytes of a coverage table:
/// occurrence in the format-1 glyph list, or containment in one of the
/// format-2 ranges. A truncated table or an unrecognized format covers
/// no glyph.
pub open spec fn spec_coverage_contains(s: Seq<u8>, glyph_id: u16) -> bool {
    if coverage1_wf(s) {
        coverage1_glyphs(s).contains(glyph_id)
    } else if coverage2_wf(s) {
        glyph_in_ranges(coverage2_ranges(s), glyph_id)
    } else {
        false
    }
}

/// If `s` is a format-1 coverage table, its glyph list is sorted. This
/// is the format's own invariant; the binary-searched answer is exact
/// only under it.
pub open spec fn coverage1_sorted(s: Seq<u8>) -> bool {
    coverage1_wf(s) ==> sorted_u16s(coverage1_glyphs(s))
}

/// A coverage table: a set-membership test over glyph ids, in one of
/// two encodings selected by a leading format tag.
#[derive(Clone, Copy, Debug)]
pub struct CoverageTable<'a> {
    data: &'a [u8],
}

impl<'a> View for CoverageTable<'a> {
    type V = Seq<u8>;

    closed spec fn view(&self) -> Seq<u8> {
        self.data@
    }
}

impl<'a> CoverageTable<'a> {
    /// Wraps a raw byte range; nothing is validated until a query.
    pub fn new(data: &'a [u8]) -> (r: Self)
        ensures
            r@ == data@,
    {
        CoverageTable { data }
    }

    /// Whether `glyph_id` is covered. Never fails: a structurally
    /// malformed table yields `false`. A positive answer is truthful on
    /// any input; the answer is exact whenever the format-1 glyph list
    /// is sorted, as the format requires.
    pub fn contains(&self, glyph_id: u16) -> (r: bool)
        ensures
            r ==> spec_coverage_contains(self@, glyph_id),
            coverage1_sorted(self@) ==> r == spec_coverage_contains(self@, glyph_id),
    {
        let data = self.data;
        let n: usize = data.len();
        if n < 4 {
            return false;
        }
        let format = read_u16(data, 0);
        if format == 1 {
            let count = read_u16(data, 2);
            match U16Array::read(data, 4, count) {
                Some(glyphs) => glyphs.binary_search(glyph_id),
                None => false,
            }
        } else if format == 2 {
            let count = read_u16(data, 2);
            match RangeArray::read(data, 4, count) {
                Some(records) => records.contains_glyph(glyph_id),
                None => false,
            }
        } else {
            false
        }
    }
}

/// A value of a class-definition lookup. Glyphs assigned by no table
/// entry belong to class 0.
#[derive(Clone, Copy, PartialEq, Eq, Structural, Debug)]
pub struct Class(pub u16);

/// `s` encodes a structurally sound format-1 class-definition table:
/// format tag 1, a start glyph id, and a class array whose declared
/// count fits in the buffer.
pub open spec fn class_def1_wf(s: Seq<u8>) -> bool {
    s.len() >= 6 && be16(s, 0) == 1 && 6 + 2 * (be16(s, 4) as int) <= s.len()
}

/// The first glyph id covered by a format-1 class-definition table.
pub open spec fn class_def1_start(s: Seq<u8>) -> u16 {
    be16(s, 2)
}

/// The class array of a format-1 class-definition table, indexed by
/// `glyph_id - start`.
pub open spec fn class_def1_classes(s: Seq<u8>) -> Seq<u16> {
    u16s_at(s, 6, be16(s, 4) as int)
}

/// `s` encodes a structurally sound format-2 class-definition table:
/// format tag 2 and a range-record array whose declared count fits in
/// the buffer.
pub open spec fn class_def2_wf(s: Seq<u8>) -> bool {
    s.len() >= 4 && be16(s, 0) == 2 && 4 + 6 * (be16(s, 2) as int) <= s.len()
}

/// The range records of a format-2 class-definition table.
pub open spec fn class_def2_ranges(s: Seq<u8>) -> Seq<RangeRecord> {
    range_records_at(s, 4, be16(s, 2) as int)
}

/// The class a class-definition table assigns to `glyph_id`, or `None`
/// where no entry assigns one: format 1 indexes its array at
/// `glyph_id - start` (a glyph below `start` has no entry, guarding the
/// subtraction), format 2 takes the first matching range. A truncated
/// table or an unrecognized format assigns nothing.
pub open spec fn spec_class_lookup(s: Seq<u8>, glyph_id: u16) -> Option<u16> {
    if class_def1_wf(s) && class_def1_start(s) <= glyph_id && glyph_id - class_def1_start(s)
        < class_def1_classes(s).len() {
        Some(class_def1_classes(s)[glyph_id - class_def1_start(s)])
    } else if class_def2_wf(s) {
        range_first_match(class_def2_ranges(s), glyph_id)
    } else {
        None
    }
}

/// The class a class-definition table assigns to `glyph_id`, with the
/// default class 0 where it assigns none.
pub open spec fn spec_class(s: Seq<u8>, glyph_id: u16) -> u16 {
    match spec_class_lookup(s, glyph_id) {
        Some(c) => c,
        None => 0,
    }
}

/// A class-definition table: a total function from glyph ids to
/// classes, defaulting to class 0, in one of two encodings selected by
/// a leading format tag.
#[derive(Clone, Copy)]
pub struct ClassDefinitionTable<'a> {
    data: &'a [u8],
}

impl<'a> View for ClassDefinitionTable<'a> {
    type V = Seq<u8>;

    closed spec fn view(&self) -> Seq<u8> {
        self.data@
    }
}

impl<'a> ClassDefinitionTable<'a> {
    /// Wraps a raw byte range; nothing is validated until a query.
    pub fn new(data: &'a [u8]) -> (r: Self)
        ensures
            r@ == data@,
    {
        ClassDefinitionTable { data }
    }

    /// The class of `glyph_id`. Total: any glyph not assigned a class
    /// by the table, and any structural failure, yields `Class(0)`.
    pub fn get(&self, glyph_id: u16) -> (r: Class)
        ensures
            r.0 == spec_class(self@, glyph_id),
    {
        match self.get_impl(glyph_id) {
            Some(c) => c,
            None => Class(0),
        }
    }

    /// The class of `glyph_id`, or `None` where no table entry assigns
    /// one or the table is structurally malformed.
    pub fn get_impl(&self, glyph_id: u16) -> (r: Option<Class>)
        ensures
            r matches Some(c) ==> spec_class_lookup(self@, glyph_id) == Some(c.0),
            r is None ==> spec_class_lookup(self@, glyph_id) is None,
    {
        let data = self.data;
        let n: usize = data.len();
        if n < 2 {
            return None;
        }
        let format = read_u16(data, 0);
        if format == 1 {
            if n < 6 {
                return None;
            }
            let start_glyph_id = read_u16(data, 2);
            if glyph_id < start_glyph_id {
                return None;
            }
            let count = read_u16(data, 4);
            match U16Array::read(data, 6, count) {
                Some(classes) => {
                    let idx = (glyph_id - start_glyph_id) as usize;
                    if idx < classes.len() {
                        Some(Class(classes.get(idx)))
                    } else {
                        None
                    }
                },
                None => None,
            }
        } else if format == 2 {
            if n < 4 {
                return None;
            }
            let count = read_u16(data, 2);
            match RangeArray::read(data, 4, count) {
                Some(records) => match records.first_value_for(glyph_id) {
                    Some(v) => Some(Class(v)),
                    None => None,
                },
                None => None,
            }
        } else {
            None
        }
    }
}

/// Membership in a format-1 coverage table is exactly membership in
/// its (sorted) glyph list.
pub proof fn lemma_coverage_format1_exact(s: Seq<u8>, glyph_id: u16)
    requires
        coverage1_wf(s),
        sorted_u16s(coverage1_glyphs(s)),
    ensures
        spec_coverage_contains(s, glyph_id) <==> coverage1_glyphs(s).contains(glyph_id),
{
}

/// Membership in a format-2 coverage table is exactly containment in
/// one of its (non-overlapping) ranges, in whatever order they stand.
pub proof fn lemma_coverage_format2_exact(s: Seq<u8>, glyph_id: u16)
    ensures
        coverage2_wf(s) ==> (spec_coverage_contains(s, glyph_id) <==> exists|i: int|
            0 <= i < coverage2_ranges(s).len() && coverage2_ranges(s)[i].spec_contains_glyph(
                glyph_id,
            )),
{
}

/// A structurally failed coverage table — a declared count overrunning
/// the remaining buffer, or an unrecognized format — covers no glyph.
/// (That no out-of-range read happens either is part of what the
/// verifier establishes of `CoverageTable::contains` itself.)
pub proof fn lemma_coverage_malformed_is_empty(s: Seq<u8>, glyph_id: u16)
    requires
        !coverage1_wf(s),
        !coverage2_wf(s),
    ensures
        !spec_coverage_contains(s, glyph_id),
{
}

/// A format-1 class definition with start `S` and array `A` of length
/// `N` assigns `A[g - S]` to a glyph `g` with `S <= g < S + N`, and
/// class 0 — in particular without any underflowing subtraction — to
/// every glyph outside that window.
pub proof fn lemma_class_format1_exact(s: Seq<u8>, glyph_id: u16)
    requires
        class_def1_wf(s),
    ensures
        class_def1_start(s) <= glyph_id && glyph_id - class_def1_start(s) < class_def1_classes(
            s,
        ).len() ==> spec_class(s, glyph_id) == class_def1_classes(s)[glyph_id - class_def1_start(
            s,
        )],
        glyph_id < class_def1_start(s) ==> spec_class(s, glyph_id) == 0,
        glyph_id - class_def1_start(s) >= class_def1_classes(s).len() ==> spec_class(s, glyph_id)
            == 0,
{
}

/// A format-2 class definition assigns the value of the first range
/// containing the glyph, and class 0 when no range contains it.
pub proof fn lemma_class_format2_exact(s: Seq<u8>, glyph_id: u16)
    requires
        class_def2_wf(s),
    ensures
        spec_class_lookup(s, glyph_id) == range_first_match(class_def2_ranges(s), glyph_id),
        !glyph_in_ranges(class_def2_ranges(s), glyph_id) ==> spec_class(s, glyph_id) == 0,
{
    lemma_range_first_match_iff(class_def2_ranges(s), glyph_id);
}

/// A structurally failed class definition — a declared count
/// overrunning the remaining buffer, or an unrecognized format —
/// assigns every glyph the default class 0.
pub proof fn lemma_class_def_malformed_is_default(s: Seq<u8>, glyph_id: u16)
    requires
        !class_def1_wf(s),
        !class_def2_wf(s),
    ensures
        spec_class_lookup(s, glyph_id) is None,
        spec_class(s, glyph_id) == 0,
{
}

/// `s` encodes a structurally sound script list: a record count whose
/// records fit in the buffer.
pub open spec fn script_list_wf(s: Seq<u8>) -> bool {
    s.len() >= 2 && 2 + 6 * (be16(s, 0) as int) <= s.len()
}

/// The script records of a script list table.
pub open spec fn script_list_records(s: Seq<u8>) -> Seq<TagOffsetRecord> {
    tag_offsets_at(s, 2, be16(s, 0) as int)
}

/// A script list table: tags paired with offsets to script tables,
/// each offset relative to the start of this table.
#[derive(Clone, Copy)]
pub struct ScriptListTable<'a> {
    data: &'a [u8],
    script_records: TagOffsetArray<'a>,
}

impl<'a> ScriptListTable<'a> {
    /// The table's whole byte range, against which its offsets resolve.
    pub closed spec fn spec_data(&self) -> Seq<u8> {
        self.data@
    }

    /// The table's script records.
    pub closed spec fn records(&self) -> Seq<TagOffsetRecord> {
        self.script_records@
    }

    pub closed spec fn wf(&self) -> bool {
        self.script_records.wf()
    }

    /// Parses a script list; succeeds exactly on well-formed bytes.
    pub fn parse(data: &'a [u8]) -> (r: Option<ScriptListTable<'a>>)
        ensures
            r is Some <==> script_list_wf(data@),
            r matches Some(t) ==> t.wf() && t.spec_data() == data@ && t.records()
                == script_list_records(data@),
    {
        let n: usize = data.len();
        if n < 2 {
            return None;
        }
        let count = read_u16(data, 0);
        match TagOffsetArray::read(data, 2, count) {
            Some(script_records) => Some(ScriptListTable { data, script_records }),
            None => None,
        }
    }

    /// The table's whole byte range, against which each record's
    /// offset is to be resolved.
    pub fn data(&self) -> (r: &'a [u8])
        ensures
            r@ == self.spec_data(),
    {
        self.data
    }

    pub fn record_count(&self) -> (n: usize)
        requires
            self.wf(),
        ensures
            n == self.records().len(),
    {
        self.script_records.len()
    }

    pub fn record(&self, i: usize) -> (r: TagOffsetRecord)
        requires
            self.wf(),
            i < self.records().len(),
        ensures
            r == self.records()[i as int],
    {
        self.script_records.get(i)
    }
}

/// `s` encodes a structurally sound script table: an optional default
/// language-system offset and a record count whose records fit.
pub open spec fn script_wf(s: Seq<u8>) -> bool {
    s.len() >= 4 && 4 + 6 * (be16(s, 2) as int) <= s.len()
}

/// The default language-system offset of a script table; an encoded
/// zero means there is no default.
pub open spec fn script_default_lang_sys(s: Seq<u8>) -> Option<u16> {
    if be16(s, 0) == 0 {
        None
    } else {
        Some(be16(s, 0))
    }
}

/// The language-system records of a script table.
pub open spec fn script_lang_sys_records(s: Seq<u8>) -> Seq<TagOffsetRecord> {
    tag_offsets_at(s, 4, be16(s, 2) as int)
}

/// A script table: an optional default language system and tagged
/// offsets to the script's other language systems.
#[derive(Clone, Copy)]
pub struct Script<'a> {
    default_lang_sys_offset: Option<u16>,
    lang_sys_records: TagOffsetArray<'a>,
}

impl<'a> Script<'a> {
    /// The offset of the default language system, if one is present.
    pub closed spec fn spec_default_lang_sys_offset(&self) -> Option<u16> {
        self.default_lang_sys_offset
    }

    /// The table's language-system records.
    pub closed spec fn records(&self) -> Seq<TagOffsetRecord> {
        self.lang_sys_records@
    }

    pub closed spec fn wf(&self) -> bool {
        self.lang_sys_records.wf()
    }

    /// Parses a script table; succeeds exactly on well-formed bytes.
    pub fn parse(data: &'a [u8]) -> (r: Option<Script<'a>>)
        ensures
            r is Some <==> script_wf(data@),
            r matches Some(t) ==> t.wf() && t.spec_default_lang_sys_offset()
                == script_default_lang_sys(data@) && t.records() == script_lang_sys_records(data@),
    {
        let n: usize = data.len();
        if n < 4 {
            return None;
        }
        let raw_offset = read_u16(data, 0);
        let default_lang_sys_offset = if raw_offset == 0 {
            Option::None
        } else {
            Option::Some(raw_offset)
        };
        let count = read_u16(data, 2);
        match TagOffsetArray::read(data, 4, count) {
            Some(lang_sys_records) => Some(Script { default_lang_sys_offset, lang_sys_records }),
            None => None,
        }
    }

    pub fn default_lang_sys_offset(&self) -> (r: Option<u16>)
        ensures
            r == self.spec_default_lang_sys_offset(),
    {
        self.default_lang_sys_offset
    }

    pub fn record_count(&self) -> (n: usize)
        requires
            self.wf(),
        ensures
            n == self.records().len(),
    {
        self.lang_sys_records.len()
    }

    pub fn record(&self, i: usize) -> (r: TagOffsetRecord)
        requires
            self.wf(),
            i < self.records().len(),
        ensures
            r == self.records()[i as int],
    {
        self.lang_sys_records.get(i)
    }
}

/// `s` encodes a structurally sound language-system table: the
/// reserved lookup-order field decodes as absent, and the feature
/// index array fits in the buffer. A non-zero reserved field marks a
/// structure this parser must refuse rather than misread.
pub open spec fn lang_sys_wf(s: Seq<u8>) -> bool {
    s.len() >= 6 && be16(s, 0) == 0 && 6 + 2 * (be16(s, 4) as int) <= s.len()
}

/// The required feature index of a language-system table; the encoded
/// sentinel 0xFFFF means there is none.
pub open spec fn lang_sys_required_feature(s: Seq<u8>) -> Option<u16> {
    if be16(s, 2) == 0xFFFF {
        None
    } else {
        Some(be16(s, 2))
    }
}

/// The feature indices of a language-system table, in encoded order.
pub open spec fn lang_sys_feature_indices(s: Seq<u8>) -> Seq<u16> {
    u16s_at(s, 6, be16(s, 4) as int)
}

/// A language-system table: one language system's selection of
/// features, as indices into the lookup-carrying feature list.
#[derive(Clone, Copy)]
pub struct LangSysTable<'a> {
    required_feature_index: Option<u16>,
    feature_indices: U16Array<'a>,
}

impl<'a> LangSysTable<'a> {
    /// The index of the required feature, if one is present.
    pub closed spec fn spec_required_feature_index(&self) -> Option<u16> {
        self.required_feature_index
    }

    /// The table's feature indices, in encoded order.
    pub closed spec fn indices(&self) -> Seq<u16> {
        self.feature_indices@
    }

    pub closed spec fn wf(&self) -> bool {
        self.feature_indices.wf()
    }

    /// Parses a language-system table; succeeds exactly on well-formed
    /// bytes, and in particular fails whenever the reserved
    /// lookup-order field holds any value.
    pub fn parse(data: &'a [u8]) -> (r: Option<LangSysTable<'a>>)
        ensures
            r is Some <==> lang_sys_wf(data@),
            r matches Some(t) ==> t.wf() && t.spec_required_feature_index()
                == lang_sys_required_feature(data@) && t.indices() == lang_sys_feature_indices(
                data@,
            ),
    {
        let n: usize = data.len();
        if n < 2 {
            return None;
        }
        let lookup_order_offset = read_u16(data, 0);
        if lookup_order_offset != 0 {
            return None;
        }
        if n < 6 {
            return None;
        }
        let raw_index = read_u16(data, 2);
        let required_feature_index = if raw_index == 0xFFFF {
            Option::None
        } else {
            Option::Some(raw_index)
        };
        let count = read_u16(data, 4);
        match U16Array::read(data, 6, count) {
            Some(feature_indices) => Some(LangSysTable { required_feature_index, feature_indices }),
            None => None,
        }
    }

    pub fn required_feature_index(&self) -> (r: Option<u16>)
        ensures
            r == self.spec_required_feature_index(),
    {
        self.required_feature_index
    }

    pub fn index_count(&self) -> (n: usize)
        requires
            self.wf(),
        ensures
            n == self.indices().len(),
    {
        self.feature_indices.len()
    }

    pub fn index(&self, i: usize) -> (r: u16)
        requires
            self.wf(),
            i < self.indices().len(),
        ensures
            r == self.indices()[i as int],
    {
        self.feature_indices.get(i)
    }
}

/// `s` encodes a structurally sound feature list: a record count whose
/// records fit in the buffer.
pub open spec fn feature_list_wf(s: Seq<u8>) -> bool {
    s.len() >= 2 && 2 + 6 * (be16(s, 0) as int) <= s.len()
}

/// The feature records of a feature list table.
pub open spec fn feature_list_records(s: Seq<u8>) -> Seq<TagOffsetRecord> {
    tag_offsets_at(s, 2, be16(s, 0) as int)
}

/// A feature list table: tags paired with offsets to feature tables,
/// each offset relative to the start of this table.
#[derive(Clone, Copy)]
pub struct FeatureListTable<'a> {
    feature_records: TagOffsetArray<'a>,
}

impl<'a> FeatureListTable<'a> {
    /// The table's feature records.
    pub closed spec fn records(&self) -> Seq<TagOffsetRecord> {
        self.feature_records@
    }

    pub closed spec fn wf(&self) -> bool {
        self.feature_records.wf()
    }

    /// Parses a feature list; succeeds exactly on well-formed bytes.
    pub fn parse(data: &'a [u8]) -> (r: Option<FeatureListTable<'a>>)
        ensures
            r is Some <==> feature_list_wf(data@),
            r matches Some(t) ==> t.wf() && t.records() == feature_list_records(data@),
    {
        let n: usize = data.len();
        if n < 2 {
            return None;
        }
        let count = read_u16(data, 0);
        match TagOffsetArray::read(data, 2, count) {
            Some(feature_records) => Some(FeatureListTable { feature_records }),
            None => None,
        }
    }

    pub fn record_count(&self) -> (n: usize)
        requires
            self.wf(),
        ensures
            n == self.records().len(),
    {
        self.feature_records.len()
    }

    pub fn record(&self, i: usize) -> (r: TagOffsetRecord)
        requires
            self.wf(),
            i < self.records().len(),
        ensures
            r == self.records()[i as int],
    {
        self.feature_records.get(i)
    }
}

/// `s` encodes a structurally sound feature table: an optional
/// parameters offset and a lookup index array that fits in the buffer.
pub open spec fn feature_wf(s: Seq<u8>) -> bool {
    s.len() >= 4 && 4 + 2 * (be16(s, 2) as int) <= s.len()
}

/// The feature-parameters offset of a feature table; an encoded zero
/// means there are no parameters.
pub open spec fn feature_params(s: Seq<u8>) -> Option<u16> {
    if be16(s, 0) == 0 {
        None
    } else {
        Some(be16(s, 0))
    }
}

/// The lookup list indices of a feature table, in encoded order.
/// Order and duplicates are both meaningful to the caller.
pub open spec fn feature_lookup_indices(s: Seq<u8>) -> Seq<u16> {
    u16s_at(s, 4, be16(s, 2) as int)
}

/// A feature table: an optional, opaque parameters offset and the
/// ordered lookup indices the feature selects.
#[derive(Clone, Copy)]
pub struct FeatureTable<'a> {
    feature_params_offset: Option<u16>,
    lookup_list_indices: U16Array<'a>,
}

impl<'a> FeatureTable<'a> {
    /// The offset of the feature's parameters, if any are present.
    pub closed spec fn spec_feature_params_offset(&self) -> Option<u16> {
        self.feature_params_offset
    }

    /// The feature's lookup indices, in encoded order.
    pub closed spec fn indices(&self) -> Seq<u16> {
        self.lookup_list_indices@
    }

    pub closed spec fn wf(&self) -> bool {
        self.lookup_list_indices.wf()
    }

    /// Parses a feature table; succeeds exactly on well-formed bytes.
    pub fn parse(data: &'a [u8]) -> (r: Option<FeatureTable<'a>>)
        ensures
            r is Some <==> feature_wf(data@),
            r matches Some(t) ==> t.wf() && t.spec_feature_params_offset() == feature_params(data@)
                && t.indices() == feature_lookup_indices(data@),
    {
        let n: usize = data.len();
        if n < 4 {
            return None;
        }
        let raw_offset = read_u16(data, 0);
        let feature_params_offset = if raw_offset == 0 {
            Option::None
        } else {
            Option::Some(raw_offset)
        };
        let count = read_u16(data, 2);
        match U16Array::read(data, 4, count) {
            Some(lookup_list_indices) => Some(
                FeatureTable { feature_params_offset, lookup_list_indices },
            ),
            None => None,
        }
    }

    pub fn feature_params_offset(&self) -> (r: Option<u16>)
        ensures
            r == self.spec_feature_params_offset(),
    {
        self.feature_params_offset
    }

    pub fn index_count(&self) -> (n: usize)
        requires
            self.wf(),
        ensures
            n == self.indices().len(),
    {
        self.lookup_list_indices.len()
    }

    pub fn index(&self, i: usize) -> (r: u16)
        requires
            self.wf(),
            i < self.indices().len(),
        ensures
            r == self.indices()[i as int],
    {
        self.lookup_list_indices.get(i)
    }
}

/// `s` encodes a structurally sound lookup list: an offset count whose
/// offsets fit in the buffer.
pub open spec fn lookup_list_wf(s: Seq<u8>) -> bool {
    s.len() >= 2 && 2 + 2 * (be16(s, 0) as int) <= s.len()
}

/// The lookup offsets of a lookup list table; an offset's position in
/// this sequence is the lookup index features refer to.
pub open spec fn lookup_list_offsets(s: Seq<u8>) -> Seq<u16> {
    u16s_at(s, 2, be16(s, 0) as int)
}

/// A lookup list table: the ordered offsets of the lookup tables,
/// addressed by the lookup indices that features name.
#[derive(Clone, Copy)]
pub struct LookupListTable<'a> {
    lookup_offsets: U16Array<'a>,
}

impl<'a> LookupListTable<'a> {
    /// The offsets of the lookup tables, in index order.
    pub closed spec fn offsets(&self) -> Seq<u16> {
        self.lookup_offsets@
    }

    pub closed spec fn wf(&self) -> bool {
        self.lookup_offsets.wf()
    }

    /// Parses a lookup list; succeeds exactly on well-formed bytes.
    pub fn parse(data: &'a [u8]) -> (r: Option<LookupListTable<'a>>)
        ensures
            r is Some <==> lookup_list_wf(data@),
            r matches Some(t) ==> t.wf() && t.offsets() == lookup_list_offsets(data@),
    {
        let n: usize = data.len();
        if n < 2 {
            return None;
        }
        let count = read_u16(data, 0);
        match U16Array::read(data, 2, count) {
            Some(lookup_offsets) => Some(LookupListTable { lookup_offsets }),
            None => None,
        }
    }

    pub fn offset_count(&self) -> (n: usize)
        requires
            self.wf(),
        ensures
            n == self.offsets().len(),
    {
        self.lookup_offsets.len()
    }

    pub fn offset(&self, i: usize) -> (r: u16)
        requires
            self.wf(),
            i < self.offsets().len(),
        ensures
            r == self.offsets()[i as int],
    {
        self.lookup_offsets.get(i)
    }
}

/// `s` encodes a structurally sound lookup table: type, flag, a
/// subtable offset array that fits, and the mark-filtering-set field
/// after the array.
pub open spec fn lookup_wf(s: Seq<u8>) -> bool {
    s.len() >= 6 && 8 + 2 * (be16(s, 4) as int) <= s.len()
}

/// The subtable offsets of a lookup table, in encoded order.
pub open spec fn lookup_subtable_offsets(s: Seq<u8>) -> Seq<u16> {
    u16s_at(s, 6, be16(s, 4) as int)
}

/// The mark-filtering-set field of a lookup table, encoded after the
/// subtable offset array.
pub open spec fn lookup_mark_filtering_set(s: Seq<u8>) -> u16 {
    be16(s, 6 + 2 * (be16(s, 4) as int))
}

/// A lookup table: one lookup's type, flag and subtable offsets. The
/// subtable payloads are opaque at this layer.
#[derive(Clone, Copy)]
pub struct LookupTable<'a> {
    lookup_type: u16,
    lookup_flag: u16,
    subtable_offsets: U16Array<'a>,
    mark_filtering_set: u16,
}

impl<'a> LookupTable<'a> {
    pub closed spec fn spec_lookup_type(&self) -> u16 {
        self.lookup_type
    }

    pub closed spec fn spec_lookup_flag(&self) -> u16 {
        self.lookup_flag
    }

    /// The lookup's subtable offsets, in encoded order.
    pub closed spec fn offsets(&self) -> Seq<u16> {
        self.subtable_offsets@
    }

    pub closed spec fn spec_mark_filtering_set(&self) -> u16 {
        self.mark_filtering_set
    }

    pub closed spec fn wf(&self) -> bool {
        self.subtable_offsets.wf()
    }

    /// Parses a lookup table; succeeds exactly on well-formed bytes.
    pub fn parse(data: &'a [u8]) -> (r: Option<LookupTable<'a>>)
        ensures
            r is Some <==> lookup_wf(data@),
            r matches Some(t) ==> t.wf() && t.spec_lookup_type() == be16(data@, 0)
                && t.spec_lookup_flag() == be16(data@, 2) && t.offsets() == lookup_subtable_offsets(
                data@,
            ) && t.spec_mark_filtering_set() == lookup_mark_filtering_set(data@),
    {
        let n: usize = data.len();
        if n < 6 {
            return None;
        }
        let lookup_type = read_u16(data, 0);
        let lookup_flag = read_u16(data, 2);
        let count = read_u16(data, 4);
        match U16Array::read(data, 6, count) {
            Some(subtable_offsets) => {
                let mark_pos = 6 + 2 * (count as usize);
                if mark_pos + 2 <= n {
                    let mark_filtering_set = read_u16(data, mark_pos);
                    Some(
                        LookupTable {
                            lookup_type,
                            lookup_flag,
                            subtable_offsets,
                            mark_filtering_set,
                        },
                    )
                } else {
                    None
                }
            },
            None => None,
        }
    }

    pub fn lookup_type(&self) -> (r: u16)
        ensures
            r == self.spec_lookup_type(),
    {
        self.lookup_type
    }

    pub fn lookup_flag(&self) -> (r: u16)
        ensures
            r == self.spec_lookup_flag(),
    {
        self.lookup_flag
    }

    pub fn offset_count(&self) -> (n: usize)
        requires
            self.wf(),
        ensures
            n == self.offsets().len(),
    {
        self.subtable_offsets.len()
    }

    pub fn offset(&self, i: usize) -> (r: u16)
        requires
            self.wf(),
            i < self.offsets().len(),
        ensures
            r == self.offsets()[i as int],
    {
        self.subtable_offsets.get(i)
    }

    pub fn mark_filtering_set(&self) -> (r: u16)
        ensures
            r == self.spec_mark_filtering_set(),
    {
        self.mark_filtering_set
    }
}

/// A language-system table whose reserved lookup-order field holds any
/// value is not well formed, however valid its remaining fields: it
/// must fail to parse entirely.
pub proof fn lemma_lang_sys_reserved_rejected(s: Seq<u8>)
    requires
        be16(s, 0) != 0,
    ensures
        !lang_sys_wf(s),
{
}

/// The only version of the feature-variations table that is accepted.
pub const FEATURE_VARIATIONS_VERSION: u32 = 0x00010000;

/// `s` encodes a structurally sound feature-variations table: exactly
/// the supported version, and a record array that fits in the buffer.
/// Any other version is a hard compatibility gate, however well-formed
/// the remaining bytes are.
pub open spec fn feature_variations_wf(s: Seq<u8>) -> bool {
    s.len() >= 8 && be32(s, 0) == FEATURE_VARIATIONS_VERSION && 8 + 8 * (be32(s, 4) as int)
        <= s.len()
}

/// The variation records of a feature-variations table.
pub open spec fn feature_variations_records(s: Seq<u8>) -> Seq<VariationRecord> {
    variation_records_at(s, 8, be32(s, 4) as int)
}

/// A feature-variations table: a version-gated list of records pairing
/// condition-set offsets with feature-substitution offsets, both left
/// for an external collaborator to resolve.
#[derive(Clone, Copy)]
pub struct FeatureVariations<'a> {
    feature_variation_records: VariationRecordArray<'a>,
}

impl<'a> FeatureVariations<'a> {
    /// The table's variation records.
    pub closed spec fn records(&self) -> Seq<VariationRecord> {
        self.feature_variation_records@
    }

    pub closed spec fn wf(&self) -> bool {
        self.feature_variation_records.wf()
    }

    /// Parses a feature-variations table; succeeds exactly on
    /// well-formed bytes of the supported version.
    pub fn parse(data: &'a [u8]) -> (r: Option<FeatureVariations<'a>>)
        ensures
            r is Some <==> feature_variations_wf(data@),
            r matches Some(t) ==> t.wf() && t.records() == feature_variations_records(data@),
    {
        let n: usize = data.len();
        if n < 8 {
            return None;
        }
        let version = read_u32(data, 0);
        if version != FEATURE_VARIATIONS_VERSION {
            return None;
        }
        let count = read_u32(data, 4);
        match VariationRecordArray::read(data, 8, count) {
            Some(feature_variation_records) => Some(
                FeatureVariations { feature_variation_records },
            ),
            None => None,
        }
    }

    pub fn record_count(&self) -> (n: usize)
        requires
            self.wf(),
        ensures
            n == self.records().len(),
    {
        self.feature_variation_records.len()
    }

    pub fn record(&self, i: usize) -> (r: VariationRecord)
        requires
            self.wf(),
            i < self.records().len(),
        ensures
            r == self.records()[i as int],
    {
        self.feature_variation_records.get(i)
    }
}

/// A feature-variations table of any version other than the one
/// supported is not well formed, however well-formed its remaining
/// bytes: a hard compatibility gate, with no degraded reading of
/// unknown versions.
pub proof fn lemma_feature_variations_version_gate(s: Seq<u8>)
    requires
        be32(s, 0) != FEATURE_VARIATIONS_VERSION,
    ensures
        !feature_variations_wf(s),
{
}

} // verus!
