//! The byte-cursor primitives: bounds-checked big-endian reads of
//! fixed-width values, and lazily indexed arrays of fixed-size records.
//!
//! All multi-byte values in the format are big-endian. A read is only
//! offered where its bounds have been established, so no function here
//! can panic or read out of range.

use vstd::prelude::*;
use vstd::slice::*;

verus! {

/// The big-endian 16-bit value at byte position `i` of `s`.
pub open spec fn be16(s: Seq<u8>, i: int) -> u16
    recommends
        0 <= i,
        i + 2 <= s.len(),
{
    (256 * (s[i] as int) + (s[i + 1] as int)) as u16
}

/// The big-endian 32-bit value at byte position `i` of `s`.
pub open spec fn be32(s: Seq<u8>, i: int) -> u32
    recommends
        0 <= i,
        i + 4 <= s.len(),
{
    (0x1000000 * (s[i] as int) + 0x10000 * (s[i + 1] as int) + 0x100 * (s[i + 2] as int) + (s[i
        + 3] as int)) as u32
}

/// Reads the big-endian 16-bit value at `pos`.
pub fn read_u16(data: &[u8], pos: usize) -> (r: u16)
    requires
        pos + 2 <= data@.len(),
    ensures
        r == be16(data@, pos as int),
{
    let _n: usize = data.len();
    let b0 = *slice_index_get(data, pos);
    let b1 = *slice_index_get(data, pos + 1);
    256 * (b0 as u16) + (b1 as u16)
}

/// Reads the big-endian 32-bit value at `pos`.
pub fn read_u32(data: &[u8], pos: usize) -> (r: u32)
    requires
        pos + 4 <= data@.len(),
    ensures
        r == be32(data@, pos as int),
{
    let _n: usize = data.len();
    let b0 = *slice_index_get(data, pos);
    let b1 = *slice_index_get(data, pos + 1);
    let b2 = *slice_index_get(data, pos + 2);
    let b3 = *slice_index_get(data, pos + 3);
    0x1000000 * (b0 as u32) + 0x10000 * (b1 as u32) + 0x100 * (b2 as u32) + (b3 as u32)
}

/// The bytes of `s` from position `pos` to the end: how an offset
/// field turns into the sub-table's own byte range.
pub open spec fn tail_at(s: Seq<u8>, pos: int) -> Seq<u8>
    recommends
        0 <= pos <= s.len(),
{
    s.subrange(pos, s.len() as int)
}

/// The sequence of `n` big-endian 16-bit values starting at byte `pos` of `s`.
pub open spec fn u16s_at(s: Seq<u8>, pos: int, n: int) -> Seq<u16> {
    Seq::new(n as nat, |i: int| be16(s, pos + 2 * i))
}

/// `s` is sorted in ascending order.
pub open spec fn sorted_u16s(s: Seq<u16>) -> bool {
    forall|i: int, j: int| 0 <= i <= j < s.len() ==> s[i] <= s[j]
}

/// A lazily indexed array of big-endian 16-bit values over a borrowed slice.
#[derive(Clone, Copy)]
pub struct U16Array<'a> {
    data: &'a [u8],
}

impl<'a> View for U16Array<'a> {
    type V = Seq<u16>;

    closed spec fn view(&self) -> Seq<u16> {
        Seq::new((self.data@.len() / 2) as nat, |i: int| be16(self.data@, 2 * i))
    }
}

impl<'a> U16Array<'a> {
    /// The backing slice holds exactly the array's elements.
    pub closed spec fn wf(&self) -> bool {
        self.data@.len() % 2 == 0
    }

    /// Takes the `count`-element array starting at byte `pos`, failing
    /// when the declared count overruns the slice.
    pub fn read(data: &'a [u8], pos: usize, count: u16) -> (r: Option<U16Array<'a>>)
        ensures
            r is Some <==> pos + 2 * count <= data@.len(),
            r matches Some(a) ==> a.wf() && a@ == u16s_at(data@, pos as int, count as int),
    {
        let n: usize = data.len();
        if pos <= n && 2 * (count as usize) <= n - pos {
            let end = pos + 2 * (count as usize);
            let a = U16Array { data: slice_subrange(data, pos, end) };
            proof {
                assert(a@ =~= u16s_at(data@, pos as int, count as int));
            }
            Some(a)
        } else {
            None
        }
    }

    pub fn len(&self) -> (n: usize)
        requires
            self.wf(),
        ensures
            n == self@.len(),
    {
        self.data.len() / 2
    }

    pub fn get(&self, i: usize) -> (r: u16)
        requires
            self.wf(),
            i < self@.len(),
        ensures
            r == self@[i as int],
    {
        let _n: usize = self.data.len();
        read_u16(self.data, 2 * i)
    }

    /// Whether `target` occurs in the array, by binary search. The
    /// answer is exact when the array is sorted; a positive answer is
    /// truthful on any array.
    pub fn binary_search(&self, target: u16) -> (r: bool)
        requires
            self.wf(),
        ensures
            r ==> exists|i: int| 0 <= i < self@.len() && self@[i] == target,
            sorted_u16s(self@) ==> (r <==> exists|i: int|
                0 <= i < self@.len() && self@[i] == target),
    {
        let mut lo: usize = 0;
        let mut hi: usize = self.len();
        while lo < hi
            invariant
                self.wf(),
                lo <= hi <= self@.len(),
                sorted_u16s(self@) ==> forall|i: int|
                    0 <= i < self@.len() && self@[i] == target ==> lo <= i < hi,
            decreases hi - lo,
        {
            let mid = lo + (hi - lo) / 2;
            let v = self.get(mid);
            if v == target {
                return true;
            } else if v < target {
                lo = mid + 1;
            } else {
                hi = mid;
            }
        }
        false
    }
}

/// A 4-byte tag paired with a 16-bit offset: the shape shared by script,
/// language-system and feature records.
#[derive(Clone, Copy, PartialEq, Eq, Debug)]
pub struct TagOffsetRecord {
    /// The 4-byte identifier, as a big-endian 32-bit value.
    pub tag: u32,
    /// Byte offset to the record's table, relative to the start of the
    /// list table holding the record.
    pub offset: u16,
}

/// The tag-offset record encoded at byte `pos` of `s`.
pub open spec fn tag_offset_at(s: Seq<u8>, pos: int) -> TagOffsetRecord {
    TagOffsetRecord { tag: be32(s, pos), offset: be16(s, pos + 4) }
}

/// The sequence of `n` tag-offset records starting at byte `pos` of `s`.
pub open spec fn tag_offsets_at(s: Seq<u8>, pos: int, n: int) -> Seq<TagOffsetRecord> {
    Seq::new(n as nat, |i: int| tag_offset_at(s, pos + 6 * i))
}

/// A lazily indexed array of 6-byte tag-offset records.
#[derive(Clone, Copy)]
pub struct TagOffsetArray<'a> {
    data: &'a [u8],
}

impl<'a> View for TagOffsetArray<'a> {
    type V = Seq<TagOffsetRecord>;

    closed spec fn view(&self) -> Seq<TagOffsetRecord> {
        Seq::new((self.data@.len() / 6) as nat, |i: int| tag_offset_at(self.data@, 6 * i))
    }
}

impl<'a> TagOffsetArray<'a> {
    /// The backing slice holds exactly the array's records.
    pub closed spec fn wf(&self) -> bool {
        self.data@.len() % 6 == 0
    }

    /// Takes the `count`-record array starting at byte `pos`, failing
    /// when the declared count overruns the slice.
    pub fn read(data: &'a [u8], pos: usize, count: u16) -> (r: Option<TagOffsetArray<'a>>)
        ensures
            r is Some <==> pos + 6 * count <= data@.len(),
            r matches Some(a) ==> a.wf() && a@ == tag_offsets_at(data@, pos as int, count as int),
    {
        let n: usize = data.len();
        if pos <= n && 6 * (count as usize) <= n - pos {
            let end = pos + 6 * (count as usize);
            let a = TagOffsetArray { data: slice_subrange(data, pos, end) };
            proof {
                assert(a@ =~= tag_offsets_at(data@, pos as int, count as int));
            }
            Some(a)
        } else {
            None
        }
    }

    pub fn len(&self) -> (n: usize)
        requires
            self.wf(),
        ensures
            n == self@.len(),
    {
        self.data.len() / 6
    }

    pub fn get(&self, i: usize) -> (r: TagOffsetRecord)
        requires
            self.wf(),
            i < self@.len(),
        ensures
            r == self@[i as int],
    {
        let _n: usize = self.data.len();
        let tag = read_u32(self.data, 6 * i);
        let offset = read_u16(self.data, 6 * i + 4);
        TagOffsetRecord { tag, offset }
    }
}

/// One feature-variation record: two 32-bit offsets, left opaque for an
/// external collaborator to resolve.
#[derive(Clone, Copy, PartialEq, Eq, Debug)]
pub struct VariationRecord {
    /// Byte offset to a condition-set table.
    pub condition_set_offset: u32,
    /// Byte offset to a feature-table-substitution table.
    pub feature_table_substitution_offset: u32,
}

/// The variation record encoded at byte `pos` of `s`.
pub open spec fn variation_record_at(s: Seq<u8>, pos: int) -> VariationRecord {
    VariationRecord {
        condition_set_offset: be32(s, pos),
        feature_table_substitution_offset: be32(s, pos + 4),
    }
}

/// The sequence of `n` variation records starting at byte `pos` of `s`.
pub open spec fn variation_records_at(s: Seq<u8>, pos: int, n: int) -> Seq<VariationRecord> {
    Seq::new(n as nat, |i: int| variation_record_at(s, pos + 8 * i))
}

/// A lazily indexed array of 8-byte feature-variation records, counted
/// by a 32-bit value.
#[derive(Clone, Copy)]
pub struct VariationRecordArray<'a> {
    data: &'a [u8],
}

impl<'a> View for VariationRecordArray<'a> {
    type V = Seq<VariationRecord>;

    closed spec fn view(&self) -> Seq<VariationRecord> {
        Seq::new((self.data@.len() / 8) as nat, |i: int| variation_record_at(self.data@, 8 * i))
    }
}

impl<'a> VariationRecordArray<'a> {
    /// The backing slice holds exactly the array's records.
    pub closed spec fn wf(&self) -> bool {
        self.data@.len() % 8 == 0
    }

    /// Takes the `count`-record array starting at byte `pos`, failing
    /// when the declared count overruns the slice.
    pub fn read(data: &'a [u8], pos: usize, count: u32) -> (r: Option<VariationRecordArray<'a>>)
        ensures
            r is Some <==> pos + 8 * count <= data@.len(),
            r matches Some(a) ==> a.wf() && a@ == variation_records_at(
                data@,
                pos as int,
                count as int,
            ),
    {
        let n: usize = data.len();
        if pos <= n && 8 * (count as u64) <= (n - pos) as u64 {
            let end = pos + 8 * (count as usize);
            let a = VariationRecordArray { data: slice_subrange(data, pos, end) };
            proof {
                assert(a@ =~= variation_records_at(data@, pos as int, count as int));
            }
            Some(a)
        } else {
            None
        }
    }

    pub fn len(&self) -> (n: usize)
        requires
            self.wf(),
        ensures
            n == self@.len(),
    {
        self.data.len() / 8
    }

    pub fn get(&self, i: usize) -> (r: VariationRecord)
        requires
            self.wf(),
            i < self@.len(),
        ensures
            r == self@[i as int],
    {
        let _n: usize = self.data.len();
        let condition_set_offset = read_u32(self.data, 8 * i);
        let feature_table_substitution_offset = read_u32(self.data, 8 * i + 4);
        VariationRecord { condition_set_offset, feature_table_substitution_offset }
    }
}

} // verus!
