//! Extent records and ordered extent lists.
use vstd::prelude::*;

use crate::definitions::{XfsDablk, XfsFileoff, XfsFilblks, XfsFsblock, ENXIO, SEEK_HOLE};
use crate::utils::{be128, decode_u128, ParseError};

verus! {

/// Extent states.
#[derive(Debug, Clone, Copy, PartialEq, Eq, Structural)]
pub enum XfsExntst {
    Norm,
    Unwritten,
    Invalid,
}

impl XfsExntst {
    /// The state numbered `n`, if any.
    pub fn from_u8(n: u8) -> (r: Option<XfsExntst>)
        ensures
            n == 0 ==> r == Some(XfsExntst::Norm),
            n == 1 ==> r == Some(XfsExntst::Unwritten),
            n == 2 ==> r == Some(XfsExntst::Invalid),
            n > 2 ==> r is None,
    {
        if n == 0 {
            Some(XfsExntst::Norm)
        } else if n == 1 {
            Some(XfsExntst::Unwritten)
        } else if n == 2 {
            Some(XfsExntst::Invalid)
        } else {
            None
        }
    }
}

/// An extent record: a run of file blocks mapped to a run of file system blocks.
#[derive(Debug, Clone, Copy, PartialEq, Eq, Structural)]
pub struct BmbtRec {
    pub br_startoff: XfsFileoff,
    pub br_startblock: XfsFsblock,
    pub br_blockcount: XfsFilblks,
    /// If set, indicates that the extent has been preallocated but has not yet been written
    /// (unwritten extent)
    pub br_flag: bool,
}

/// The record packed in the 128-bit big-endian value `br`: 1 flag bit, 54 bits of file offset,
/// 52 bits of start block and 21 bits of block count, from the most significant bit down.
pub open spec fn spec_bmbt_rec(br: u128) -> BmbtRec {
    BmbtRec {
        br_startoff: ((br >> 73u128) & 0x3f_ffff_ffff_ffffu128) as u64,
        br_startblock: ((br >> 21u128) & 0xf_ffff_ffff_ffffu128) as u64,
        br_blockcount: (br & 0x1f_ffffu128) as u64,
        br_flag: (br >> 127u128) != 0,
    }
}

/// The ranges of the fields of a decoded record.
pub open spec fn rec_wf(r: BmbtRec) -> bool {
    &&& r.br_startoff < 0x40_0000_0000_0000
    &&& r.br_startblock < 0x10_0000_0000_0000
    &&& r.br_blockcount < 0x20_0000
}

/// The first file block past the extent.
pub open spec fn rec_end(r: BmbtRec) -> int {
    r.br_startoff + r.br_blockcount
}

impl BmbtRec {
    /// Unpack a record from its 128-bit on-disk value.
    pub fn from_u128(br: u128) -> (r: BmbtRec)
        ensures
            r == spec_bmbt_rec(br),
            rec_wf(r),
    {
        let br_blockcount: u64 = (br & 0x1f_ffffu128) as u64;
        let br_startblock: u64 = ((br >> 21u128) & 0xf_ffff_ffff_ffffu128) as u64;
        let br_startoff: u64 = ((br >> 73u128) & 0x3f_ffff_ffff_ffffu128) as u64;
        let br_flag: bool = (br >> 127u128) != 0;
        assert((br & 0x1f_ffffu128) < 0x20_0000) by (bit_vector);
        assert(((br >> 21u128) & 0xf_ffff_ffff_ffffu128) < 0x10_0000_0000_0000) by (bit_vector);
        assert(((br >> 73u128) & 0x3f_ffff_ffff_ffffu128) < 0x40_0000_0000_0000) by (bit_vector);
        BmbtRec { br_startoff, br_startblock, br_blockcount, br_flag }
    }

    /// Decode the record stored at offset `ofs` of `raw`.
    pub fn decode(raw: &[u8], ofs: usize) -> (r: Result<BmbtRec, ParseError>)
        ensures
            r is Ok <==> ofs + 16 <= raw@.len(),
            r matches Ok(rec) ==> rec == spec_bmbt_rec(be128(raw@, ofs as int) as u128) && rec_wf(
                rec,
            ),
    {
        match decode_u128(raw, ofs) {
            Ok(br) => Ok(BmbtRec::from_u128(br)),
            Err(e) => Err(e),
        }
    }
}

/// Records ordered by file offset.
pub open spec fn extents_sorted(s: Seq<BmbtRec>) -> bool {
    forall|i: int, j: int| 0 <= i <= j < s.len() ==> s[i].br_startoff <= s[j].br_startoff
}

/// Records each with its fields in their decoded ranges.
pub open spec fn extents_in_range(s: Seq<BmbtRec>) -> bool {
    forall|i: int| 0 <= i < s.len() ==> rec_wf(#[trigger] s[i])
}

/// Sorted records, each with its fields in their decoded ranges.
pub open spec fn extents_wf(s: Seq<BmbtRec>) -> bool {
    &&& extents_sorted(s)
    &&& extents_in_range(s)
}

/// The records of `s` that have been written to.
pub open spec fn written(s: Seq<BmbtRec>) -> Seq<BmbtRec> {
    s.filter(|r: BmbtRec| !r.br_flag)
}

/// The number of leading records of `s` that start at or before `dblock`.  For a sorted
/// sequence this is the partition point of `|e| e.br_startoff <= dblock`.
pub open spec fn pp(s: Seq<BmbtRec>, dblock: u64) -> nat
    decreases s.len(),
{
    if s.len() == 0 || s[0].br_startoff > dblock {
        0
    } else {
        1 + pp(s.drop_first(), dblock)
    }
}

/// `p` partitions `s` into the records that start at or before `dblock` and those after.
pub open spec fn is_partition(s: Seq<BmbtRec>, dblock: u64, p: int) -> bool {
    &&& 0 <= p <= s.len()
    &&& forall|i: int| 0 <= i < p ==> #[trigger] s[i].br_startoff <= dblock
    &&& forall|i: int| p <= i < s.len() ==> #[trigger] s[i].br_startoff > dblock
}

pub proof fn lemma_pp_is_partition(s: Seq<BmbtRec>, dblock: u64, p: int)
    requires
        is_partition(s, dblock, p),
    ensures
        pp(s, dblock) == p,
    decreases s.len(),
{
    if s.len() == 0 {
    } else if s[0].br_startoff > dblock {
    } else {
        assert(is_partition(s.drop_first(), dblock, p - 1));
        lemma_pp_is_partition(s.drop_first(), dblock, p - 1);
    }
}

pub proof fn lemma_pp_partition(s: Seq<BmbtRec>, dblock: u64)
    requires
        extents_sorted(s),
    ensures
        is_partition(s, dblock, pp(s, dblock) as int),
    decreases s.len(),
{
    if s.len() == 0 {
    } else if s[0].br_startoff > dblock {
    } else {
        let t = s.drop_first();
        assert(extents_sorted(t));
        lemma_pp_partition(t, dblock);
        assert forall|i: int| 0 <= i < pp(s, dblock) implies #[trigger] s[i].br_startoff
            <= dblock by {
            if i > 0 {
                assert(s[i] == t[i - 1]);
            }
        }
        assert forall|i: int| pp(s, dblock) <= i < s.len() implies #[trigger] s[i].br_startoff
            > dblock by {
            assert(s[i] == t[i - 1]);
        }
    }
}

/// The partition point of `|e| e.br_startoff <= dblock`, by binary search.  Over sorted
/// records it is the number of records that start at or before `dblock`; over others, as for
/// std's `partition_point`, it is only some index whose neighbours lie on either side.
pub fn partition_point(v: &[BmbtRec], dblock: u64) -> (r: usize)
    ensures
        r <= v@.len(),
        r > 0 ==> v@[r - 1].br_startoff <= dblock,
        r < v@.len() ==> v@[r as int].br_startoff > dblock,
        extents_sorted(v@) ==> r == pp(v@, dblock),
{
    let mut lo: usize = 0;
    let mut hi: usize = v.len();
    while lo < hi
        invariant
            0 <= lo <= hi <= v@.len(),
            lo > 0 ==> v@[lo - 1].br_startoff <= dblock,
            hi < v@.len() ==> v@[hi as int].br_startoff > dblock,
            extents_sorted(v@) ==> forall|i: int| 0 <= i < lo ==> #[trigger] v@[i].br_startoff <= dblock,
            extents_sorted(v@) ==> forall|i: int| hi <= i < v@.len() ==> #[trigger] v@[i].br_startoff > dblock,
        decreases hi - lo,
    {
        let mid: usize = lo + (hi - lo) / 2;
        if v[mid].br_startoff <= dblock {
            proof {
                if extents_sorted(v@) {
                    assert forall|i: int| 0 <= i < mid + 1 implies #[trigger] v@[i].br_startoff <= dblock by {
                        assert(v@[i].br_startoff <= v@[mid as int].br_startoff);
                    }
                }
            }
            lo = mid + 1;
        } else {
            proof {
                if extents_sorted(v@) {
                    assert forall|i: int| mid <= i < v@.len() implies #[trigger] v@[i].br_startoff > dblock by {
                        assert(v@[mid as int].br_startoff <= v@[i].br_startoff);
                    }
                }
            }
            hi = mid;
        }
    }
    proof {
        if extents_sorted(v@) {
            lemma_pp_is_partition(v@, dblock, lo as int);
        }
    }
    lo
}

/// The extent lookup that `Bmx::get_extent` performs: the file system block holding `dblock`
/// and the number of blocks from it to the end of its extent, or, in a hole, `None` and the
/// number of blocks to the next extent (`None` if no extent follows).
pub open spec fn spec_get_extent(s: Seq<BmbtRec>, dblock: u64) -> (Option<u64>, Option<u64>) {
    let p = pp(s, dblock) as int;
    if p == 0 {
        (None, if s.len() > 0 { Some((s[0].br_startoff - dblock) as u64) } else { None })
    } else {
        let e = s[p - 1];
        let skip = dblock - e.br_startoff;
        if rec_end(e) > dblock {
            (Some((e.br_startblock + skip) as u64), Some((e.br_blockcount - skip) as u64))
        } else {
            (None, if p < s.len() { Some((s[p].br_startoff - dblock) as u64) } else { None })
        }
    }
}

/// The end of the data region that starts in extent `j`: the end of the first extent from `j`
/// on that is the last one or is followed by a gap.
pub open spec fn data_end(s: Seq<BmbtRec>, j: int) -> int
    decreases s.len() - j,
{
    if j + 1 >= s.len() || j < 0 {
        rec_end(s[j])
    } else if s[j + 1].br_startoff > rec_end(s[j]) {
        rec_end(s[j])
    } else {
        data_end(s, j + 1)
    }
}

/// What `Bmx::lseek` answers for SEEK_HOLE (when `whence` is SEEK_HOLE) or SEEK_DATA
/// (otherwise) at byte `offset`, with blocks of `1 << blocklog` bytes.
pub open spec fn spec_lseek(s: Seq<BmbtRec>, offset: u64, whence: i32, blocklog: u8) -> Result<
    u64,
    i32,
> {
    let dblock = offset >> blocklog;
    let p = pp(s, dblock) as int;
    if p == 0 {
        if whence == SEEK_HOLE {
            Ok(offset)
        } else if s.len() > 0 {
            Ok(s[0].br_startoff << blocklog)
        } else {
            Err(ENXIO)
        }
    } else if dblock < rec_end(s[p - 1]) {
        if whence == SEEK_HOLE {
            Ok((data_end(s, p - 1) as u64) << blocklog)
        } else {
            Ok(offset)
        }
    } else {
        if whence == SEEK_HOLE {
            Ok(offset)
        } else if p < s.len() {
            Ok(s[p].br_startoff << blocklog)
        } else {
            Err(ENXIO)
        }
    }
}

/// An ordered list of [`BmbtRec`], holding only written extents.
#[derive(Debug)]
pub struct Bmx(Vec<BmbtRec>);

impl Clone for Bmx {
    fn clone(&self) -> (r: Self)
        ensures
            r@ == self@,
    {
        proof {
            use_type_invariant(self);
        }
        let mut v: Vec<BmbtRec> = Vec::new();
        let mut i: usize = 0;
        while i < self.0.len()
            invariant
                0 <= i <= self.0@.len(),
                v@ == self.0@.subrange(0, i as int),
            decreases self.0@.len() - i,
        {
            v.push(self.0[i]);
            i = i + 1;
            assert(v@ =~= self.0@.subrange(0, i as int));
        }
        assert(v@ =~= self.0@);
        Bmx(v)
    }
}

impl View for Bmx {
    type V = Seq<BmbtRec>;

    closed spec fn view(&self) -> Seq<BmbtRec> {
        self.0@
    }
}

impl Bmx {
    /// The records are in range, and all written.
    #[verifier::type_invariant]
    closed spec fn inv(self) -> bool {
        &&& extents_in_range(self.0@)
        &&& forall|i: int| 0 <= i < self.0@.len() ==> !(#[trigger] self.0@[i]).br_flag
    }

    /// Build a list from records, which should be ordered by file offset, dropping
    /// preallocated but unwritten extents.
    pub fn new(bmx: &[BmbtRec]) -> (r: Bmx)
        requires
            extents_in_range(bmx@),
        ensures
            r@ == written(bmx@),
            extents_sorted(bmx@) ==> extents_sorted(r@),
    {
        let mut v: Vec<BmbtRec> = Vec::new();
        let mut i: usize = 0;
        while i < bmx.len()
            invariant
                0 <= i <= bmx@.len(),
                extents_in_range(bmx@),
                v@ == written(bmx@.subrange(0, i as int)),
                forall|k: int| 0 <= k < v@.len() ==> !(#[trigger] v@[k]).br_flag,
                extents_sorted(bmx@) ==> forall|k: int, j: int|
                    0 <= k < v@.len() && i <= j < bmx@.len() ==> (#[trigger] v@[k]).br_startoff
                        <= (#[trigger] bmx@[j]).br_startoff,
                extents_sorted(bmx@) ==> extents_sorted(v@),
                extents_in_range(v@),
            decreases bmx@.len() - i,
        {
            let rec = bmx[i];
            proof {
                let s0 = bmx@.subrange(0, i as int);
                let s1 = bmx@.subrange(0, i + 1);
                assert(s1 =~= s0.push(rec));
                assert(s1.drop_last() =~= s0);
                reveal(Seq::filter);
                assert(written(s1) == if !rec.br_flag {
                    written(s0).push(rec)
                } else {
                    written(s0)
                });
            }
            if !rec.br_flag {
                v.push(rec);
            }
            i = i + 1;
        }
        assert(bmx@.subrange(0, bmx@.len() as int) =~= bmx@);
        Bmx(v)
    }

    /// Build a list from owned records, which should be ordered by file offset, dropping
    /// preallocated but unwritten extents.
    pub fn from_vec(v: Vec<BmbtRec>) -> (r: Bmx)
        requires
            extents_in_range(v@),
        ensures
            r@ == written(v@),
            extents_sorted(v@) ==> extents_sorted(r@),
    {
        Bmx::new(v.as_slice())
    }

    /// The number of records.
    pub fn len(&self) -> (r: usize)
        ensures
            r == self@.len(),
            extents_in_range(self@),
            forall|i: int| 0 <= i < self@.len() ==> !(#[trigger] self@[i]).br_flag,
    {
        proof {
            use_type_invariant(self);
        }
        self.0.len()
    }

    /// The record at index `i`.
    pub fn get(&self, i: usize) -> (r: BmbtRec)
        requires
            i < self@.len(),
        ensures
            r == self@[i as int],
    {
        self.0[i]
    }

    /// Return the extent, if any, that contains the given block within the file.
    /// Return its starting position as an FSblock, and its length in file system block units.
    /// If a hole's length extends to EoF, return None for length.  Records that are out of
    /// order give an unspecified answer, as std's binary search does.
    pub fn get_extent(&self, dblock: XfsFileoff) -> (r: (Option<XfsFsblock>, Option<u64>))
        ensures
            extents_sorted(self@) ==> r == spec_get_extent(self@, dblock),
    {
        proof {
            use_type_invariant(self);
            if extents_sorted(self.0@) {
                lemma_pp_partition(self.0@, dblock);
            }
        }
        let i = partition_point(self.0.as_slice(), dblock);
        if i == 0 {
            let len = if self.0.len() > 0 {
                Some(self.0[0].br_startoff - dblock)
            } else {
                None
            };
            (None, len)
        } else {
            let entry = self.0[i - 1];
            let skip: u64 = dblock - entry.br_startoff;
            if entry.br_startoff + entry.br_blockcount > dblock {
                (Some(entry.br_startblock + skip), Some(entry.br_blockcount - skip))
            } else {
                let len = if i < self.0.len() {
                    Some(self.0[i].br_startoff - entry.br_startoff - skip)
                } else {
                    None
                };
                (None, len)
            }
        }
    }

    pub fn first(&self) -> (r: Option<&BmbtRec>)
        ensures
            self@.len() > 0 ==> r == Some(&self@[0]),
            self@.len() == 0 ==> r is None,
    {
        if self.0.len() > 0 {
            Some(&self.0[0])
        } else {
            None
        }
    }

    /// The end of the data region that contains extent `j`.
    fn scan_data_end(&self, j: usize) -> (r: u64)
        requires
            j < self@.len(),
        ensures
            r == data_end(self@, j as int),
    {
        proof {
            use_type_invariant(self);
        }
        let n: usize = self.0.len();
        let mut k: usize = j;
        while k + 1 < n
            invariant
                j <= k < n,
                n == self@.len(),
                extents_in_range(self@),
                data_end(self@, j as int) == data_end(self@, k as int),
            decreases n - k,
        {
            let before = self.0[k];
            let after = self.0[k + 1];
            let br_end: u64 = before.br_startoff + before.br_blockcount;
            if after.br_startoff > br_end {
                return br_end;
            }
            k = k + 1;
        }
        let entry = self.0[n - 1];
        entry.br_startoff + entry.br_blockcount
    }

    /// Like lseek(2) with SEEK_HOLE (`whence == SEEK_HOLE`) or SEEK_DATA (any other `whence`),
    /// for a file whose blocks are `1 << blocklog` bytes.  Records that are out of order give
    /// an unspecified answer, as std's binary search does.
    pub fn lseek(&self, offset: u64, whence: i32, blocklog: u8) -> (r: Result<u64, i32>)
        requires
            blocklog < 64,
        ensures
            extents_sorted(self@) ==> r == spec_lseek(self@, offset, whence, blocklog),
    {
        proof {
            use_type_invariant(self);
            if extents_sorted(self.0@) {
                lemma_pp_partition(self.0@, offset >> blocklog);
            }
        }
        let dblock: u64 = offset >> blocklog;
        let i = partition_point(self.0.as_slice(), dblock);
        if i == 0 {
            if whence == SEEK_HOLE {
                Ok(offset)
            } else {
                match self.first() {
                    Some(b) => Ok(b.br_startoff << blocklog),
                    None => Err(ENXIO),
                }
            }
        } else {
            let cur_entry = self.0[i - 1];
            let br_end: u64 = cur_entry.br_startoff + cur_entry.br_blockcount;
            if dblock < br_end {
                if whence == SEEK_HOLE {
                    let e: u64 = self.scan_data_end(i - 1);
                    Ok(e << blocklog)
                } else {
                    Ok(offset)
                }
            } else {
                if whence == SEEK_HOLE {
                    Ok(offset)
                } else if i < self.0.len() {
                    Ok(self.0[i].br_startoff << blocklog)
                } else {
                    Err(ENXIO)
                }
            }
        }
    }

    /// The file system block that holds directory block `dblock`, or `None` if it is in a hole.
    /// Records that are out of order give an unspecified answer, as std's binary search does.
    pub fn map_dblock(&self, dblock: XfsDablk) -> (r: Option<XfsFsblock>)
        requires
            extents_sorted(self@) ==> pp(self@, dblock as u64) > 0,
        ensures
            extents_sorted(self@) ==> ({
                let e = self@[pp(self@, dblock as u64) - 1];
                r == if rec_end(e) <= dblock {
                    None::<u64>
                } else {
                    Some((e.br_startblock + dblock - e.br_startoff) as u64)
                }
            }),
    {
        proof {
            use_type_invariant(self);
            if extents_sorted(self.0@) {
                lemma_pp_partition(self.0@, dblock as u64);
            }
        }
        let dblock: u64 = dblock as u64;
        let i = partition_point(self.0.as_slice(), dblock);
        if i == 0 {
            return None;
        }
        let rec = self.0[i - 1];
        if rec.br_startoff > dblock || rec.br_startoff + rec.br_blockcount <= dblock {
            None
        } else {
            Some(rec.br_startblock + dblock - rec.br_startoff)
        }
    }
}

/// The end of a data region is the end of some extent from the one it starts in on.
proof fn lemma_data_end(s: Seq<BmbtRec>, j: int)
    requires
        0 <= j < s.len(),
    ensures
        exists|k: int| j <= k < s.len() && data_end(s, j) == rec_end(#[trigger] s[k]),
    decreases s.len() - j,
{
    if j + 1 >= s.len() || s[j + 1].br_startoff > rec_end(s[j]) {
        assert(data_end(s, j) == rec_end(s[j]));
    } else {
        lemma_data_end(s, j + 1);
        let k = choose|k: int| j + 1 <= k < s.len() && data_end(s, j + 1) == rec_end(#[trigger] s[k]);
        assert(data_end(s, j) == rec_end(s[k]));
    }
}

/// `x << blocklog` is at least `offset` when `x` is past the block that holds `offset`, and
/// the shift does not overflow.
proof fn lemma_shl_past(x: u64, offset: u64, blocklog: u8)
    requires
        blocklog < 64,
        x > offset >> blocklog as u64,
        x * vstd::arithmetic::power2::pow2(blocklog as nat) <= u64::MAX,
    ensures
        x << blocklog as u64 >= offset,
{
    let b: u64 = blocklog as u64;
    vstd::bits::lemma_u64_shl_is_mul(x, b);
    vstd::bits::lemma_u64_shr_is_div(offset, b);
    let p = vstd::arithmetic::power2::pow2(blocklog as nat);
    vstd::arithmetic::power2::lemma_pow2_pos(blocklog as nat);
    let o: int = offset as int;
    let q: int = o / (p as int);
    vstd::arithmetic::div_mod::lemma_fundamental_div_mod(o, p as int);
    vstd::arithmetic::div_mod::lemma_mod_pos_bound(o, p as int);
    assert((q + 1) * p <= x * p) by (nonlinear_arith)
        requires
            x >= q + 1,
            p > 0,
    ;
    assert(o < (q + 1) * p) by (nonlinear_arith)
        requires
            o == p * q + o % (p as int),
            o % (p as int) < p,
    ;
}

/// Seeking for data or for a hole never moves backwards: whatever offset lseek answers is at or
/// after the offset asked about, as long as no extent ends beyond what a byte offset can
/// express.
pub proof fn lemma_lseek_not_before(s: Seq<BmbtRec>, offset: u64, whence: i32, blocklog: u8)
    requires
        extents_wf(s),
        blocklog < 64,
        forall|i: int| 0 <= i < s.len() ==> rec_end(#[trigger] s[i]) * vstd::arithmetic::power2::pow2(blocklog as nat) <= u64::MAX,
    ensures
        spec_lseek(s, offset, whence, blocklog) matches Ok(r) ==> r >= offset,
{
    let dblock = offset >> blocklog;
    lemma_pp_partition(s, dblock);
    let p = pp(s, dblock) as int;
    vstd::arithmetic::power2::lemma_pow2_pos(blocklog as nat);
    let pw = vstd::arithmetic::power2::pow2(blocklog as nat);
    if p == 0 {
        if whence != SEEK_HOLE && s.len() > 0 {
            assert(s[0].br_startoff * pw <= rec_end(s[0]) * pw) by (nonlinear_arith)
                requires
                    s[0].br_startoff <= rec_end(s[0]),
                    pw > 0,
            ;
            lemma_shl_past(s[0].br_startoff, offset, blocklog);
        }
    } else if dblock < rec_end(s[p - 1]) {
        if whence == SEEK_HOLE {
            lemma_data_end(s, p - 1);
            let k = choose|k: int| p - 1 <= k < s.len() && data_end(s, p - 1) == rec_end(#[trigger] s[k]);
            assert(rec_end(s[k]) * pw <= u64::MAX);
            assert(rec_end(s[k]) > dblock) by {
                if k >= p {
                    assert(s[k].br_startoff > dblock);
                }
            }
            assert(data_end(s, p - 1) <= u64::MAX) by (nonlinear_arith)
                requires
                    data_end(s, p - 1) * pw <= u64::MAX,
                    pw > 0,
                    data_end(s, p - 1) >= 0,
            ;
            lemma_shl_past(data_end(s, p - 1) as u64, offset, blocklog);
        }
    } else if whence != SEEK_HOLE && p < s.len() {
        assert(s[p].br_startoff * pw <= rec_end(s[p]) * pw) by (nonlinear_arith)
            requires
                s[p].br_startoff <= rec_end(s[p]),
                pw > 0,
        ;
        lemma_shl_past(s[p].br_startoff, offset, blocklog);
    }
}

/// Mapping a directory block and looking up its extent agree: the file system block that
/// `map_dblock` gives is the one that `get_extent` gives, and a block that `map_dblock` finds
/// in no extent is in a hole for `get_extent` too.
pub proof fn lemma_map_dblock_is_get_extent(s: Seq<BmbtRec>, dblock: u32)
    requires
        extents_wf(s),
        pp(s, dblock as u64) > 0,
    ensures
        ({
            let e = s[pp(s, dblock as u64) - 1];
            spec_get_extent(s, dblock as u64).0 == if rec_end(e) <= dblock {
                None::<u64>
            } else {
                Some((e.br_startblock + dblock - e.br_startoff) as u64)
            }
        }),
{
}

/// Records that do not overlap: each ends at or before the start of every later one.
pub open spec fn extents_disjoint(s: Seq<BmbtRec>) -> bool {
    forall|i: int, j: int| 0 <= i < j < s.len() ==> rec_end(s[i]) <= s[j].br_startoff
}

/// Record `r` maps file block `d`.
pub open spec fn covers(r: BmbtRec, d: int) -> bool {
    r.br_startoff <= d < rec_end(r)
}

/// In sorted, non-overlapping records, the record that maps a block is the last one that
/// starts at or before it.
proof fn lemma_cover_is_pp(s: Seq<BmbtRec>, d: u64, i: int)
    requires
        extents_wf(s),
        extents_disjoint(s),
        0 <= i < s.len(),
        covers(s[i], d as int),
    ensures
        pp(s, d) == i + 1,
{
    assert forall|j: int| 0 <= j < i + 1 implies #[trigger] s[j].br_startoff <= d by {
        assert(s[j].br_startoff <= s[i].br_startoff);
    }
    assert forall|j: int| i + 1 <= j < s.len() implies #[trigger] s[j].br_startoff > d by {
        assert(rec_end(s[i]) <= s[j].br_startoff);
    }
    lemma_pp_is_partition(s, d, i + 1);
}

/// What looking up the extent of a block gives, for sorted, non-overlapping records: in a
/// record, the matching file system block and the blocks left to the record's end; in a hole,
/// nothing, and the distance to the next record's start, if any record follows.
pub proof fn lemma_get_extent(s: Seq<BmbtRec>, d: u64)
    requires
        extents_wf(s),
        extents_disjoint(s),
    ensures
        forall|i: int|
            0 <= i < s.len() && covers(#[trigger] s[i], d as int) ==> spec_get_extent(s, d) == (
                Some((s[i].br_startblock + d - s[i].br_startoff) as u64),
                Some((rec_end(s[i]) - d) as u64),
            ),
        (forall|i: int| 0 <= i < s.len() ==> !covers(#[trigger] s[i], d as int)) ==> {
            &&& spec_get_extent(s, d).0 is None
            &&& spec_get_extent(s, d).1 matches Some(l) ==> (exists|k: int|
                0 <= k < s.len() && #[trigger] s[k].br_startoff == d + l) && forall|j: int|
                0 <= j < s.len() && s[j].br_startoff > d ==> #[trigger] s[j].br_startoff >= d + l
            &&& spec_get_extent(s, d).1 is None ==> forall|j: int|
                0 <= j < s.len() ==> #[trigger] s[j].br_startoff <= d
        },
{
    lemma_pp_partition(s, d);
    let p = pp(s, d) as int;
    assert forall|i: int|
        0 <= i < s.len() && covers(#[trigger] s[i], d as int) implies spec_get_extent(s, d) == (
            Some((s[i].br_startblock + d - s[i].br_startoff) as u64),
            Some((rec_end(s[i]) - d) as u64),
        ) by {
        lemma_cover_is_pp(s, d, i);
    }
    if forall|i: int| 0 <= i < s.len() ==> !covers(#[trigger] s[i], d as int) {
        if p > 0 {
            assert(!covers(s[p - 1], d as int));
        }
        if p < s.len() {
            let l = (s[p].br_startoff - d) as u64;
            assert(s[p].br_startoff == d + l);
            assert forall|j: int| 0 <= j < s.len() && s[j].br_startoff > d implies #[trigger] s[j].br_startoff >= d + l by {
                if j < p {
                    assert(s[j].br_startoff <= d);
                } else {
                    assert(s[p].br_startoff <= s[j].br_startoff);
                }
            }
        }
    }
}

/// lseek(2) with SEEK_DATA over sorted, non-overlapping records: an offset in data is its own
/// answer; otherwise the start of the first record after it, or ENXIO if none follows.
pub proof fn lemma_lseek_data(s: Seq<BmbtRec>, offset: u64, whence: i32, blocklog: u8)
    requires
        extents_wf(s),
        extents_disjoint(s),
        whence != SEEK_HOLE,
    ensures
        ({
            let b = offset >> blocklog;
            &&& (exists|i: int| 0 <= i < s.len() && covers(#[trigger] s[i], b as int)) ==> spec_lseek(
                s,
                offset,
                whence,
                blocklog,
            ) == Ok::<u64, i32>(offset)
            &&& (forall|i: int| 0 <= i < s.len() ==> !covers(#[trigger] s[i], b as int)) && (exists|j: int|
                0 <= j < s.len() && #[trigger] s[j].br_startoff > b) ==> exists|k: int|
                0 <= k < s.len() && #[trigger] s[k].br_startoff > b && spec_lseek(s, offset, whence, blocklog)
                    == Ok::<u64, i32>(s[k].br_startoff << blocklog) && forall|j: int|
                    0 <= j < s.len() && s[j].br_startoff > b ==> #[trigger] s[j].br_startoff >= s[k].br_startoff
            &&& (forall|j: int| 0 <= j < s.len() ==> #[trigger] s[j].br_startoff <= b) && (forall|i: int|
                0 <= i < s.len() ==> !covers(#[trigger] s[i], b as int)) ==> spec_lseek(
                s,
                offset,
                whence,
                blocklog,
            ) == Err::<u64, i32>(ENXIO)
        }),
{
    let b = offset >> blocklog;
    lemma_pp_partition(s, b);
    let p = pp(s, b) as int;
    if exists|i: int| 0 <= i < s.len() && covers(#[trigger] s[i], b as int) {
        let i = choose|i: int| 0 <= i < s.len() && covers(#[trigger] s[i], b as int);
        lemma_cover_is_pp(s, b, i);
    }
    if forall|i: int| 0 <= i < s.len() ==> !covers(#[trigger] s[i], b as int) {
        if p > 0 {
            assert(!covers(s[p - 1], b as int));
        }
        if p < s.len() {
            assert forall|j: int| 0 <= j < s.len() && s[j].br_startoff > b implies #[trigger] s[j].br_startoff >= s[p].br_startoff by {
                if j < p {
                    assert(s[j].br_startoff <= b);
                } else {
                    assert(s[p].br_startoff <= s[j].br_startoff);
                }
            }
            assert(s[p].br_startoff > b);
        } else {
            if exists|j: int| 0 <= j < s.len() && #[trigger] s[j].br_startoff > b {
                let j = choose|j: int| 0 <= j < s.len() && #[trigger] s[j].br_startoff > b;
                assert(j < p);
                assert(s[j].br_startoff <= b);
            }
        }
    }
    if (forall|j: int| 0 <= j < s.len() ==> #[trigger] s[j].br_startoff <= b) && p < s.len() {
        assert(s[p].br_startoff <= b);
    }
}

/// lseek(2) with SEEK_HOLE over sorted, non-overlapping records: an offset in a hole is its
/// own answer; in data, the answer is the end of the run of back-to-back records from the one
/// that holds it.  It never fails.
pub proof fn lemma_lseek_hole(s: Seq<BmbtRec>, offset: u64, blocklog: u8)
    requires
        extents_wf(s),
        extents_disjoint(s),
    ensures
        ({
            let b = offset >> blocklog;
            &&& (forall|i: int| 0 <= i < s.len() ==> !covers(#[trigger] s[i], b as int)) ==> spec_lseek(
                s,
                offset,
                SEEK_HOLE,
                blocklog,
            ) == Ok::<u64, i32>(offset)
            &&& forall|i: int|
                0 <= i < s.len() && covers(#[trigger] s[i], b as int) ==> spec_lseek(
                    s,
                    offset,
                    SEEK_HOLE,
                    blocklog,
                ) == Ok::<u64, i32>((data_end(s, i) as u64) << blocklog)
            &&& spec_lseek(s, offset, SEEK_HOLE, blocklog) is Ok
        }),
{
    let b = offset >> blocklog;
    lemma_pp_partition(s, b);
    let p = pp(s, b) as int;
    assert forall|i: int|
        0 <= i < s.len() && covers(#[trigger] s[i], b as int) implies spec_lseek(
            s,
            offset,
            SEEK_HOLE,
            blocklog,
        ) == Ok::<u64, i32>((data_end(s, i) as u64) << blocklog) by {
        lemma_cover_is_pp(s, b, i);
    }
    if forall|i: int| 0 <= i < s.len() ==> !covers(#[trigger] s[i], b as int) {
        if p > 0 {
            assert(!covers(s[p - 1], b as int));
        }
    }
}

/// The records that are kept of an extent list are those written to: there are some exactly
/// when some record is written, and the first kept is the first written record.
pub proof fn lemma_first_written(s: Seq<BmbtRec>)
    ensures
        written(s).len() > 0 <==> exists|k: int| 0 <= k < s.len() && !(#[trigger] s[k]).br_flag,
        written(s).len() > 0 ==> exists|k: int|
            0 <= k < s.len() && !(#[trigger] s[k]).br_flag && written(s)[0] == s[k] && forall|j: int|
                0 <= j < k ==> (#[trigger] s[j]).br_flag,
    decreases s.len(),
{
    reveal(Seq::filter);
    if s.len() == 0 {
        assert(written(s) =~= Seq::<BmbtRec>::empty());
    } else {
        let t = s.drop_last();
        lemma_first_written(t);
        assert(t.len() < s.len());
        let w = written(s);
        let wt = written(t);
        assert(w == if !s.last().br_flag {
            wt.push(s.last())
        } else {
            wt
        });
        if exists|k: int| 0 <= k < t.len() && !(#[trigger] t[k]).br_flag {
            let k = choose|k: int|
                0 <= k < t.len() && !(#[trigger] t[k]).br_flag && wt[0] == t[k] && forall|j: int|
                    0 <= j < k ==> (#[trigger] t[j]).br_flag;
            assert(s[k] == t[k]);
            assert forall|j: int| 0 <= j < k implies (#[trigger] s[j]).br_flag by {
                assert(s[j] == t[j]);
            }
        } else {
            assert(wt.len() == 0);
            assert forall|j: int| 0 <= j < s.len() - 1 implies (#[trigger] s[j]).br_flag by {
                assert(s[j] == t[j]);
            }
            if !s.last().br_flag {
                assert(w[0] == s[s.len() - 1]);
            } else {
                assert forall|k: int| 0 <= k < s.len() implies (#[trigger] s[k]).br_flag by {
                    if k < s.len() - 1 {
                        assert(s[k] == t[k]);
                    }
                }
            }
        }
        if exists|k: int| 0 <= k < s.len() && !(#[trigger] s[k]).br_flag {
            let k = choose|k: int| 0 <= k < s.len() && !(#[trigger] s[k]).br_flag;
            if k < s.len() - 1 {
                assert(t[k] == s[k]);
            }
        }
    }
}

} // verus!
