//! The fixed-length B+tree that maps file blocks of large files and directories to extents.
use vstd::prelude::*;

use crate::bmbt_rec::{
    extents_in_range, extents_sorted, extents_wf, lemma_pp_partition, pp, spec_bmbt_rec, spec_lseek, spec_get_extent, BmbtRec, Bmx,
    written,
};
use crate::definitions::{XfsFileoff, XfsFsblock, ENXIO, SEEK_DATA, SEEK_HOLE, XFS_BMAP_CRC_MAGIC,
    XFS_BMAP_MAGIC};
use crate::utils::{be128, be16, be32, be64, decode_u16, decode_u32, decode_u64, ParseError, Uuid};

verus! {

/// The header of a long-format B+tree block.
#[derive(Clone, Copy, Debug, PartialEq, Eq, Structural)]
pub struct BtreeBlockHdr {
    pub bb_magic: u32,
    pub bb_level: u16,
    pub bb_numrecs: u16,
}

/// The on-disk length of a block header with the given magic.
pub open spec fn hdr_len(magic: u32) -> int {
    if magic == XFS_BMAP_MAGIC {
        24
    } else {
        72
    }
}

/// Where an intermediate block's pointers start, past the first half of the block.
pub open spec fn ptr_gap(magic: u32) -> int {
    if magic == XFS_BMAP_MAGIC {
        0x08
    } else {
        0x20
    }
}

/// The header of the block in `raw`, or why it is rejected, for a file system whose UUID is
/// `uuid`.
pub open spec fn spec_btree_block_hdr(raw: Seq<u8>, uuid: Uuid) -> Result<BtreeBlockHdr, ParseError> {
    if raw.len() < 24 {
        Err(ParseError::UnexpectedEnd)
    } else if be32(raw, 0) != XFS_BMAP_MAGIC && be32(raw, 0) != XFS_BMAP_CRC_MAGIC {
        Err(ParseError::BadMagic)
    } else if be32(raw, 0) == XFS_BMAP_CRC_MAGIC && raw.len() < 72 {
        Err(ParseError::UnexpectedEnd)
    } else if be32(raw, 0) == XFS_BMAP_CRC_MAGIC && be128(raw, 40) != uuid.0 {
        Err(ParseError::UuidMismatch)
    } else {
        Ok(
            BtreeBlockHdr {
                bb_magic: be32(raw, 0) as u32,
                bb_level: be16(raw, 4) as u16,
                bb_numrecs: be16(raw, 6) as u16,
            },
        )
    }
}

impl BtreeBlockHdr {
    /// Decode a long-format block header (a V4 "BMAP" header, or a V5 "BMA3" header whose UUID
    /// must be the file system's) from the start of `raw`; also return its length.
    pub fn decode(raw: &[u8], uuid: Uuid) -> (r: Result<(BtreeBlockHdr, usize), ParseError>)
        ensures
            r matches Ok((h, n)) ==> spec_btree_block_hdr(raw@, uuid) == Ok::<
                BtreeBlockHdr,
                ParseError,
            >(h) && n == hdr_len(h.bb_magic),
            r matches Err(e) ==> spec_btree_block_hdr(raw@, uuid) == Err::<BtreeBlockHdr, ParseError>(
                e,
            ),
    {
        if raw.len() < 24 {
            return Err(ParseError::UnexpectedEnd);
        }
        let bb_magic = match decode_u32(raw, 0) {
            Ok(v) => v,
            Err(e) => return Err(e),
        };
        let bb_level = match decode_u16(raw, 4) {
            Ok(v) => v,
            Err(e) => return Err(e),
        };
        let bb_numrecs = match decode_u16(raw, 6) {
            Ok(v) => v,
            Err(e) => return Err(e),
        };
        if bb_magic == XFS_BMAP_MAGIC {
            Ok((BtreeBlockHdr { bb_magic, bb_level, bb_numrecs }, 24))
        } else if bb_magic == XFS_BMAP_CRC_MAGIC {
            if raw.len() < 72 {
                return Err(ParseError::UnexpectedEnd);
            }
            let bb_uuid = match Uuid::decode(raw, 40) {
                Ok(u) => u,
                Err(e) => return Err(e),
            };
            if bb_uuid != uuid {
                return Err(ParseError::UuidMismatch);
            }
            Ok((BtreeBlockHdr { bb_magic, bb_level, bb_numrecs }, 72))
        } else {
            Err(ParseError::BadMagic)
        }
    }
}

/// The root of a B+tree, as stored in an inode fork.
#[derive(Debug, Clone, Copy, PartialEq, Eq, Structural)]
pub struct BmdrBlock {
    pub bb_level: u16,
    pub bb_numrecs: u16,
}

impl BmdrBlock {
    pub const SIZE: usize = 4;

    pub fn decode(raw: &[u8], ofs: usize) -> (r: Result<BmdrBlock, ParseError>)
        ensures
            r is Ok <==> ofs + 4 <= raw@.len(),
            r matches Ok(b) ==> b.bb_level as int == be16(raw@, ofs as int) && b.bb_numrecs as int
                == be16(raw@, ofs + 2),
    {
        let bb_level = match decode_u16(raw, ofs) {
            Ok(v) => v,
            Err(e) => return Err(e),
        };
        let len: usize = raw.len();
        if ofs > usize::MAX - 2 {
            return Err(ParseError::UnexpectedEnd);
        }
        let bb_numrecs = match decode_u16(raw, ofs + 2) {
            Ok(v) => v,
            Err(e) => return Err(e),
        };
        Ok(BmdrBlock { bb_level, bb_numrecs })
    }
}

/// A B+tree key: the first file block covered by a subtree.
#[derive(Debug, Clone, Copy, PartialEq, Eq, Structural)]
pub struct BmbtKey {
    pub br_startoff: XfsFileoff,
}

impl BmbtKey {
    pub const SIZE: usize = 8;

    pub fn decode(raw: &[u8], ofs: usize) -> (r: Result<BmbtKey, ParseError>)
        ensures
            r is Ok <==> ofs + 8 <= raw@.len(),
            r matches Ok(k) ==> k.br_startoff as int == be64(raw@, ofs as int),
    {
        match decode_u64(raw, ofs) {
            Ok(v) => Ok(BmbtKey { br_startoff: v }),
            Err(e) => Err(e),
        }
    }
}

pub type XfsBmbtPtr = XfsFsblock;

pub type XfsBmdrPtr = XfsFsblock;

/// Keys ordered by file offset.
pub open spec fn keys_sorted(s: Seq<BmbtKey>) -> bool {
    forall|i: int, j: int| 0 <= i <= j < s.len() ==> s[i].br_startoff <= s[j].br_startoff
}

/// The number of leading keys of `s` that are at or before `block`; the partition point of
/// `|k| k.br_startoff <= block` for sorted keys.
pub open spec fn key_pp(s: Seq<BmbtKey>, block: u64) -> nat
    decreases s.len(),
{
    if s.len() == 0 || s[0].br_startoff > block {
        0
    } else {
        1 + key_pp(s.drop_first(), block)
    }
}

proof fn lemma_key_pp(s: Seq<BmbtKey>, block: u64, p: int)
    requires
        0 <= p <= s.len(),
        forall|i: int| 0 <= i < p ==> #[trigger] s[i].br_startoff <= block,
        forall|i: int| p <= i < s.len() ==> #[trigger] s[i].br_startoff > block,
    ensures
        key_pp(s, block) == p,
    decreases s.len(),
{
    if s.len() > 0 && s[0].br_startoff <= block {
        let t = s.drop_first();
        assert forall|i: int| 0 <= i < p - 1 implies #[trigger] t[i].br_startoff <= block by {
            assert(t[i] == s[i + 1]);
        }
        assert forall|i: int| p - 1 <= i < t.len() implies #[trigger] t[i].br_startoff > block by {
            assert(t[i] == s[i + 1]);
        }
        lemma_key_pp(t, block, p - 1);
    }
}

/// A B+tree node: the inode-resident root, or an intermediate block.
#[derive(Debug)]
pub struct BtreeNode {
    pub level: u16,
    pub keys: Vec<BmbtKey>,
    pub ptrs: Vec<XfsBmbtPtr>,
}

/// The child of a node, decoded from its block.
#[derive(Debug)]
pub enum BtreeChild {
    Intermediate(BtreeNode),
    Leaf(BtreeLeaf),
}

impl BtreeNode {
    /// A node whose keys match its pointers one for one.
    pub open spec fn wf(&self) -> bool {
        self.keys@.len() == self.ptrs@.len()
    }

    /// The index of the child that covers `logical_block`: that of the last key at or before
    /// it, or the leftmost child if the block precedes every key (the hole there is then
    /// measured by the leaf).
    pub open spec fn spec_child_index(&self, logical_block: XfsFileoff) -> int {
        let p = key_pp(self.keys@, logical_block);
        if p == 0 {
            0
        } else {
            p - 1
        }
    }

    /// The root of a B+tree, from the root header and the keys and pointers that follow it in
    /// the inode fork.
    pub fn new(bmdr: BmdrBlock, keys: Vec<BmbtKey>, ptrs: Vec<XfsBmbtPtr>) -> (r: BtreeNode)
        ensures
            r.level == bmdr.bb_level,
            r.keys@ == keys@,
            r.ptrs@ == ptrs@,
    {
        BtreeNode { level: bmdr.bb_level, keys, ptrs }
    }

    /// Which child to descend into for `logical_block`, and the file system block holding it.
    /// Keys that are out of order give an unspecified child, as std's binary search does.
    pub fn child(&self, logical_block: XfsFileoff) -> (r: (usize, XfsBmbtPtr))
        requires
            self.wf(),
            self.ptrs@.len() > 0,
        ensures
            keys_sorted(self.keys@) ==> r.0 == self.spec_child_index(logical_block),
            r.0 < self.ptrs@.len(),
            r.1 == self.ptrs@[r.0 as int],
    {
        let mut lo: usize = 0;
        let mut hi: usize = self.keys.len();
        while lo < hi
            invariant
                0 <= lo <= hi <= self.keys@.len(),
                keys_sorted(self.keys@) ==> forall|i: int| 0 <= i < lo ==> #[trigger] self.keys@[i].br_startoff <= logical_block,
                keys_sorted(self.keys@) ==> forall|i: int|
                    hi <= i < self.keys@.len() ==> #[trigger] self.keys@[i].br_startoff
                        > logical_block,
            decreases hi - lo,
        {
            let mid: usize = lo + (hi - lo) / 2;
            if self.keys[mid].br_startoff <= logical_block {
                proof {
                    if keys_sorted(self.keys@) {
                        assert forall|i: int| 0 <= i < mid + 1 implies #[trigger] self.keys@[i].br_startoff <= logical_block by {
                            assert(self.keys@[i].br_startoff <= self.keys@[mid as int].br_startoff);
                        }
                    }
                }
                lo = mid + 1;
            } else {
                proof {
                    if keys_sorted(self.keys@) {
                        assert forall|i: int| mid <= i < self.keys@.len() implies #[trigger] self.keys@[i].br_startoff > logical_block by {
                            assert(self.keys@[mid as int].br_startoff <= self.keys@[i].br_startoff);
                        }
                    }
                }
                hi = mid;
            }
        }
        proof {
            if keys_sorted(self.keys@) {
                lemma_key_pp(self.keys@, logical_block, lo as int);
            }
        }
        let idx: usize = lo.saturating_sub(1);
        (idx, self.ptrs[idx])
    }

    /// Decode the child block `raw` of this node, a whole file system block: an intermediate
    /// node if this node is above level 1, a leaf otherwise.
    pub fn decode_child(&self, raw: &[u8], uuid: Uuid) -> (r: Result<BtreeChild, ParseError>)
        ensures
            self.level > 1 ==> (r is Ok <==> interior_ok(raw@, uuid)),
            self.level <= 1 ==> (r is Ok <==> leaf_block_ok(raw@, uuid)),
            r matches Ok(BtreeChild::Intermediate(n)) ==> self.level > 1 && interior_is(n, raw@, uuid),
            r matches Ok(BtreeChild::Leaf(l)) ==> self.level <= 1 && l.bmx@ == written(leaf_recs(raw@, uuid)),
    {
        if self.level > 1 {
            match BtreeNode::decode_intermediate(raw, uuid) {
                Ok(n) => Ok(BtreeChild::Intermediate(n)),
                Err(e) => Err(e),
            }
        } else {
            match BtreeLeaf::decode(raw, uuid) {
                Ok(l) => Ok(BtreeChild::Leaf(l)),
                Err(e) => Err(e),
            }
        }
    }

    /// Decode an intermediate node from its block `raw`, a whole file system block.  The
    /// pointers start halfway through the block, after a gap that depends on the header's
    /// version.
    pub fn decode_intermediate(raw: &[u8], uuid: Uuid) -> (r: Result<BtreeNode, ParseError>)
        ensures
            r is Ok <==> interior_ok(raw@, uuid),
            r matches Ok(n) ==> interior_is(n, raw@, uuid),
    {
        let (hdr, hlen) = match BtreeBlockHdr::decode(raw, uuid) {
            Ok(x) => x,
            Err(e) => return Err(e),
        };
        if hdr.bb_level == 0 {
            return Err(ParseError::InvalidValue);
        }
        let len: usize = raw.len();
        let n: usize = hdr.bb_numrecs as usize;
        let mut keys: Vec<BmbtKey> = Vec::new();
        let mut i: usize = 0;
        while i < n
            invariant
                0 <= i <= n,
                n <= 0xffff,
                len == raw@.len(),
                hlen <= 72,
                spec_btree_block_hdr(raw@, uuid) == Ok::<BtreeBlockHdr, ParseError>(hdr),
                hlen == hdr_len(hdr.bb_magic),
                n == hdr.bb_numrecs,
                hdr.bb_level > 0,
                hlen + 8 * i <= len,
                keys@.len() == i,
                forall|k: int|
                    0 <= k < i ==> (#[trigger] keys@[k]).br_startoff as int == be64(
                        raw@,
                        hlen + 8 * k,
                    ),
            decreases n - i,
        {
            let key = match BmbtKey::decode(raw, hlen + 8 * i) {
                Ok(k) => k,
                Err(e) => return Err(e),
            };
            keys.push(key);
            i = i + 1;
        }
        // The pointers follow the first half of the block, after a gap that depends on the
        // header's version.
        let gap: usize = if hdr.bb_magic == XFS_BMAP_MAGIC {
            0x08
        } else {
            0x20
        };
        let half: usize = len / 2;
        if len - half < gap || (len - half - gap) / 8 < n {
            return Err(ParseError::UnexpectedEnd);
        }
        let ptr_ofs: usize = half + gap;
        let mut ptrs: Vec<u64> = Vec::new();
        let mut i: usize = 0;
        while i < n
            invariant
                0 <= i <= n,
                len == raw@.len(),
                ptr_ofs + 8 * n <= len,
                ptr_ofs == len / 2 + ptr_gap(hdr.bb_magic),
                ptrs@.len() == i,
                forall|k: int|
                    0 <= k < i ==> #[trigger] ptrs@[k] as int == be64(raw@, ptr_ofs + 8 * k),
            decreases n - i,
        {
            let ptr = match decode_u64(raw, ptr_ofs + 8 * i) {
                Ok(p) => p,
                Err(e) => return Err(e),
            };
            ptrs.push(ptr);
            i = i + 1;
        }
        proof {
            assert(keys@ =~= interior_keys(raw@, hdr));
            assert(ptrs@ =~= interior_ptrs(raw@, hdr));
        }
        Ok(BtreeNode { level: hdr.bb_level, keys, ptrs })
    }
}

/// The keys of the intermediate block in `raw`, whose header is `h`.
pub open spec fn interior_keys(raw: Seq<u8>, h: BtreeBlockHdr) -> Seq<BmbtKey> {
    Seq::new(
        h.bb_numrecs as nat,
        |i: int| BmbtKey { br_startoff: be64(raw, hdr_len(h.bb_magic) + 8 * i) as u64 },
    )
}

/// The pointers of the intermediate block in `raw`, whose header is `h`: they start halfway
/// through the block, after a gap.
pub open spec fn interior_ptrs(raw: Seq<u8>, h: BtreeBlockHdr) -> Seq<u64> {
    Seq::new(
        h.bb_numrecs as nat,
        |i: int| be64(raw, raw.len() / 2 + ptr_gap(h.bb_magic) + 8 * i) as u64,
    )
}

/// Whether `raw` is a well-formed intermediate block of a file system whose UUID is `uuid`: a
/// valid header of a level above 0, and all the keys and pointers it counts.
pub open spec fn interior_ok(raw: Seq<u8>, uuid: Uuid) -> bool {
    &&& spec_btree_block_hdr(raw, uuid) is Ok
    &&& {
        let h = spec_btree_block_hdr(raw, uuid).unwrap();
        &&& h.bb_level > 0
        &&& hdr_len(h.bb_magic) + 8 * h.bb_numrecs <= raw.len()
        &&& raw.len() / 2 + ptr_gap(h.bb_magic) + 8 * h.bb_numrecs <= raw.len()
    }
}

/// `n` is the intermediate node that the block `raw` holds.
pub open spec fn interior_is(n: BtreeNode, raw: Seq<u8>, uuid: Uuid) -> bool {
    let h = spec_btree_block_hdr(raw, uuid).unwrap();
    &&& n.wf()
    &&& n.level == h.bb_level
    &&& n.keys@ == interior_keys(raw, h)
    &&& n.ptrs@ == interior_ptrs(raw, h)
}

/// A leaf block of a B+tree: its list of extents.
#[derive(Debug)]
pub struct BtreeLeaf {
    pub bmx: Bmx,
}

/// Whether records are in their decoded ranges.
pub fn check_in_range(recs: &[BmbtRec]) -> (r: bool)
    ensures
        r == extents_in_range(recs@),
{
    let n: usize = recs.len();
    let mut i: usize = 0;
    while i < n
        invariant
            0 <= i <= n,
            n == recs@.len(),
            forall|a: int| 0 <= a < i ==> crate::bmbt_rec::rec_wf(#[trigger] recs@[a]),
        decreases n - i,
    {
        let r = recs[i];
        if r.br_startoff >= 0x40_0000_0000_0000 || r.br_startblock >= 0x10_0000_0000_0000
            || r.br_blockcount >= 0x20_0000 {
            return false;
        }
        i = i + 1;
    }
    true
}

/// The extent records of the leaf block in `raw`, as many as its header counts.
pub open spec fn leaf_recs(raw: Seq<u8>, uuid: Uuid) -> Seq<BmbtRec> {
    let h = spec_btree_block_hdr(raw, uuid).unwrap();
    Seq::new(
        h.bb_numrecs as nat,
        |i: int| spec_bmbt_rec(be128(raw, hdr_len(h.bb_magic) + 16 * i) as u128),
    )
}

/// Whether `raw` is a well-formed leaf block of a file system whose UUID is `uuid`: a valid
/// header of level 0, and all the records it counts.
pub open spec fn leaf_block_ok(raw: Seq<u8>, uuid: Uuid) -> bool {
    &&& spec_btree_block_hdr(raw, uuid) is Ok
    &&& {
        let h = spec_btree_block_hdr(raw, uuid).unwrap();
        &&& h.bb_level == 0
        &&& hdr_len(h.bb_magic) + 16 * h.bb_numrecs <= raw.len()
    }
}

impl BtreeLeaf {
    /// Return the extent, if any, that contains the given block within the file.
    /// Return its starting position as an FSblock, and its length in file system block units.
    /// If a hole's length extends to EoF, return None for length.  Records that are out of
    /// order give an unspecified answer.
    pub fn get_extent(&self, dblock: XfsFileoff) -> (r: (Option<XfsFsblock>, Option<u64>))
        ensures
            extents_sorted(self.bmx@) ==> r == spec_get_extent(self.bmx@, dblock),
    {
        self.bmx.get_extent(dblock)
    }

    /// Decode a leaf block; unwritten extents are dropped.
    pub fn decode(raw: &[u8], uuid: Uuid) -> (r: Result<BtreeLeaf, ParseError>)
        ensures
            r is Ok <==> leaf_block_ok(raw@, uuid),
            r matches Ok(l) ==> l.bmx@ == written(leaf_recs(raw@, uuid)),
    {
        let (hdr, hlen) = match BtreeBlockHdr::decode(raw, uuid) {
            Ok(x) => x,
            Err(e) => return Err(e),
        };
        if hdr.bb_level != 0 {
            return Err(ParseError::InvalidValue);
        }
        let n: usize = hdr.bb_numrecs as usize;
        let mut recs: Vec<BmbtRec> = Vec::new();
        let mut i: usize = 0;
        while i < n
            invariant
                0 <= i <= n,
                n <= 0xffff,
                hlen <= 72,
                spec_btree_block_hdr(raw@, uuid) == Ok::<BtreeBlockHdr, ParseError>(hdr),
                hlen == hdr_len(hdr.bb_magic),
                n == hdr.bb_numrecs,
                hdr.bb_level == 0,
                hlen + 16 * i <= raw@.len(),
                recs@.len() == i,
                extents_in_range(recs@),
                forall|k: int|
                    0 <= k < i ==> #[trigger] recs@[k] == spec_bmbt_rec(
                        be128(raw@, hlen + 16 * k) as u128,
                    ),
            decreases n - i,
        {
            let rec = match BmbtRec::decode(raw, hlen + 16 * i) {
                Ok(r) => r,
                Err(e) => return Err(e),
            };
            recs.push(rec);
            i = i + 1;
        }
        proof {
            assert(recs@ =~= leaf_recs(raw@, uuid));
        }
        let bmx = Bmx::new(recs.as_slice());
        Ok(BtreeLeaf { bmx })
    }
}

/// What to do next while seeking through a B+tree-mapped file.
#[derive(Debug, Clone, Copy, PartialEq, Eq, Structural)]
pub enum LseekStep {
    /// The answer: this offset.
    Offset(u64),
    /// The answer: this error.
    Error(i32),
    /// Map this file block, and continue with `lseek_scan`.
    Scan(u64),
}

/// The first step of lseek on a B+tree-mapped file, given the extent that holds the starting
/// block `offset >> blocklog`.  `seek_hole` selects SEEK_HOLE; otherwise SEEK_DATA.  In a hole
/// followed by data, SEEK_DATA answers the byte where that data starts.
pub open spec fn spec_lseek_start(
    extent: (Option<u64>, Option<u64>),
    offset: u64,
    seek_hole: bool,
    blocklog: u8,
) -> LseekStep {
    match extent {
        (None, Some(len)) => if seek_hole {
            LseekStep::Offset((offset))
        } else {
            LseekStep::Offset(((((offset >> blocklog) + len) as u64) << blocklog))
        },
        (Some(_), Some(len)) => if seek_hole {
            LseekStep::Scan(((offset >> blocklog) + len) as u64)
        } else {
            LseekStep::Offset((offset))
        },
        _ => if seek_hole {
            LseekStep::Offset((offset))
        } else {
            LseekStep::Error(ENXIO)
        },
    }
}

/// Whether the arithmetic of the first lseek step stays in range.
pub open spec fn lseek_start_ok(extent: (Option<u64>, Option<u64>), offset: u64, blocklog: u8) -> bool {
    &&& blocklog < 64
    &&& !(extent.0 is Some && extent.1 is None)
    &&& extent matches (None, Some(len)) ==> (offset >> blocklog) + len <= u64::MAX
    &&& extent matches (Some(_), Some(len)) ==> (offset >> blocklog) + len <= u64::MAX
}

/// A step of the scan for the next hole, given the extent that holds block `dblock`.
pub open spec fn spec_lseek_scan(extent: (Option<u64>, Option<u64>), dblock: u64, blocklog: u8) -> LseekStep {
    match extent {
        (Some(_), Some(len)) => LseekStep::Scan((dblock + len) as u64),
        _ => LseekStep::Offset((dblock << blocklog)),
    }
}

fn lseek_start(extent: (Option<u64>, Option<u64>), offset: u64, seek_hole: bool, blocklog: u8) -> (r: LseekStep)
    requires
        lseek_start_ok(extent, offset, blocklog),
    ensures
        r == spec_lseek_start(extent, offset, seek_hole, blocklog),
{
    match extent {
        (None, Some(len)) => {
            if seek_hole {
                LseekStep::Offset((offset))
            } else {
                LseekStep::Offset((((offset >> blocklog) + len) << blocklog))
            }
        },
        (Some(_), Some(len)) => {
            if seek_hole {
                LseekStep::Scan((offset >> blocklog) + len)
            } else {
                LseekStep::Offset((offset))
            }
        },
        _ => {
            if seek_hole {
                LseekStep::Offset((offset))
            } else {
                LseekStep::Error(ENXIO)
            }
        },
    }
}

/// The first step of lseek(2) with SEEK_HOLE or SEEK_DATA on a directory whose blocks are
/// mapped by a B+tree: any `whence` but SEEK_HOLE means SEEK_DATA.  `extent` is what
/// `map_block` returned for block `offset >> blocklog`.
pub fn btree_root_lseek_start(extent: (Option<u64>, Option<u64>), offset: u64, whence: i32, blocklog: u8) -> (r: LseekStep)
    requires
        lseek_start_ok(extent, offset, blocklog),
    ensures
        r == spec_lseek_start(extent, offset, whence == SEEK_HOLE, blocklog),
        extent.0 is None && whence == SEEK_HOLE ==> r == LseekStep::Offset(offset),
{
    lseek_start(extent, offset, whence == SEEK_HOLE, blocklog)
}

/// The first step of lseek(2) with SEEK_HOLE or SEEK_DATA on a B+tree-mapped regular file: any
/// `whence` but SEEK_DATA means SEEK_HOLE.  `extent` is what `map_block` returned for block
/// `offset >> blocklog`.
pub fn file_btree_lseek_start(extent: (Option<u64>, Option<u64>), offset: u64, whence: i32, blocklog: u8) -> (r: LseekStep)
    requires
        lseek_start_ok(extent, offset, blocklog),
    ensures
        r == spec_lseek_start(extent, offset, whence != SEEK_DATA, blocklog),
        extent.0 is None && whence != SEEK_DATA ==> r == LseekStep::Offset(offset),
{
    lseek_start(extent, offset, whence != SEEK_DATA, blocklog)
}

/// A step of the scan for the next hole: `extent` is what `map_block` returned for `dblock`.
pub fn lseek_scan(extent: (Option<u64>, Option<u64>), dblock: u64, blocklog: u8) -> (r: LseekStep)
    requires
        blocklog < 64,
        !(extent.0 is Some && extent.1 is None),
        extent matches (Some(_), Some(len)) ==> dblock + len <= u64::MAX,
    ensures
        r == spec_lseek_scan(extent, dblock, blocklog),
{
    match extent {
        (Some(_), Some(len)) => LseekStep::Scan(dblock + len),
        _ => LseekStep::Offset((dblock << blocklog)),
    }
}

/// The first step of a seek through a B+tree agrees with seeking through the extent list that
/// the tree holds: given the extent that the tree maps the offset's block to, whenever the step
/// answers at once, it answers what lseek over the sorted extent list answers.  In particular
/// SEEK_HOLE from inside a hole, whether or not data follows, answers the offset itself.  The
/// directory and regular file forms of the step agree on SEEK_DATA and SEEK_HOLE.
pub proof fn lemma_lseek_start_agrees(s: Seq<BmbtRec>, offset: u64, whence: i32, blocklog: u8)
    requires
        extents_wf(s),
        blocklog < 64,
    ensures
        ({
            let ext = spec_get_extent(s, offset >> blocklog);
            let step = spec_lseek_start(ext, offset, whence == SEEK_HOLE, blocklog);
            &&& step matches LseekStep::Offset(o) ==> spec_lseek(s, offset, whence, blocklog) == Ok::<u64, i32>(o)
            &&& step matches LseekStep::Error(e) ==> spec_lseek(s, offset, whence, blocklog) == Err::<u64, i32>(e)
            &&& ext.0 is None && whence == SEEK_HOLE ==> step == LseekStep::Offset(offset)
            &&& (whence == SEEK_DATA || whence == SEEK_HOLE) ==> spec_lseek_start(
                ext,
                offset,
                whence != SEEK_DATA,
                blocklog,
            ) == step
        }),
{
    let d = offset >> blocklog;
    lemma_pp_partition(s, d);
    let p = pp(s, d) as int;
    if p == 0 {
        if s.len() > 0 {
            assert(s[0].br_startoff > d);
        }
    } else if p < s.len() {
        assert(s[p].br_startoff > d);
    }
}

} // verus!
