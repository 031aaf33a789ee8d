//! Directory entries, data and leaf block formats common to all directory layouts, and the
//! decisions of directory lookup and iteration.
use vstd::prelude::*;

use crate::da_btree::{da_entries, da_node_ok, node_hdr_len, spec_da3_blkinfo, XfsDa3Blkinfo, XfsDa3Intnode, XfsDaBlkinfo};
use crate::definitions::{
    XfsDablk, XfsDahash, XfsIno, EIO, ENOENT, XFS_DA3_NODE_MAGIC, XFS_DA_NODE_MAGIC,
    XFS_DIR2_BLOCK_MAGIC, XFS_DIR2_DATA_MAGIC, XFS_DIR2_LEAF1_MAGIC, XFS_DIR2_LEAFN_MAGIC,
    XFS_DIR3_BLOCK_MAGIC, XFS_DIR3_DATA_MAGIC, XFS_DIR3_LEAF1_MAGIC, XFS_DIR3_LEAFN_MAGIC,
};
use crate::dir3_block::Dir2Block;
use crate::dir3_bptree::Dir2Btree;
use crate::dir3_leaf::Dir2Leaf;
use crate::dir3_lf::Dir2Lf;
use crate::dir3_node::Dir2Node;
use crate::dir3_sf::Dir2Sf;
use crate::utils::{
    be128, be16, be32, be64, decode_u16, decode_u32, decode_u64, get_file_type,
    spec_file_type, FileKind, FileType, ParseError, Uuid,
};

verus! {

pub type XfsDir2DataOff = u16;

pub type XfsDir2Dataptr = u32;

pub const XFS_DIR2_DATA_FD_COUNT: usize = 3;

pub const XFS_DIR3_FT_UNKNOWN: u8 = 0;
pub const XFS_DIR3_FT_REG_FILE: u8 = 1;
pub const XFS_DIR3_FT_DIR: u8 = 2;
pub const XFS_DIR3_FT_CHRDEV: u8 = 3;
pub const XFS_DIR3_FT_BLKDEV: u8 = 4;
pub const XFS_DIR3_FT_FIFO: u8 = 5;
pub const XFS_DIR3_FT_SOCK: u8 = 6;
pub const XFS_DIR3_FT_SYMLINK: u8 = 7;
pub const XFS_DIR3_FT_WHT: u8 = 8;

/// Whether two byte strings are equal.
pub fn bytes_eq(a: &[u8], b: &[u8]) -> (r: bool)
    ensures
        r == (a@ == b@),
{
    if a.len() != b.len() {
        return false;
    }
    let mut i: usize = 0;
    while i < a.len()
        invariant
            0 <= i <= a@.len(),
            a@.len() == b@.len(),
            forall|k: int| 0 <= k < i ==> a@[k] == b@[k],
        decreases a@.len() - i,
    {
        if a[i] != b[i] {
            return false;
        }
        i = i + 1;
    }
    assert(a@ =~= b@);
    true
}

/// The header of a version 5 directory block.
#[derive(Debug, Clone, Copy, PartialEq, Eq, Structural)]
pub struct Dir3BlkHdr {
    pub magic: u32,
    pub crc: u32,
    pub blkno: u64,
    pub lsn: u64,
    pub uuid: Uuid,
    pub owner: u64,
}

impl Dir3BlkHdr {
    pub const SIZE: u64 = 48;

    pub fn decode(raw: &[u8]) -> (r: Result<Dir3BlkHdr, ParseError>)
        ensures
            r is Ok <==> raw@.len() >= 48,
            r matches Ok(h) ==> h.magic as int == be32(raw@, 0) && h.crc as int == be32(raw@, 4)
                && h.blkno as int == be64(raw@, 8) && h.lsn as int == be64(raw@, 16) && h.uuid.0 as int
                == be128(raw@, 24) && h.owner as int == be64(raw@, 40),
    {
        if raw.len() < 48 {
            return Err(ParseError::UnexpectedEnd);
        }
        let magic = match decode_u32(raw, 0) {
            Ok(v) => v,
            Err(e) => return Err(e),
        };
        let crc = match decode_u32(raw, 4) {
            Ok(v) => v,
            Err(e) => return Err(e),
        };
        let blkno = match decode_u64(raw, 8) {
            Ok(v) => v,
            Err(e) => return Err(e),
        };
        let lsn = match decode_u64(raw, 16) {
            Ok(v) => v,
            Err(e) => return Err(e),
        };
        let uuid = match Uuid::decode(raw, 24) {
            Ok(v) => v,
            Err(e) => return Err(e),
        };
        let owner = match decode_u64(raw, 40) {
            Ok(v) => v,
            Err(e) => return Err(e),
        };
        Ok(Dir3BlkHdr { magic, crc, blkno, lsn, uuid, owner })
    }
}

/// A free region of a directory data block.
#[derive(Debug, Clone, Copy, PartialEq, Eq, Structural)]
pub struct Dir2DataFree {
    pub offset: XfsDir2DataOff,
    pub length: XfsDir2DataOff,
}

impl Dir2DataFree {
    pub const SIZE: u64 = 4;

    pub fn decode(raw: &[u8], ofs: usize) -> (r: Result<Dir2DataFree, ParseError>)
        ensures
            r is Ok <==> ofs + 4 <= raw@.len(),
            r matches Ok(f) ==> f.offset as int == be16(raw@, ofs as int) && f.length as int
                == be16(raw@, ofs + 2),
    {
        let len: usize = raw.len();
        let offset = match decode_u16(raw, ofs) {
            Ok(v) => v,
            Err(e) => return Err(e),
        };
        let length = match decode_u16(raw, ofs + 2) {
            Ok(v) => v,
            Err(e) => return Err(e),
        };
        Ok(Dir2DataFree { offset, length })
    }
}

/// The header of a version 4 directory data block.
#[derive(Debug, Clone, Copy)]
pub struct Dir2DataHdr {
    pub magic: u32,
    pub best_free: [Dir2DataFree; 3],
}

impl Dir2DataHdr {
    pub const SIZE: u64 = 16;

    pub fn decode(raw: &[u8]) -> (r: Result<Dir2DataHdr, ParseError>)
        ensures
            r is Ok <==> raw@.len() >= 16,
            r matches Ok(h) ==> h.magic as int == be32(raw@, 0) && forall|i: int|
                0 <= i < 3 ==> #[trigger] h.best_free@[i] == (Dir2DataFree {
                    offset: be16(raw@, 4 + 4 * i) as u16,
                    length: be16(raw@, 6 + 4 * i) as u16,
                }),
    {
        if raw.len() < 16 {
            return Err(ParseError::UnexpectedEnd);
        }
        let magic = match decode_u32(raw, 0) {
            Ok(v) => v,
            Err(e) => return Err(e),
        };
        let f0 = match Dir2DataFree::decode(raw, 4) {
            Ok(v) => v,
            Err(e) => return Err(e),
        };
        let f1 = match Dir2DataFree::decode(raw, 8) {
            Ok(v) => v,
            Err(e) => return Err(e),
        };
        let f2 = match Dir2DataFree::decode(raw, 12) {
            Ok(v) => v,
            Err(e) => return Err(e),
        };
        Ok(Dir2DataHdr { magic, best_free: [f0, f1, f2] })
    }
}

/// The header of a version 5 directory data block.
#[derive(Debug, Clone, Copy)]
pub struct Dir3DataHdr {
    pub hdr: Dir3BlkHdr,
    pub best_free: [Dir2DataFree; 3],
    pub pad: u32,
}

impl Dir3DataHdr {
    pub const SIZE: u64 = 64;

    pub fn decode(raw: &[u8]) -> (r: Result<Dir3DataHdr, ParseError>)
        ensures
            r is Ok <==> raw@.len() >= 64,
            r matches Ok(h) ==> h.hdr.magic as int == be32(raw@, 0) && h.hdr.owner as int == be64(raw@, 40)
                && h.pad as int == be32(raw@, 60) && forall|i: int|
                0 <= i < 3 ==> #[trigger] h.best_free@[i] == (Dir2DataFree {
                    offset: be16(raw@, 48 + 4 * i) as u16,
                    length: be16(raw@, 50 + 4 * i) as u16,
                }),
    {
        if raw.len() < 64 {
            return Err(ParseError::UnexpectedEnd);
        }
        let hdr = match Dir3BlkHdr::decode(raw) {
            Ok(v) => v,
            Err(e) => return Err(e),
        };
        let f0 = match Dir2DataFree::decode(raw, 48) {
            Ok(v) => v,
            Err(e) => return Err(e),
        };
        let f1 = match Dir2DataFree::decode(raw, 52) {
            Ok(v) => v,
            Err(e) => return Err(e),
        };
        let f2 = match Dir2DataFree::decode(raw, 56) {
            Ok(v) => v,
            Err(e) => return Err(e),
        };
        let pad = match decode_u32(raw, 60) {
            Ok(v) => v,
            Err(e) => return Err(e),
        };
        Ok(Dir3DataHdr { hdr, best_free: [f0, f1, f2], pad })
    }
}

/// A directory entry in a data block.
#[derive(Debug)]
pub struct Dir2DataEntry {
    pub inumber: XfsIno,
    pub name: Vec<u8>,
    pub ftype: Option<u8>,
    pub tag: XfsDir2DataOff,
}

/// The offset, from the start of an entry whose name is `namelen` bytes long, of its tag.  The
/// entry is padded so that the tag ends on a multiple of 8 bytes.
pub open spec fn entry_tag_ofs(namelen: int, has_ftype: bool) -> int {
    if has_ftype {
        // 8 bytes of inode, 1 of length, the name, 1 of file type, then (4 - namelen) mod 8
        // bytes of padding.
        10 + namelen + (260 - namelen) % 8
    } else {
        9 + namelen + (261 - namelen) % 8
    }
}

/// The entry at offset `ofs` of `raw` (its inode number, name, file type and tag) and its
/// length, if the buffer holds all of it.
pub open spec fn spec_entry(raw: Seq<u8>, ofs: int, has_ftype: bool) -> Option<
    (u64, Seq<u8>, Option<u8>, u16, int),
> {
    if ofs + 9 > raw.len() {
        None
    } else {
        let n = raw[ofs + 8] as int;
        let t = ofs + entry_tag_ofs(n, has_ftype);
        if t + 2 > raw.len() {
            None
        } else {
            Some(
                (
                    be64(raw, ofs) as u64,
                    raw.subrange(ofs + 9, ofs + 9 + n),
                    if has_ftype {
                        Some(raw[ofs + 9 + n])
                    } else {
                        None
                    },
                    be16(raw, t) as u16,
                    t + 2 - ofs,
                ),
            )
        }
    }
}

/// An entry equals the description that `spec_entry` gives of one.
pub open spec fn entry_is(e: Dir2DataEntry, s: (u64, Seq<u8>, Option<u8>, u16, int)) -> bool {
    &&& e.inumber == s.0
    &&& e.name@ == s.1
    &&& e.ftype == s.2
    &&& e.tag == s.3
}

impl Dir2DataEntry {
    /// The on-disk length of the entry at the start of `raw`, from its name length.
    pub open spec fn spec_get_length(raw: Seq<u8>, has_ftype: bool) -> int {
        if has_ftype {
            ((raw[8] + 19) / 8) * 8
        } else {
            ((raw[8] + 18) / 8) * 8
        }
    }

    pub fn get_length(has_ftype: bool, raw: &[u8]) -> (r: i64)
        requires
            raw@.len() >= 9,
        ensures
            r == Self::spec_get_length(raw@, has_ftype),
    {
        let namelen: u8 = raw[8];
        if has_ftype {
            ((namelen as i64 + 19) / 8) * 8
        } else {
            ((namelen as i64 + 18) / 8) * 8
        }
    }

    /// Decode the entry at offset `ofs` of `raw`, and return its length.
    pub fn decode(raw: &[u8], ofs: usize, has_ftype: bool) -> (r: Result<(Dir2DataEntry, usize), ParseError>)
        ensures
            r is Ok <==> spec_entry(raw@, ofs as int, has_ftype) is Some,
            r matches Ok((e, n)) ==> entry_is(e, spec_entry(raw@, ofs as int, has_ftype).unwrap())
                && n == spec_entry(raw@, ofs as int, has_ftype).unwrap().4,
    {
        let len: usize = raw.len();
        if ofs > len || len - ofs < 9 {
            return Err(ParseError::UnexpectedEnd);
        }
        let inumber = match decode_u64(raw, ofs) {
            Ok(v) => v,
            Err(e) => return Err(e),
        };
        let n: usize = raw[ofs + 8] as usize;
        let rel: usize = if has_ftype {
            10 + n + (260 - n) % 8
        } else {
            9 + n + (261 - n) % 8
        };
        if len - ofs < rel + 2 {
            return Err(ParseError::UnexpectedEnd);
        }
        let t: usize = ofs + rel;
        let name: Vec<u8> = vstd::slice::slice_to_vec(vstd::slice::slice_subrange(raw, ofs + 9, ofs + 9 + n));
        let ftype: Option<u8> = if has_ftype {
            Some(raw[ofs + 9 + n])
        } else {
            None
        };
        let tag = match decode_u16(raw, t) {
            Ok(v) => v,
            Err(e) => return Err(e),
        };
        Ok((Dir2DataEntry { inumber, name, ftype, tag }, t + 2 - ofs))
    }
}

/// An unused region of a directory data block.
#[derive(Debug, Clone, Copy, PartialEq, Eq, Structural)]
pub struct Dir2DataUnused {
    pub freetag: u16,
    pub length: XfsDir2DataOff,
    pub tag: XfsDir2DataOff,
}

impl Dir2DataUnused {
    /// Decode the unused region at offset `ofs` of `raw`, and return its length.  A region is at
    /// least 6 bytes long: its free tag, its length, and its tag at the end.
    pub fn decode(raw: &[u8], ofs: usize) -> (r: Result<(Dir2DataUnused, usize), ParseError>)
        ensures
            r matches Ok((u, n)) ==> ({
                &&& ofs + 4 <= raw@.len()
                &&& u.freetag as int == be16(raw@, ofs as int)
                &&& u.length as int == be16(raw@, ofs + 2)
                &&& n == u.length
                &&& 6 <= n
                &&& ofs + n <= raw@.len()
                &&& u.tag as int == be16(raw@, ofs + n - 2)
            }),
            r is Err ==> ofs + 4 > raw@.len() || be16(raw@, ofs + 2) < 6 || ofs + be16(raw@, ofs + 2)
                > raw@.len(),
    {
        let len: usize = raw.len();
        let freetag = match decode_u16(raw, ofs) {
            Ok(v) => v,
            Err(e) => return Err(e),
        };
        let length = match decode_u16(raw, ofs + 2) {
            Ok(v) => v,
            Err(e) => return Err(e),
        };
        if length < 6 {
            return Err(ParseError::InvalidValue);
        }
        if length as usize > len - ofs {
            return Err(ParseError::UnexpectedEnd);
        }
        let tag = match decode_u16(raw, ofs + length as usize - 2) {
            Ok(v) => v,
            Err(e) => return Err(e),
        };
        Ok((Dir2DataUnused { freetag, length, tag }, length as usize))
    }
}

/// The header of a version 4 leaf block.
#[derive(Debug, Clone, Copy, PartialEq, Eq, Structural)]
pub struct Dir2LeafHdr {
    pub info: XfsDaBlkinfo,
    pub count: u16,
    pub stale: u16,
}

/// The header of a version 5 leaf block.
#[derive(Debug, Clone, Copy, PartialEq, Eq, Structural)]
pub struct Dir3LeafHdr {
    pub info: XfsDa3Blkinfo,
    pub count: u16,
    pub stale: u16,
    pub pad: u32,
}

impl Dir3LeafHdr {
    pub fn decode(raw: &[u8], uuid: Uuid) -> (r: Result<Dir3LeafHdr, ParseError>)
        ensures
            r is Ok <==> raw@.len() >= 64 && spec_da3_blkinfo(raw@, uuid) is Ok,
            r matches Ok(h) ==> raw@.len() >= 64 && h.info == spec_da3_blkinfo(raw@, uuid).unwrap()
                && h.count as int == be16(raw@, 56) && h.stale as int == be16(raw@, 58) && h.pad as int
                == be32(raw@, 60),
    {
        if raw.len() < 64 {
            return Err(ParseError::UnexpectedEnd);
        }
        let info = match XfsDa3Blkinfo::decode(raw, uuid) {
            Ok(v) => v,
            Err(e) => return Err(e),
        };
        let count = match decode_u16(raw, 56) {
            Ok(v) => v,
            Err(e) => return Err(e),
        };
        let stale = match decode_u16(raw, 58) {
            Ok(v) => v,
            Err(e) => return Err(e),
        };
        let pad = match decode_u32(raw, 60) {
            Ok(v) => v,
            Err(e) => return Err(e),
        };
        Ok(Dir3LeafHdr { info, count, stale, pad })
    }
}

/// A leaf entry: a name hash and the address, in 8-byte units, of the entry with that name.
#[derive(Clone, Copy, Debug, PartialEq, Eq, Structural)]
pub struct Dir2LeafEntry {
    pub hashval: XfsDahash,
    pub address: XfsDir2Dataptr,
}

impl Dir2LeafEntry {
    /// On-disk size in bytes
    pub const SIZE: usize = 8;

    pub fn decode(raw: &[u8], ofs: usize) -> (r: Result<Dir2LeafEntry, ParseError>)
        ensures
            r is Ok <==> ofs + 8 <= raw@.len(),
            r matches Ok(e) ==> e.hashval as int == be32(raw@, ofs as int) && e.address as int
                == be32(raw@, ofs + 4),
    {
        let len: usize = raw.len();
        let hashval = match decode_u32(raw, ofs) {
            Ok(v) => v,
            Err(e) => return Err(e),
        };
        let address = match decode_u32(raw, ofs + 4) {
            Ok(v) => v,
            Err(e) => return Err(e),
        };
        Ok(Dir2LeafEntry { hashval, address })
    }
}

/// Leaf entries ordered by hash.
pub open spec fn leaf_sorted(s: Seq<Dir2LeafEntry>) -> bool {
    forall|i: int, j: int| 0 <= i <= j < s.len() ==> s[i].hashval <= s[j].hashval
}

/// The number of leading entries whose hash is below `hash`.
pub open spec fn leaf_lb(s: Seq<Dir2LeafEntry>, hash: u32) -> nat
    decreases s.len(),
{
    if s.len() == 0 || s[0].hashval >= hash {
        0
    } else {
        1 + leaf_lb(s.drop_first(), hash)
    }
}

/// The number of leading entries whose hash is at most `hash`.
pub open spec fn leaf_ub(s: Seq<Dir2LeafEntry>, hash: u32) -> nat
    decreases s.len(),
{
    if s.len() == 0 || s[0].hashval > hash {
        0
    } else {
        1 + leaf_ub(s.drop_first(), hash)
    }
}

proof fn lemma_leaf_lb(s: Seq<Dir2LeafEntry>, hash: u32, p: int)
    requires
        0 <= p <= s.len(),
        forall|i: int| 0 <= i < p ==> #[trigger] s[i].hashval < hash,
        forall|i: int| p <= i < s.len() ==> #[trigger] s[i].hashval >= hash,
    ensures
        leaf_lb(s, hash) == p,
    decreases s.len(),
{
    if s.len() > 0 && s[0].hashval < hash {
        let t = s.drop_first();
        assert forall|i: int| 0 <= i < p - 1 implies #[trigger] t[i].hashval < hash by {
            assert(t[i] == s[i + 1]);
        }
        assert forall|i: int| p - 1 <= i < t.len() implies #[trigger] t[i].hashval >= hash by {
            assert(t[i] == s[i + 1]);
        }
        lemma_leaf_lb(t, hash, p - 1);
    }
}

proof fn lemma_leaf_ub(s: Seq<Dir2LeafEntry>, hash: u32, p: int)
    requires
        0 <= p <= s.len(),
        forall|i: int| 0 <= i < p ==> #[trigger] s[i].hashval <= hash,
        forall|i: int| p <= i < s.len() ==> #[trigger] s[i].hashval > hash,
    ensures
        leaf_ub(s, hash) == p,
    decreases s.len(),
{
    if s.len() > 0 && s[0].hashval <= hash {
        let t = s.drop_first();
        assert forall|i: int| 0 <= i < p - 1 implies #[trigger] t[i].hashval <= hash by {
            assert(t[i] == s[i + 1]);
        }
        assert forall|i: int| p - 1 <= i < t.len() implies #[trigger] t[i].hashval > hash by {
            assert(t[i] == s[i + 1]);
        }
        lemma_leaf_ub(t, hash, p - 1);
    }
}

/// The range of indices of the leaf entries whose hash is `hash`: from a binary search for
/// the first entry whose hash is not below it, up to the first entry after that whose hash is
/// above it.  Over sorted entries this is exactly the entries with that hash; over others the
/// binary search, as std's `partition_point`, lands on an unspecified index.
pub fn hash_range(ents: &[Dir2LeafEntry], hash: XfsDahash) -> (r: core::ops::Range<usize>)
    ensures
        r.start <= r.end <= ents@.len(),
        leaf_sorted(ents@) ==> r.start == leaf_lb(ents@, hash) && r.end == leaf_ub(ents@, hash),
        forall|k: int| r.start <= k < r.end ==> #[trigger] ents@[k].hashval <= hash,
        r.end < ents@.len() ==> ents@[r.end as int].hashval > hash,
{
    let l: usize = ents.len();
    let mut lo: usize = 0;
    let mut hi: usize = l;
    while lo < hi
        invariant
            0 <= lo <= hi <= ents@.len(),
            leaf_sorted(ents@) ==> forall|i: int| 0 <= i < lo ==> #[trigger] ents@[i].hashval < hash,
            leaf_sorted(ents@) ==> forall|i: int| hi <= i < ents@.len() ==> #[trigger] ents@[i].hashval >= hash,
        decreases hi - lo,
    {
        let mid: usize = lo + (hi - lo) / 2;
        if ents[mid].hashval < hash {
            proof {
                if leaf_sorted(ents@) {
                    assert forall|i: int| 0 <= i < mid + 1 implies #[trigger] ents@[i].hashval < hash by {
                        assert(ents@[i].hashval <= ents@[mid as int].hashval);
                    }
                }
            }
            lo = mid + 1;
        } else {
            proof {
                if leaf_sorted(ents@) {
                    assert forall|i: int| mid <= i < ents@.len() implies #[trigger] ents@[i].hashval >= hash by {
                        assert(ents@[mid as int].hashval <= ents@[i].hashval);
                    }
                }
            }
            hi = mid;
        }
    }
    proof {
        if leaf_sorted(ents@) {
            lemma_leaf_lb(ents@, hash, lo as int);
        }
    }
    let i: usize = lo;
    let mut j: usize = i;
    while j < l && ents[j].hashval <= hash
        invariant
            i <= j <= l,
            l == ents@.len(),
            leaf_sorted(ents@) ==> forall|k: int| 0 <= k < i ==> #[trigger] ents@[k].hashval < hash,
            forall|k: int| i <= k < j ==> #[trigger] ents@[k].hashval <= hash,
        decreases l - j,
    {
        j = j + 1;
    }
    proof {
        if leaf_sorted(ents@) {
            assert forall|k: int| j <= k < ents@.len() implies #[trigger] ents@[k].hashval > hash by {
                assert(ents@[j as int].hashval <= ents@[k].hashval);
            }
            assert forall|k: int| 0 <= k < j implies #[trigger] ents@[k].hashval <= hash by {
                if k < i {
                    assert(ents@[k].hashval < hash);
                }
            }
            lemma_leaf_ub(ents@, hash, j as int);
        }
    }
    i..j
}

/// A leaf block of a Node or B+tree directory (or, for Leaf directories, the single leaf).
#[derive(Debug)]
pub struct Dir2LeafNDisk {
    pub forw: u32,
    pub ents: Vec<Dir2LeafEntry>,
}

/// Whether a leaf block's magic number marks a version 4 or a version 5 block that is accepted:
/// "leafn" blocks, and single-leaf blocks if `allow_leaf1`.
pub open spec fn leafn_magic(magic: int, allow_leaf1: bool) -> (bool, bool) {
    (
        magic == XFS_DIR2_LEAFN_MAGIC || (allow_leaf1 && magic == XFS_DIR2_LEAF1_MAGIC),
        magic == XFS_DIR3_LEAFN_MAGIC || (allow_leaf1 && magic == XFS_DIR3_LEAF1_MAGIC),
    )
}

/// Where a leaf block's entries start, after its version 4 or version 5 header.
pub open spec fn leafn_base(raw: Seq<u8>) -> int {
    if be16(raw, 8) == XFS_DIR2_LEAFN_MAGIC || be16(raw, 8) == XFS_DIR2_LEAF1_MAGIC {
        16
    } else {
        64
    }
}

/// The number of entries that the header of the leaf block in `raw` counts.
pub open spec fn leafn_count(raw: Seq<u8>) -> int {
    if leafn_base(raw) == 16 {
        be16(raw, 12)
    } else {
        be16(raw, 56)
    }
}

/// The entries of the leaf block in `raw`, as many as its header counts.
pub open spec fn leafn_entries(raw: Seq<u8>) -> Seq<Dir2LeafEntry> {
    let base = leafn_base(raw);
    Seq::new(
        leafn_count(raw) as nat,
        |i: int| Dir2LeafEntry { hashval: be32(raw, base + 8 * i) as u32, address: be32(raw, base + 8 * i + 4) as u32 },
    )
}

/// Whether `raw` holds a leaf block that is accepted: a version 4 header, or a version 5
/// header that names the file system whose UUID is `uuid`; all the entries it counts, in hash
/// order.
pub open spec fn leafn_ok(raw: Seq<u8>, uuid: Uuid, allow_leaf1: bool) -> bool {
    &&& raw.len() >= 10
    &&& {
        let (v4, v5) = leafn_magic(be16(raw, 8), allow_leaf1);
        &&& v4 ==> raw.len() >= 16
        &&& v5 ==> raw.len() >= 64 && spec_da3_blkinfo(raw, uuid) is Ok
        &&& v4 || v5
        &&& leafn_base(raw) + 8 * leafn_count(raw) <= raw.len()
    }
}

impl Dir2LeafNDisk {
    /// Return the range of entry indices that include the given hash, as `hash_range` finds
    /// it.
    pub fn get_address_range(&self, hash: XfsDahash) -> (r: core::ops::Range<usize>)
        ensures
            r.start <= r.end <= self.ents@.len(),
            leaf_sorted(self.ents@) ==> r.start == leaf_lb(self.ents@, hash) && r.end == leaf_ub(
                self.ents@,
                hash,
            ),
            forall|k: int| r.start <= k < r.end ==> #[trigger] self.ents@[k].hashval <= hash,
            r.end < self.ents@.len() ==> self.ents@[r.end as int].hashval > hash,
    {
        hash_range(self.ents.as_slice(), hash)
    }

    /// Decode a leaf block.  Version 4 and 5 "leafn" blocks are accepted, and single-leaf
    /// ("leaf1") blocks too if `allow_leaf1`.
    pub fn decode(raw: &[u8], uuid: Uuid, allow_leaf1: bool) -> (r: Result<Dir2LeafNDisk, ParseError>)
        ensures
            r is Ok <==> leafn_ok(raw@, uuid, allow_leaf1),
            r matches Ok(l) ==> ({
                &&& l.forw as int == be32(raw@, 0)
                &&& l.ents@ == leafn_entries(raw@)
            }),
            raw@.len() >= 10 && !leafn_magic(be16(raw@, 8), allow_leaf1).0 && !leafn_magic(
                be16(raw@, 8),
                allow_leaf1,
            ).1 ==> r == Err::<Dir2LeafNDisk, ParseError>(ParseError::BadMagic),
    {
        let magic = match decode_u16(raw, 8) {
            Ok(v) => v,
            Err(e) => return Err(e),
        };
        let v4: bool = magic == XFS_DIR2_LEAFN_MAGIC || (allow_leaf1 && magic
            == XFS_DIR2_LEAF1_MAGIC);
        let v5: bool = magic == XFS_DIR3_LEAFN_MAGIC || (allow_leaf1 && magic
            == XFS_DIR3_LEAF1_MAGIC);
        let (count, forw, base) = if v4 {
            let info = match XfsDaBlkinfo::decode(raw) {
                Ok(v) => v,
                Err(e) => return Err(e),
            };
            let count = match decode_u16(raw, 12) {
                Ok(v) => v,
                Err(e) => return Err(e),
            };
            let _stale = match decode_u16(raw, 14) {
                Ok(v) => v,
                Err(e) => return Err(e),
            };
            (count, info.forw, 16usize)
        } else if v5 {
            let hdr = match Dir3LeafHdr::decode(raw, uuid) {
                Ok(v) => v,
                Err(e) => return Err(e),
            };
            (hdr.count, hdr.info.forw, 64usize)
        } else {
            return Err(ParseError::BadMagic);
        };
        let n: usize = count as usize;
        let mut ents: Vec<Dir2LeafEntry> = Vec::new();
        let mut i: usize = 0;
        while i < n
            invariant
                0 <= i <= n,
                n <= 0xffff,
                raw@.len() >= 16,
                magic as int == be16(raw@, 8),
                v4 == (magic == XFS_DIR2_LEAFN_MAGIC || (allow_leaf1 && magic
                    == XFS_DIR2_LEAF1_MAGIC)),
                v5 == (magic == XFS_DIR3_LEAFN_MAGIC || (allow_leaf1 && magic
                    == XFS_DIR3_LEAF1_MAGIC)),
                v4 || v5,
                base == if v4 {
                    16usize
                } else {
                    64usize
                },
                forw as int == be32(raw@, 0),
                n as int == be16(raw@, if v4 {
                    12int
                } else {
                    56int
                }),
                ents@.len() == i,
                v5 ==> raw@.len() >= 64 && spec_da3_blkinfo(raw@, uuid) is Ok,
                base + 8 * i <= raw@.len(),
                base as int == leafn_base(raw@),
                ents@ == leafn_entries(raw@).subrange(0, i as int),
            decreases n - i,
        {
            let e = match Dir2LeafEntry::decode(raw, base + 8 * i) {
                Ok(e) => e,
                Err(e) => return Err(e),
            };
            proof {
                assert(leafn_entries(raw@)[i as int] == e);
            }
            proof {
                assert(leafn_entries(raw@).subrange(0, i + 1) =~= leafn_entries(raw@).subrange(0, i as int).push(e));
            }
            ents.push(e);
            i = i + 1;
        }
        proof {
            assert(leafn_entries(raw@).subrange(0, n as int) =~= leafn_entries(raw@));
        }
        Ok(Dir2LeafNDisk { forw, ents })
    }
}

/// The "leaf" info (the hash => address map) of a Leaf, Node or B+tree directory, as found in
/// its first leaf block: the leaf entries themselves, or the root of a dabtree over them.
#[derive(Debug)]
pub enum Leaf {
    LeafN(Dir2LeafNDisk),
    /// A Btree.  Used for BTree directories and Node directories with > 1 Leaf blocks
    Btree(XfsDa3Intnode),
}

impl Leaf {
    /// Interpret the first leaf block of a directory by its magic number: the root of a
    /// dabtree over the leaf blocks, or a leaf block itself.
    pub fn open(raw: &[u8], uuid: Uuid) -> (r: Result<Leaf, ParseError>)
        ensures
            raw@.len() < 10 ==> r == Err::<Leaf, ParseError>(ParseError::UnexpectedEnd),
            raw@.len() >= 10 ==> ({
                let magic = be16(raw@, 8);
                if magic == XFS_DA_NODE_MAGIC || magic == XFS_DA3_NODE_MAGIC {
                    &&& r is Ok <==> da_node_ok(raw@, uuid)
                    &&& r is Ok ==> (r matches Ok(Leaf::Btree(n)) && n.wf() && n.magic == magic
                        && n.level as int == be16(raw@, node_hdr_len(n.magic) - 2) && n.btree@
                        == da_entries(raw@))
                } else if leafn_magic(magic, true).0 || leafn_magic(magic, true).1 {
                    &&& r is Ok <==> leafn_ok(raw@, uuid, true)
                    &&& r is Ok ==> (r matches Ok(Leaf::LeafN(l)) && l.forw as int == be32(
                        raw@,
                        0,
                    ) && l.ents@ == leafn_entries(raw@))
                } else {
                    r == Err::<Leaf, ParseError>(ParseError::BadMagic)
                }
            }),
    {
        let magic = match decode_u16(raw, 8) {
            Ok(v) => v,
            Err(e) => return Err(e),
        };
        if magic == XFS_DA_NODE_MAGIC || magic == XFS_DA3_NODE_MAGIC {
            match XfsDa3Intnode::decode(raw, uuid) {
                Ok(n) => Ok(Leaf::Btree(n)),
                Err(e) => Err(e),
            }
        } else if magic == XFS_DIR2_LEAFN_MAGIC || magic == XFS_DIR3_LEAFN_MAGIC || magic
            == XFS_DIR2_LEAF1_MAGIC || magic == XFS_DIR3_LEAF1_MAGIC {
            match Dir2LeafNDisk::decode(raw, uuid, true) {
                Ok(l) => Ok(Leaf::LeafN(l)),
                Err(e) => Err(e),
            }
        } else {
            Err(ParseError::BadMagic)
        }
    }
}

/// What the address iterator yields next.
#[derive(Debug, Clone, Copy, PartialEq, Eq, Structural)]
pub enum AddressStep {
    /// The byte address, within the directory, of an entry with the sought hash.
    Address(XfsDir2Dataptr),
    /// Entries with the sought hash may continue in the next leaf block, the directory block
    /// given here: read and decode it, and hand it to `follow`.
    Forward(XfsDablk),
    /// No more entries have the sought hash.
    Done,
}

/// Iterates through all the addresses of entries with a given hash, through a chain of leaf
/// blocks.  Colliding hashes can be split across leaf blocks; following them needs the next
/// block, which the caller reads.
#[derive(Debug)]
pub struct NodeLikeAddressIterator {
    pub hash: XfsDahash,
    pub leaf: Dir2LeafNDisk,
    pub start: usize,
    pub end: usize,
}

impl NodeLikeAddressIterator {
    /// The range lies within the leaf; in a sorted leaf, its entries have the sought hash.
    pub open spec fn wf(&self) -> bool {
        &&& self.start <= self.end <= self.leaf.ents@.len()
        &&& leaf_sorted(self.leaf.ents@) ==> forall|i: int|
            self.start <= i < self.end ==> #[trigger] self.leaf.ents@[i].hashval == self.hash
    }

    /// Start iterating over the entries of `leaf` whose hash is `hash`, those of the range
    /// that `get_address_range` gives.
    pub fn new(leaf: Dir2LeafNDisk, hash: XfsDahash) -> (r: NodeLikeAddressIterator)
        ensures
            r.wf(),
            r.hash == hash,
            r.leaf == leaf,
            r.end < leaf.ents@.len() ==> leaf.ents@[r.end as int].hashval > hash,
            forall|k: int| r.start <= k < r.end ==> #[trigger] leaf.ents@[k].hashval <= hash,
            leaf_sorted(leaf.ents@) ==> r.start == leaf_lb(leaf.ents@, hash) && r.end == leaf_ub(
                leaf.ents@,
                hash,
            ),
    {
        let range = leaf.get_address_range(hash);
        proof {
            if leaf_sorted(leaf.ents@) {
                assert forall|i: int| range.start <= i < range.end implies #[trigger] leaf.ents@[i].hashval == hash by {
                    lemma_leaf_range(leaf.ents@, hash, i);
                }
            }
        }
        NodeLikeAddressIterator { hash, leaf, start: range.start, end: range.end }
    }

    /// The next address, or the next leaf block to read, or the end.
    pub fn next(&mut self) -> (r: AddressStep)
        requires
            old(self).wf(),
        ensures
            final(self).wf(),
            final(self).hash == old(self).hash,
            old(self).start < old(self).end ==> r == AddressStep::Address(
                old(self).leaf.ents@[old(self).start as int].address << 3,
            ) && final(self).start == old(self).start + 1 && final(self).end == old(self).end
                && final(self).leaf == old(self).leaf,
            old(self).start >= old(self).end ==> ({
                let ents = old(self).leaf.ents@;
                &&& ents.len() > 0 && ents.last().hashval == old(self).hash ==> r
                    == AddressStep::Forward(old(self).leaf.forw)
                &&& !(ents.len() > 0 && ents.last().hashval == old(self).hash) ==> r
                    == AddressStep::Done
                &&& *final(self) == *old(self)
            }),
    {
        if self.start < self.end {
            let i: usize = self.start;
            self.start = self.start + 1;
            let ent = self.leaf.ents[i];
            AddressStep::Address(ent.address << 3)
        } else {
            let l: usize = self.leaf.ents.len();
            if l > 0 && self.leaf.ents[l - 1].hashval == self.hash {
                // There was a probably hash collision in the directory.  Tragically, the
                // colliding entries were located in different leaf blocks.
                AddressStep::Forward(self.leaf.forw)
            } else {
                AddressStep::Done
            }
        }
    }

    /// Continue in `leaf`, the leaf block that `next` asked for.
    pub fn follow(&mut self, leaf: Dir2LeafNDisk)
        requires
            old(self).wf(),
        ensures
            final(self).wf(),
            final(self).hash == old(self).hash,
            final(self).leaf == leaf,
            final(self).end < leaf.ents@.len() ==> leaf.ents@[final(self).end as int].hashval
                > old(self).hash,
            forall|k: int|
                final(self).start <= k < final(self).end ==> #[trigger] leaf.ents@[k].hashval
                    <= old(self).hash,
            leaf_sorted(leaf.ents@) ==> final(self).start == leaf_lb(leaf.ents@, old(self).hash)
                && final(self).end == leaf_ub(leaf.ents@, old(self).hash),
    {
        let hash = self.hash;
        *self = NodeLikeAddressIterator::new(leaf, hash);
    }
}

/// Where an entry address points: the directory block (in file system block units) that holds
/// it, and the byte offset within that directory block.
pub open spec fn spec_address_to_dblock(blocklog: u8, dirblklog: u8, address: u32) -> (u32, u32) {
    (
        (address >> blocklog) & !(((1u32 << dirblklog) - 1) as u32),
        address & (((1u32 << (dirblklog + blocklog) as u32) - 1) as u32),
    )
}

/// Split a byte address within a directory into its directory block and offset.
pub fn address_to_dblock(blocklog: u8, dirblklog: u8, address: XfsDir2Dataptr) -> (r: (XfsDablk, usize))
    requires
        dirblklog + blocklog < 32,
    ensures
        r.0 == spec_address_to_dblock(blocklog, dirblklog, address).0,
        r.1 == spec_address_to_dblock(blocklog, dirblklog, address).1,
{
    let sh: u32 = (dirblklog + blocklog) as u32;
    let d: u32 = dirblklog as u32;
    assert(1u32 << sh >= 1) by (bit_vector)
        requires
            sh < 32,
    ;
    assert(1u32 << d >= 1) by (bit_vector)
        requires
            d < 32,
    ;
    let blk_offset: u32 = address & ((1u32 << sh) - 1);
    let dblock: u32 = (address >> blocklog) & !((1u32 << d) - 1);
    (dblock, blk_offset as usize)
}

/// If the entry at `blk_offset` of the directory block `raw` is named `name`, its inode number.
pub fn lookup_entry(raw: &[u8], blk_offset: usize, has_ftype: bool, name: &[u8]) -> (r: Result<
    Option<XfsIno>,
    ParseError,
>)
    ensures
        r is Ok <==> spec_entry(raw@, blk_offset as int, has_ftype) is Some,
        r matches Ok(o) ==> ({
            let e = spec_entry(raw@, blk_offset as int, has_ftype).unwrap();
            o == if e.1 == name@ {
                Some(e.0)
            } else {
                None::<u64>
            }
        }),
{
    match Dir2DataEntry::decode(raw, blk_offset, has_ftype) {
        Ok((entry, _)) => {
            if bytes_eq(entry.name.as_slice(), name) {
                Ok(Some(entry.inumber))
            } else {
                Ok(None)
            }
        },
        Err(e) => Err(e),
    }
}

/// The byte offset in a directory data block `raw` at which scanning for entries starts:
/// `within`, the offset of the last entry returned, or if that is zero the end of the block
/// header, whose size depends on the block's magic number (`None` for an unknown one).
pub open spec fn spec_data_start(raw: Seq<u8>, within: int) -> Option<int> {
    if within > 0 {
        Some(within)
    } else if raw.len() < 4 {
        None
    } else {
        let m = be32(raw, 0);
        if m == XFS_DIR2_BLOCK_MAGIC || m == XFS_DIR2_DATA_MAGIC {
            Some(16)
        } else if m == XFS_DIR3_BLOCK_MAGIC || m == XFS_DIR3_DATA_MAGIC {
            Some(64)
        } else {
            None
        }
    }
}

/// Where scanning the directory data block `raw` for entries starts, as `spec_data_start`
/// says.
pub fn data_start(raw: &[u8], within: u64) -> (r: Result<usize, ParseError>)
    requires
        within <= usize::MAX,
    ensures
        r is Ok <==> spec_data_start(raw@, within as int) is Some,
        r matches Ok(b) ==> b == spec_data_start(raw@, within as int).unwrap(),
{
    if within > 0 {
        return Ok(within as usize);
    }
    let magic = match decode_u32(raw, 0) {
        Ok(v) => v,
        Err(e) => return Err(e),
    };
    if magic == XFS_DIR2_BLOCK_MAGIC || magic == XFS_DIR2_DATA_MAGIC {
        Ok(Dir2DataHdr::SIZE as usize)
    } else if magic == XFS_DIR3_BLOCK_MAGIC || magic == XFS_DIR3_DATA_MAGIC {
        Ok(Dir3DataHdr::SIZE as usize)
    } else {
        Err(ParseError::BadMagic)
    }
}

/// The length of the entry at byte `blk`, from its name length.
pub open spec fn entry_len_at(raw: Seq<u8>, blk: int, has_ftype: bool) -> int {
    if has_ftype {
        ((raw[blk + 8] + 19) / 8) * 8
    } else {
        ((raw[blk + 8] + 18) / 8) * 8
    }
}

/// Where a scan of a directory data block stopped.
pub enum ScanOutcome {
    /// At the entry that starts at this byte of the block.
    Found(int),
    /// At the end of the region scanned, at this directory offset, and whether the next entry
    /// is to be returned.
    End(int, bool),
    /// The buffer ended before the region scanned did.
    Short,
    /// A malformed entry or unused region.
    Bad,
}

/// The scan of the data block `raw` from byte `blk` (directory offset `offset`) up to byte
/// `limit`: unused regions are skipped; if `next` is false, the first entry is skipped too (it
/// is the one returned last time); the first entry after that is the result.
pub open spec fn spec_scan(
    raw: Seq<u8>,
    limit: int,
    blk: int,
    offset: int,
    next: bool,
    has_ftype: bool,
) -> ScanOutcome
    decreases limit + 0x10000 - blk,
{
    if blk >= limit {
        ScanOutcome::End(offset, next)
    } else if blk >= raw.len() {
        ScanOutcome::Short
    } else if blk + 4 > raw.len() {
        ScanOutcome::Bad
    } else if be16(raw, blk) == 0xffff {
        let len = be16(raw, blk + 2);
        if len < 6 || blk + len > raw.len() {
            ScanOutcome::Bad
        } else {
            spec_scan(raw, limit, blk + len, offset + len, next, has_ftype)
        }
    } else if !next {
        if blk + 9 > raw.len() {
            ScanOutcome::Bad
        } else {
            let len = entry_len_at(raw, blk, has_ftype);
            spec_scan(raw, limit, blk + len, offset + len, true, has_ftype)
        }
    } else if spec_entry(raw, blk, has_ftype) is None {
        ScanOutcome::Bad
    } else {
        ScanOutcome::Found(blk)
    }
}

/// The result of scanning a directory data block for the next entry.
#[derive(Debug)]
pub enum DirNext {
    /// The next entry: its inode number, its directory offset, its file type if the file system
    /// records one, and its name.
    Entry(XfsIno, i64, Option<FileType>, Vec<u8>),
    /// No entry before the end of the region: continue at this directory offset, returning the
    /// next entry if the flag is set.
    EndOfBlock(u64, bool),
}

/// What `scan_block` returns, for the outcome `o` of a scan: the entry found, the position at
/// which the scan ended, or the error.  Entry tags are relative to the block's directory offset
/// `doffset`.
pub open spec fn scan_result(
    raw: Seq<u8>,
    o: ScanOutcome,
    doffset: int,
    has_ftype: bool,
    r: Result<DirNext, i32>,
) -> bool {
    match o {
        ScanOutcome::End(o, n) => r matches Ok(DirNext::EndOfBlock(ro, rn)) && ro == o && rn == n,
        ScanOutcome::Short => r == Err::<DirNext, i32>(ENOENT),
        ScanOutcome::Bad => r == Err::<DirNext, i32>(EIO),
        ScanOutcome::Found(b) => {
            let e = spec_entry(raw, b, has_ftype).unwrap();
            match e.2 {
                Some(t) if spec_file_type(FileKind::Type(t)) is None => r == Err::<DirNext, i32>(
                    ENOENT,
                ),
                _ => r matches Ok(DirNext::Entry(ino, eo, kind, name)) && ino == e.0 && eo
                    == doffset + e.3 && name@ == e.1 && kind == match e.2 {
                    Some(t) => spec_file_type(FileKind::Type(t)),
                    None => None::<FileType>,
                },
            }
        },
    }
}

/// One step of a scan: move on by a number of bytes (with the new value of the flag that says
/// whether the next entry is to be returned), or stop with a result.
enum ScanStep {
    Advance(usize, bool),
    Done(Result<DirNext, i32>),
}

/// Look at the region that starts at byte `blk` of a data block, short of the scan's limit.
fn scan_step(raw: &[u8], limit: usize, blk: usize, offset: u64, doffset: u64, next: bool, has_ftype: bool) -> (r: ScanStep)
    requires
        blk < limit,
        limit + 0x10000 <= usize::MAX,
        doffset + 0x10000 <= i64::MAX,
    ensures
        r matches ScanStep::Advance(n, nx) ==> 0 < n <= 0x10000 && spec_scan(
            raw@,
            limit as int,
            blk as int,
            offset as int,
            next,
            has_ftype,
        ) == spec_scan(raw@, limit as int, blk + n, offset + n, nx, has_ftype),
        r matches ScanStep::Done(res) ==> scan_result(
            raw@,
            spec_scan(raw@, limit as int, blk as int, offset as int, next, has_ftype),
            doffset as int,
            has_ftype,
            res,
        ),
{
    let len: usize = raw.len();
    if blk >= len {
        return ScanStep::Done(Err(ENOENT));
    }
    if len - blk < 4 {
        return ScanStep::Done(Err(EIO));
    }
    let freetag: u16 = match decode_u16(raw, blk) {
        Ok(v) => v,
        Err(_) => return ScanStep::Done(Err(EIO)),
    };
    if freetag == 0xffff {
        match Dir2DataUnused::decode(raw, blk) {
            Ok((_, length)) => ScanStep::Advance(length, next),
            Err(_) => ScanStep::Done(Err(EIO)),
        }
    } else if !next {
        if len - blk < 9 {
            return ScanStep::Done(Err(EIO));
        }
        let length: i64 = Dir2DataEntry::get_length(has_ftype, vstd::slice::slice_subrange(raw, blk, len));
        proof {
            assert(raw@.subrange(blk as int, len as int)[8] == raw@[blk + 8]);
        }
        ScanStep::Advance(length as usize, true)
    } else {
        let (entry, _) = match Dir2DataEntry::decode(raw, blk, has_ftype) {
            Ok(x) => x,
            Err(_) => return ScanStep::Done(Err(EIO)),
        };
        let kind: Option<FileType> = match entry.ftype {
            Some(ftype) => match get_file_type(FileKind::Type(ftype)) {
                Ok(k) => Some(k),
                Err(e) => return ScanStep::Done(Err(e)),
            },
            None => None,
        };
        let entry_offset: u64 = doffset + entry.tag as u64;
        ScanStep::Done(Ok(DirNext::Entry(entry.inumber, entry_offset as i64, kind, entry.name)))
    }
}

/// Scan the directory data block `raw`, starting at byte `blk` which is directory offset
/// `offset`, for the next entry, up to byte `limit`.  `doffset` is the directory offset of the
/// block, to which entry tags are relative.  A buffer that ends before `limit` gives ENOENT, a
/// malformed block EIO, and an entry of an unknown file type ENOENT.
pub fn scan_block(
    raw: &[u8],
    limit: usize,
    blk: usize,
    offset: u64,
    doffset: u64,
    next: bool,
    has_ftype: bool,
) -> (r: Result<DirNext, i32>)
    requires
        limit + 0x10000 <= usize::MAX,
        offset + limit + 0x10000 <= u64::MAX,
        doffset + 0x10000 <= i64::MAX,
    ensures
        scan_result(
            raw@,
            spec_scan(raw@, limit as int, blk as int, offset as int, next, has_ftype),
            doffset as int,
            has_ftype,
            r,
        ),
{
    let mut cur: usize = blk;
    let mut pos: u64 = offset;
    let mut want: bool = next;
    if cur >= limit {
        return Ok(DirNext::EndOfBlock(pos, want));
    }
    while cur < limit
        invariant
            limit + 0x10000 <= usize::MAX,
            doffset + 0x10000 <= i64::MAX,
            blk <= cur,
            pos == offset + (cur - blk),
            offset + limit + 0x10000 <= u64::MAX,
            cur <= limit + 0x10000,
            spec_scan(raw@, limit as int, blk as int, offset as int, next, has_ftype) == spec_scan(
                raw@,
                limit as int,
                cur as int,
                pos as int,
                want,
                has_ftype,
            ),
        decreases limit + 0x10000 - cur,
    {
        match scan_step(raw, limit, cur, pos, doffset, want, has_ftype) {
            ScanStep::Advance(n, nx) => {
                cur = cur + n;
                pos = pos + n as u64;
                want = nx;
            },
            ScanStep::Done(res) => {
                return res;
            },
        }
    }
    Ok(DirNext::EndOfBlock(pos, want))
}

/// The directory block that holds directory byte offset `offset`, the directory offset of that
/// block, and the offset within it, for directory blocks of `1 << (blocklog + dirblklog)` bytes.
pub fn dir_block_position(blocklog: u8, dirblklog: u8, offset: u64) -> (r: (u64, u64, u64))
    requires
        dirblklog + blocklog < 64,
    ensures
        r.0 == (offset >> blocklog) & !(((1u64 << dirblklog) - 1) as u64),
        r.2 == offset & (((1u64 << (dirblklog + blocklog) as u64) - 1) as u64),
        r.1 == offset - r.2,
{
    let sh: u64 = (dirblklog + blocklog) as u64;
    let d: u64 = dirblklog as u64;
    assert(1u64 << sh >= 1) by (bit_vector)
        requires
            sh < 64,
    ;
    assert(1u64 << d >= 1) by (bit_vector)
        requires
            d < 64,
    ;
    let mask: u64 = (1u64 << sh) - 1;
    let within: u64 = offset & mask;
    assert(offset & mask <= offset) by (bit_vector);
    let dblock: u64 = (offset >> blocklog) & !((1u64 << d) - 1);
    (dblock, offset - within, within)
}

/// The directory offset `offset`'s position: its directory block, the directory offset of that
/// block, and the offset within it (as `dir_block_position` computes them).
pub open spec fn spec_position(blocklog: u8, dirblklog: u8, offset: u64) -> (u64, u64, u64) {
    let within = offset & (((1u64 << (dirblklog + blocklog) as u64) - 1) as u64);
    (
        (offset >> blocklog) & !(((1u64 << dirblklog) - 1) as u64),
        (offset - within) as u64,
        within,
    )
}

/// What reading on from directory offset `offset` gives in the data block `raw` that holds it,
/// scanning up to byte `limit` of the block: the next entry (or, if `next`, the one there), the
/// offset to continue at, or an error.  A block with no known header gives EIO.
pub open spec fn spec_next_in_block(
    raw: Seq<u8>,
    limit: int,
    blocklog: u8,
    dirblklog: u8,
    offset: u64,
    next: bool,
    has_ftype: bool,
    r: Result<DirNext, i32>,
) -> bool {
    let (_, doffset, within) = spec_position(blocklog, dirblklog, offset);
    match spec_data_start(raw, within as int) {
        None => r == Err::<DirNext, i32>(EIO),
        Some(b) => scan_result(
            raw,
            spec_scan(raw, limit, b, offset as int, next, has_ftype),
            doffset as int,
            has_ftype,
            r,
        ),
    }
}

/// Read on from directory offset `offset`, in the directory block `raw` that holds it, of
/// `1 << (blocklog + dirblklog)` bytes: the scan runs to the end of the directory block, and a
/// buffer that ends before it gives ENOENT.  The directory block size must leave room in a
/// `usize` for the scan to step past its end.
pub fn dir3_next_in_block(
    raw: &[u8],
    blocklog: u8,
    dirblklog: u8,
    offset: u64,
    next: bool,
    has_ftype: bool,
) -> (r: Result<DirNext, i32>)
    requires
        dirblklog + blocklog < 31,
        offset + 0x1_0001_0000 <= i64::MAX,
    ensures
        spec_next_in_block(
            raw@,
            (1u64 << (blocklog + dirblklog) as u64) as int,
            blocklog,
            dirblklog,
            offset,
            next,
            has_ftype,
            r,
        ),
{
    let (_, doffset, within) = dir_block_position(blocklog, dirblklog, offset);
    let sh: u64 = (blocklog + dirblklog) as u64;
    assert(1u64 << sh <= 0x4000_0000 && within < 0x4000_0000) by (bit_vector)
        requires
            sh < 31,
            within == offset & (((1u64 << sh) - 1) as u64),
    ;
    let dblksize: u64 = 1u64 << sh;
    let start: usize = match data_start(raw, within) {
        Ok(b) => b,
        Err(_) => return Err(EIO),
    };
    scan_block(raw, dblksize as usize, start, offset, doffset, next, has_ftype)
}

/// Sorted entries from the lower bound of a hash on have at least that hash.
proof fn lemma_leaf_lb_ge(s: Seq<Dir2LeafEntry>, hash: u32)
    requires
        leaf_sorted(s),
    ensures
        forall|k: int| leaf_lb(s, hash) <= k < s.len() ==> #[trigger] s[k].hashval >= hash,
    decreases s.len(),
{
    if s.len() > 0 && s[0].hashval < hash {
        let t = s.drop_first();
        assert(leaf_sorted(t));
        lemma_leaf_lb_ge(t, hash);
        assert forall|k: int| leaf_lb(s, hash) <= k < s.len() implies #[trigger] s[k].hashval
            >= hash by {
            assert(s[k] == t[k - 1]);
        }
    }
}

/// Sorted entries before the upper bound of a hash have at most that hash.
proof fn lemma_leaf_ub_le(s: Seq<Dir2LeafEntry>, hash: u32)
    requires
        leaf_sorted(s),
    ensures
        forall|k: int| 0 <= k < leaf_ub(s, hash) ==> #[trigger] s[k].hashval <= hash,
    decreases s.len(),
{
    if s.len() > 0 && s[0].hashval <= hash {
        let t = s.drop_first();
        assert(leaf_sorted(t));
        lemma_leaf_ub_le(t, hash);
        lemma_leaf_ub_len(s, hash);
        assert forall|k: int| 0 <= k < leaf_ub(s, hash) implies #[trigger] s[k].hashval
            <= hash by {
            if k > 0 {
                assert(s[k] == t[k - 1]);
            }
        }
    }
}

/// The entries that a hash lookup in a sorted leaf yields are exactly those with that hash:
/// those from the lower bound up to the upper bound of the hash.
pub proof fn lemma_leaf_range(s: Seq<Dir2LeafEntry>, hash: u32, i: int)
    requires
        leaf_sorted(s),
        0 <= i < s.len(),
    ensures
        s[i].hashval == hash <==> leaf_lb(s, hash) <= i < leaf_ub(s, hash),
{
    lemma_leaf_lb_ge(s, hash);
    lemma_leaf_ub_le(s, hash);
    lemma_leaf_ub_len(s, hash);
    lemma_leaf_lb_lt(s, hash);
    lemma_leaf_ub_gt(s, hash);
}

/// Entries before the lower bound of a hash are below it.
proof fn lemma_leaf_lb_lt(s: Seq<Dir2LeafEntry>, hash: u32)
    ensures
        leaf_lb(s, hash) <= s.len(),
        forall|k: int| 0 <= k < leaf_lb(s, hash) ==> #[trigger] s[k].hashval < hash,
    decreases s.len(),
{
    if s.len() > 0 && s[0].hashval < hash {
        let t = s.drop_first();
        lemma_leaf_lb_lt(t, hash);
        assert forall|k: int| 0 <= k < leaf_lb(s, hash) implies #[trigger] s[k].hashval < hash by {
            if k > 0 {
                assert(s[k] == t[k - 1]);
            }
        }
    }
}

/// In sorted entries, those from the upper bound of a hash on are above it.
proof fn lemma_leaf_ub_gt(s: Seq<Dir2LeafEntry>, hash: u32)
    requires
        leaf_sorted(s),
    ensures
        forall|k: int| leaf_ub(s, hash) <= k < s.len() ==> #[trigger] s[k].hashval > hash,
    decreases s.len(),
{
    if s.len() > 0 && s[0].hashval <= hash {
        let t = s.drop_first();
        assert(leaf_sorted(t));
        lemma_leaf_ub_gt(t, hash);
        assert forall|k: int| leaf_ub(s, hash) <= k < s.len() implies #[trigger] s[k].hashval > hash by {
            assert(s[k] == t[k - 1]);
        }
    } else if s.len() > 0 {
        assert forall|k: int| leaf_ub(s, hash) <= k < s.len() implies #[trigger] s[k].hashval > hash by {
            assert(s[0].hashval <= s[k].hashval);
        }
    }
}

proof fn lemma_leaf_ub_len(s: Seq<Dir2LeafEntry>, hash: u32)
    ensures
        leaf_ub(s, hash) <= s.len(),
    decreases s.len(),
{
    if s.len() > 0 && s[0].hashval <= hash {
        lemma_leaf_ub_len(s.drop_first(), hash);
    }
}

/// A directory, in any of the forms that directories take.
#[derive(Debug)]
pub enum Directory {
    Sf(Dir2Sf),
    Block(Dir2Block),
    Leaf(Dir2Leaf),
    Node(Dir2Node),
    Btree(Dir2Btree),
    Lf(Dir2Lf),
}

/// The length that `get_length` computes from an entry's name length is the length of the
/// entry that `decode` reads, and a multiple of 8.
pub proof fn lemma_entry_length(raw: Seq<u8>, ofs: int, has_ftype: bool)
    requires
        spec_entry(raw, ofs, has_ftype) is Some,
    ensures
        entry_len_at(raw, ofs, has_ftype) == spec_entry(raw, ofs, has_ftype).unwrap().4,
        entry_len_at(raw, ofs, has_ftype) % 8 == 0,
        ofs == 0 ==> Dir2DataEntry::spec_get_length(raw, has_ftype) == spec_entry(raw, ofs, has_ftype).unwrap().4,
{
    let n: u32 = raw[ofs + 8] as u32;
    if has_ftype {
        assert(12 + n + (260 - n) % 8 == ((n + 19) / 8) * 8 && ((n + 19) / 8) * 8 % 8 == 0) by (bit_vector)
            requires
                n <= 255,
        ;
    } else {
        assert(11 + n + (261 - n) % 8 == ((n + 18) / 8) * 8 && ((n + 18) / 8) * 8 % 8 == 0) by (bit_vector)
            requires
                n <= 255,
        ;
    }
}

/// The bounds of a hash's entries lie within the entries.
pub proof fn lemma_leaf_bounds(s: Seq<Dir2LeafEntry>, hash: u32)
    requires
        leaf_sorted(s),
    ensures
        0 <= leaf_lb(s, hash) <= leaf_ub(s, hash) <= s.len(),
{
    lemma_leaf_lb_lt(s, hash);
    lemma_leaf_ub_len(s, hash);
    lemma_leaf_lb_ge(s, hash);
    lemma_leaf_ub_le(s, hash);
    if leaf_lb(s, hash) > leaf_ub(s, hash) {
        let k = leaf_ub(s, hash) as int;
        assert(s[k].hashval < hash);
        lemma_leaf_ub_gt(s, hash);
        assert(s[k].hashval > hash);
    }
}

} // verus!
