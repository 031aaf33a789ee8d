//! Block directories: a single directory block that holds the entries, their hash-sorted leaf
//! and a tail.
use vstd::prelude::*;

use crate::definitions::{XfsDahash, XfsIno, EIO, ENOENT, XFS_DIR2_BLOCK_MAGIC, XFS_DIR3_BLOCK_MAGIC};
use crate::dir3::{
    bytes_eq, hash_range, lemma_leaf_range, leaf_lb, leaf_sorted, leaf_ub, scan_block, scan_result, spec_entry,
    spec_scan, Dir2DataEntry, Dir2DataHdr, Dir2LeafEntry, Dir3DataHdr, DirNext,
};
use crate::utils::{be32, decode_u32, FileType, ParseError};

verus! {

/// The tail of a block directory: the number of leaf entries, and how many of them are stale.
#[derive(Debug, Clone, Copy, PartialEq, Eq, Structural)]
pub struct Dir2BlockTail {
    pub count: u32,
    pub stale: u32,
}

impl Dir2BlockTail {
    /// On-disk size in bytes
    pub const SIZE: usize = 8;

    pub fn decode(raw: &[u8], ofs: usize) -> (r: Result<Dir2BlockTail, ParseError>)
        ensures
            r is Ok <==> ofs + 8 <= raw@.len(),
            r matches Ok(t) ==> t.count as int == be32(raw@, ofs as int) && t.stale as int == be32(
                raw@,
                ofs + 4,
            ),
    {
        let count = match decode_u32(raw, ofs) {
            Ok(v) => v,
            Err(e) => return Err(e),
        };
        if raw.len() - ofs < 8 {
            return Err(ParseError::UnexpectedEnd);
        }
        let stale = match decode_u32(raw, ofs + 4) {
            Ok(v) => v,
            Err(e) => return Err(e),
        };
        Ok(Dir2BlockTail { count, stale })
    }
}

/// The leaf entry stored at byte `ofs` of `raw`.
pub open spec fn spec_leaf_entry(raw: Seq<u8>, ofs: int) -> Dir2LeafEntry {
    Dir2LeafEntry { hashval: be32(raw, ofs) as u32, address: be32(raw, ofs + 4) as u32 }
}

/// The size of the header of a directory block with the magic number `magic`, if it is that of
/// a block directory.
pub open spec fn block_hdr_size(magic: int) -> Option<int> {
    if magic == XFS_DIR2_BLOCK_MAGIC {
        Some(16)
    } else if magic == XFS_DIR3_BLOCK_MAGIC {
        Some(64)
    } else {
        None
    }
}

/// The parsed form of a block directory's block, if `raw` holds a well-formed one: its header
/// size and the number of leaf entries in its tail.
/// The leaf entries lie just before the tail, which ends the block.
pub open spec fn block_layout(raw: Seq<u8>) -> Option<(int, int)> {
    if raw.len() < 4 {
        None
    } else {
        match block_hdr_size(be32(raw, 0)) {
            None => None,
            Some(h) => if raw.len() < h {
                None
            } else {
                let count = be32(raw, raw.len() - 8);
                if 8 * count > raw.len() - 8 {
                    None
                } else {
                    Some((h, count))
                }
            },
        }
    }
}

/// The leaf entries of a block directory's block with `count` entries.
pub open spec fn block_leaf(raw: Seq<u8>, count: int) -> Seq<Dir2LeafEntry> {
    Seq::new(count as nat, |i: int| spec_leaf_entry(raw, raw.len() - 8 - 8 * count + 8 * i))
}

/// A block directory's block as read from disk.
#[derive(Debug)]
pub struct Dir2BlockDisk {
    pub leaf: Vec<Dir2LeafEntry>,
    pub tail: Dir2BlockTail,
    pub raw: Vec<u8>,
    /// Start of directory entries within the directory block
    pub data_offset: usize,
}

impl Dir2BlockDisk {
    /// Parse a directory block.  A block whose magic number is not that of a block directory, or
    /// that is too short for its header or for the leaf entries that its tail counts, is
    /// refused.
    pub fn new(raw: Vec<u8>) -> (r: Result<Dir2BlockDisk, ParseError>)
        requires
            raw@.len() <= u32::MAX,
        ensures
            r is Ok <==> block_layout(raw@) is Some,
            r matches Ok(d) ==> ({
                let (h, count) = block_layout(raw@).unwrap();
                &&& d.raw@ == raw@
                &&& d.data_offset == h
                &&& d.tail.count == count
                &&& d.leaf@ == block_leaf(raw@, count)
            }),
    {
        let size: usize = raw.len();
        let magic: u32 = match decode_u32(raw.as_slice(), 0) {
            Ok(v) => v,
            Err(e) => return Err(e),
        };
        let data_offset: usize = if magic == XFS_DIR2_BLOCK_MAGIC {
            match Dir2DataHdr::decode(raw.as_slice()) {
                Ok(_) => {},
                Err(e) => return Err(e),
            }
            Dir2DataHdr::SIZE as usize
        } else if magic == XFS_DIR3_BLOCK_MAGIC {
            match Dir3DataHdr::decode(raw.as_slice()) {
                Ok(_) => {},
                Err(e) => return Err(e),
            }
            Dir3DataHdr::SIZE as usize
        } else {
            return Err(ParseError::BadMagic);
        };
        let tail_offset: usize = size - Dir2BlockTail::SIZE;
        let tail = match Dir2BlockTail::decode(raw.as_slice(), tail_offset) {
            Ok(t) => t,
            Err(e) => return Err(e),
        };
        let count: usize = tail.count as usize;
        if count > tail_offset / 8 {
            return Err(ParseError::UnexpectedEnd);
        }
        let ghost lo: int = tail_offset - 8 * count;
        let mut leaf_offset: usize = tail_offset - Dir2LeafEntry::SIZE * count;
        let mut leaf: Vec<Dir2LeafEntry> = Vec::with_capacity(count);
        let mut i: usize = 0;
        while i < count
            invariant
                size == raw@.len(),
                tail_offset == size - 8,
                count * 8 <= tail_offset,
                lo == tail_offset - 8 * count,
                0 <= i <= count,
                leaf_offset == lo + 8 * i,
                leaf@.len() == i,
                forall|k: int| 0 <= k < i ==> #[trigger] leaf@[k] == spec_leaf_entry(raw@, lo + 8 * k),
            decreases count - i,
        {
            let e = match Dir2LeafEntry::decode(raw.as_slice(), leaf_offset) {
                Ok(e) => e,
                Err(e) => return Err(e),
            };
            leaf.push(e);
            leaf_offset = leaf_offset + Dir2LeafEntry::SIZE;
            i = i + 1;
        }
        proof {
            assert(leaf@ =~= block_leaf(raw@, count as int));
        }
        Ok(Dir2BlockDisk { leaf, tail, raw, data_offset })
    }

    /// get the length of the raw data region
    pub fn get_data_len(&self, directory_block_size: u32) -> (r: u64)
        requires
            8 + 8 * self.tail.count <= directory_block_size,
        ensures
            r == directory_block_size - 8 - 8 * self.tail.count,
    {
        directory_block_size as u64 - Dir2BlockTail::SIZE as u64 - Dir2LeafEntry::SIZE as u64 * (
        self.tail.count as u64)
    }
}

/// A block directory: its leaf entries, and its data region, where the entries are.
#[derive(Debug)]
pub struct Dir2Block {
    pub ents: Vec<Dir2LeafEntry>,
    pub raw: Vec<u8>,
    /// Start of directory entries within the directory block
    pub data_offset: usize,
}

/// What looking up `name` among the leaf entries `ents[k..end]` of a block gives: the inode
/// number of the first entry so addressed that has that name, ENOENT if none has, or EIO where
/// an address points outside the data region or at a malformed entry.
pub open spec fn spec_block_lookup(
    ents: Seq<Dir2LeafEntry>,
    raw: Seq<u8>,
    k: int,
    end: int,
    name: Seq<u8>,
    has_ftype: bool,
) -> Result<u64, i32>
    decreases end - k,
{
    if k >= end || k < 0 || k >= ents.len() {
        Err(ENOENT)
    } else {
        let ofs = (ents[k].address << 3u32) as int;
        match spec_entry(raw, ofs, has_ftype) {
            None => Err(EIO),
            Some(e) => if e.1 == name {
                Ok(e.0)
            } else {
                spec_block_lookup(ents, raw, k + 1, end, name, has_ftype)
            },
        }
    }
}

impl Dir2Block {
    /// A block directory's data region is no longer than a directory block can be.
    pub open spec fn wf(&self) -> bool {
        &&& self.raw@.len() <= u32::MAX
        &&& self.raw@.len() + 0x10000 <= usize::MAX
    }

    /// Parse the directory block `raw` of a block directory.  The data region ends where the
    /// leaf entries begin.
    pub fn new(raw: Vec<u8>) -> (r: Result<Dir2Block, ParseError>)
        requires
            raw@.len() <= u32::MAX,
            raw@.len() + 0x10000 <= usize::MAX,
        ensures
            r is Ok <==> block_layout(raw@) is Some,
            r matches Ok(b) ==> ({
                let (h, count) = block_layout(raw@).unwrap();
                &&& b.wf()
                &&& b.raw@ == raw@.subrange(0, raw@.len() - 8 - 8 * count)
                &&& b.data_offset == h
                &&& b.ents@ == block_leaf(raw@, count)
            }),
    {
        let dir_blk_size: u32 = raw.len() as u32;
        let dir_disk = match Dir2BlockDisk::new(raw) {
            Ok(d) => d,
            Err(e) => return Err(e),
        };
        let data_len: u64 = dir_disk.get_data_len(dir_blk_size);
        let mut raw: Vec<u8> = dir_disk.raw;
        raw.truncate(data_len as usize);
        Ok(Dir2Block { raw, ents: dir_disk.leaf, data_offset: dir_disk.data_offset })
    }

    /// The byte offsets, within the data region, of the entries whose name hash is `hash`: those
    /// of the range that `hash_range` gives, which over an unsorted leaf is unspecified.
    pub fn get_addresses(&self, hash: XfsDahash) -> (r: Vec<usize>)
        ensures
            leaf_sorted(self.ents@) ==> r@.len() == leaf_ub(self.ents@, hash) - leaf_lb(self.ents@, hash),
            leaf_sorted(self.ents@) ==> forall|k: int|
                0 <= k < r@.len() ==> #[trigger] r@[k] == (self.ents@[leaf_lb(self.ents@, hash)
                    + k].address << 3u32) as usize,
    {
        let range = hash_range(self.ents.as_slice(), hash);
        let mut out: Vec<usize> = Vec::new();
        let mut i: usize = range.start;
        while i < range.end
            invariant
                range.start <= i <= range.end <= self.ents@.len(),
                leaf_sorted(self.ents@) ==> range.start == leaf_lb(self.ents@, hash) && range.end == leaf_ub(self.ents@, hash),
                out@.len() == i - range.start,
                forall|k: int|
                    0 <= k < out@.len() ==> #[trigger] out@[k] == (self.ents@[range.start + k].address
                        << 3u32) as usize,
            decreases range.end - i,
        {
            out.push((self.ents[i].address << 3u32) as usize);
            i = i + 1;
        }
        out
    }

    /// Look up `name`: the inode number of the entry of that name, searched among the leaf
    /// entries of the range that `hash_range` gives for `hash`.
    pub fn lookup(&self, name: &[u8], hash: XfsDahash, has_ftype: bool) -> (r: Result<XfsIno, i32>)
        ensures
            leaf_sorted(self.ents@) ==> r == spec_block_lookup(
                self.ents@,
                self.raw@,
                leaf_lb(self.ents@, hash) as int,
                leaf_ub(self.ents@, hash) as int,
                name@,
                has_ftype,
            ),
            exists|st: int, en: int|
                0 <= st <= en <= self.ents@.len() && r == spec_block_lookup(
                    self.ents@,
                    self.raw@,
                    st,
                    en,
                    name@,
                    has_ftype,
                ) && (forall|k: int| st <= k < en ==> #[trigger] self.ents@[k].hashval <= hash),
    {
        let range = hash_range(self.ents.as_slice(), hash);
        let mut i: usize = range.start;
        while i < range.end
            invariant
                range.start <= i <= range.end <= self.ents@.len(),
                leaf_sorted(self.ents@) ==> range.start == leaf_lb(self.ents@, hash) && range.end == leaf_ub(self.ents@, hash),
                forall|k: int| range.start <= k < range.end ==> #[trigger] self.ents@[k].hashval <= hash,
                spec_block_lookup(self.ents@, self.raw@, range.start as int, range.end as int, name@, has_ftype)
                    == spec_block_lookup(self.ents@, self.raw@, i as int, range.end as int, name@, has_ftype),
            decreases range.end - i,
        {
            let offset: usize = (self.ents[i].address << 3u32) as usize;
            match Dir2DataEntry::decode(self.raw.as_slice(), offset, has_ftype) {
                Ok((entry, _)) => {
                    if bytes_eq(entry.name.as_slice(), name) {
                        return Ok(entry.inumber);
                    }
                },
                Err(_) => return Err(EIO),
            }
            i = i + 1;
        }
        Err(ENOENT)
    }

    /// Read the next entry after the one at directory offset `offset` (or the first, if
    /// `offset` is 0): its inode number, directory offset, file type and name.  ENOENT at the
    /// end of the directory.
    pub fn next(&self, offset: i64, has_ftype: bool) -> (r: Result<
        (XfsIno, i64, Option<FileType>, Vec<u8>),
        i32,
    >)
        requires
            self.wf(),
            0 <= offset < self.raw@.len(),
        ensures
            ({
                let start = if offset == 0 {
                    self.data_offset as int
                } else {
                    offset as int
                };
                let o = spec_scan(self.raw@, self.raw@.len() as int, start, start, offset == 0, has_ftype);
                scan_result(
                    self.raw@,
                    o,
                    0,
                    has_ftype,
                    match r {
                        Ok((ino, eo, kind, name)) => Ok(DirNext::Entry(ino, eo, kind, name)),
                        Err(e) => Err(e),
                    },
                ) || (o is End && r == Err::<(XfsIno, i64, Option<FileType>, Vec<u8>), i32>(ENOENT))
            }),
    {
        let next: bool = offset == 0;
        let start: usize = if offset == 0 {
            self.data_offset
        } else {
            offset as usize
        };
        if start >= self.raw.len() {
            return Err(ENOENT);
        }
        match scan_block(self.raw.as_slice(), self.raw.len(), start, start as u64, 0, next, has_ftype) {
            Ok(DirNext::Entry(ino, eo, kind, name)) => Ok((ino, eo, kind, name)),
            Ok(DirNext::EndOfBlock(_, _)) => Err(ENOENT),
            Err(e) => Err(e),
        }
    }
}

/// What the search of leaf entries `ents[k..end]` answers: an inode number only from an entry
/// in that range whose name matches, and ENOENT only when every entry there is readable and
/// named otherwise.
proof fn lemma_block_lookup_range(
    ents: Seq<Dir2LeafEntry>,
    raw: Seq<u8>,
    k: int,
    end: int,
    name: Seq<u8>,
    has_ftype: bool,
)
    requires
        0 <= k,
        end <= ents.len(),
    ensures
        spec_block_lookup(ents, raw, k, end, name, has_ftype) matches Ok(ino) ==> exists|i: int|
            k <= i < end && (spec_entry(raw, (#[trigger] ents[i].address << 3u32) as int, has_ftype) matches Some(e)
                && e.1 == name && e.0 == ino),
        spec_block_lookup(ents, raw, k, end, name, has_ftype) == Err::<u64, i32>(ENOENT) ==> forall|i: int|
            k <= i < end ==> (spec_entry(raw, (#[trigger] ents[i].address << 3u32) as int, has_ftype) matches Some(e)
                && e.1 != name),
    decreases end - k,
{
    if k < end {
        lemma_block_lookup_range(ents, raw, k + 1, end, name, has_ftype);
    }
}

/// Looking a name up in a block directory finds it among the entries of its hash: the inode
/// number returned is that of an entry whose leaf hash is the name's hash and whose name is
/// the name; ENOENT means every entry with that hash is named otherwise.
pub proof fn lemma_block_lookup(ents: Seq<Dir2LeafEntry>, raw: Seq<u8>, hash: u32, name: Seq<u8>, has_ftype: bool)
    requires
        leaf_sorted(ents),
    ensures
        ({
            let r = spec_block_lookup(ents, raw, leaf_lb(ents, hash) as int, leaf_ub(ents, hash) as int, name, has_ftype);
            &&& r matches Ok(ino) ==> exists|i: int|
                0 <= i < ents.len() && (#[trigger] ents[i]).hashval == hash && (spec_entry(
                    raw,
                    (ents[i].address << 3u32) as int,
                    has_ftype,
                ) matches Some(e) && e.1 == name && e.0 == ino)
            &&& r == Err::<u64, i32>(ENOENT) ==> forall|i: int|
                0 <= i < ents.len() && (#[trigger] ents[i]).hashval == hash ==> (spec_entry(
                    raw,
                    (ents[i].address << 3u32) as int,
                    has_ftype,
                ) matches Some(e) && e.1 != name)
        }),
{
    let lb = leaf_lb(ents, hash) as int;
    let ub = leaf_ub(ents, hash) as int;
    assert forall|i: int| 0 <= i < ents.len() implies (#[trigger] ents[i]).hashval == hash <==> (lb <= i < ub) by {
        lemma_leaf_range(ents, hash, i);
    }
    if ents.len() > 0 {
        lemma_leaf_range(ents, hash, 0);
    }
    crate::dir3::lemma_leaf_bounds(ents, hash);
    lemma_block_lookup_range(ents, raw, lb, ub, name, has_ftype);
}

} // verus!
