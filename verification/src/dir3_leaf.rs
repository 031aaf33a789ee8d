//! Leaf directories: data blocks mapped by an extent list, and a single leaf block.
use vstd::prelude::*;

use crate::bmbt_rec::{
    extents_in_range, extents_sorted, lemma_pp_partition, partition_point, pp, rec_end, BmbtRec,
};
use crate::definitions::{XfsDablk, XfsDahash, XfsFsblock, ENOENT, XFS_DIR3_LEAF1_MAGIC};
use crate::dir3::{
    hash_range, leaf_lb, leaf_sorted, leaf_ub, Dir2LeafEntry, Dir3LeafHdr,
    XfsDir2Dataptr,
};
use crate::dir3_block::spec_leaf_entry;
use crate::da_btree::spec_da3_blkinfo;
use crate::utils::{be16, ParseError, Uuid};

verus! {

/// The leaf block of a Leaf directory: its header and its entries.
#[derive(Debug)]
pub struct Dir2LeafDisk {
    pub hdr: Dir3LeafHdr,
    pub ents: Vec<Dir2LeafEntry>,
}

/// The entries of the single-leaf block `raw`, as many as its header counts.
pub open spec fn leaf1_entries(raw: Seq<u8>) -> Seq<Dir2LeafEntry> {
    Seq::new(be16(raw, 56) as nat, |i: int| spec_leaf_entry(raw, 64 + 8 * i))
}

/// Whether `raw` holds a well-formed version 5 single-leaf block of the file system whose UUID
/// is `uuid`: its header, the single-leaf magic number, and all the entries that the header
/// counts.
pub open spec fn leaf1_ok(raw: Seq<u8>, uuid: Uuid) -> bool {
    &&& raw.len() >= 64
    &&& spec_da3_blkinfo(raw, uuid) is Ok
    &&& be16(raw, 8) == XFS_DIR3_LEAF1_MAGIC
    &&& 64 + 8 * be16(raw, 56) <= raw.len()
}

impl Dir2LeafDisk {
    /// Parse the leaf block `raw` of a version 5 Leaf directory.
    pub fn from(raw: &[u8], uuid: Uuid) -> (r: Result<Dir2LeafDisk, ParseError>)
        ensures
            r is Ok <==> leaf1_ok(raw@, uuid),
            r matches Ok(l) ==> l.hdr.info.magic == XFS_DIR3_LEAF1_MAGIC && l.hdr.count as int
                == be16(raw@, 56) && l.ents@ == leaf1_entries(raw@),
    {
        let hdr = match Dir3LeafHdr::decode(raw, uuid) {
            Ok(h) => h,
            Err(e) => return Err(e),
        };
        if hdr.info.magic != XFS_DIR3_LEAF1_MAGIC {
            return Err(ParseError::BadMagic);
        }
        let n: usize = hdr.count as usize;
        let mut ents: Vec<Dir2LeafEntry> = Vec::new();
        let mut i: usize = 0;
        while i < n
            invariant
                0 <= i <= n,
                n <= 0xffff,
                ents@.len() == i,
                n == be16(raw@, 56),
                raw@.len() >= 64,
                64 + 8 * i <= raw@.len(),
                forall|k: int| 0 <= k < i ==> #[trigger] ents@[k] == spec_leaf_entry(raw@, 64 + 8 * k),
            decreases n - i,
        {
            let e = match Dir2LeafEntry::decode(raw, 64 + 8 * i) {
                Ok(e) => e,
                Err(e) => return Err(e),
            };
            proof {
                assert(64 + 8 * i + 8 <= raw@.len());
            }
            ents.push(e);
            i = i + 1;
        }
        proof {
            assert(ents@ =~= leaf1_entries(raw@));
        }
        Ok(Dir2LeafDisk { hdr, ents })
    }
}

/// A Leaf directory: the extents of its blocks, and its leaf block.
#[derive(Debug)]
pub struct Dir2Leaf {
    pub bmx: Vec<BmbtRec>,
    pub leaf: Dir2LeafDisk,
}

/// Where a Leaf directory's leaf block lies: the extent at the end of its extent list, whose
/// length in bytes is its block count times the block size.
pub open spec fn spec_leaf_window(bmx: Seq<BmbtRec>, blocksize: u32) -> (u64, int) {
    (bmx.last().br_startblock, bmx.last().br_blockcount * blocksize)
}

impl Dir2Leaf {
    /// The file system block at which the leaf block starts, and its size in bytes, for a
    /// directory with the extents `bmx` on a file system of `blocksize`-byte blocks.
    pub fn leaf_window(bmx: &[BmbtRec], blocksize: u32) -> (r: (XfsFsblock, usize))
        requires
            bmx@.len() > 0,
            bmx@.last().br_blockcount * blocksize <= usize::MAX,
        ensures
            r.0 == spec_leaf_window(bmx@, blocksize).0,
            r.1 == spec_leaf_window(bmx@, blocksize).1,
    {
        let leaf_extent = bmx[bmx.len() - 1];
        let size: u64 = leaf_extent.br_blockcount * (blocksize as u64);
        (leaf_extent.br_startblock, size as usize)
    }

    /// Build a Leaf directory from its extents, which should be ordered by file offset, and the
    /// contents of its leaf block.
    pub fn from(bmx: &[BmbtRec], leaf_raw: &[u8], uuid: Uuid) -> (r: Result<Dir2Leaf, ParseError>)
        requires
            extents_in_range(bmx@),
        ensures
            r is Ok <==> leaf1_ok(leaf_raw@, uuid),
            r matches Ok(d) ==> d.wf() && d.bmx@ == bmx@ && d.leaf.ents@ == leaf1_entries(leaf_raw@),
    {
        let leaf = match Dir2LeafDisk::from(leaf_raw, uuid) {
            Ok(l) => l,
            Err(e) => return Err(e),
        };
        Ok(Dir2Leaf { bmx: vstd::slice::slice_to_vec(bmx), leaf })
    }

    /// The extents are in their decoded ranges.
    pub open spec fn wf(&self) -> bool {
        extents_in_range(self.bmx@)
    }

    /// The file system block that holds directory block `dblock`, or ENOENT if it lies in a
    /// hole or beyond the last extent.  Extents that are out of order give an unspecified
    /// answer, as std's binary search does.
    pub fn map_dblock(&self, dblock: XfsDablk) -> (r: Result<XfsFsblock, i32>)
        requires
            self.wf(),
            extents_sorted(self.bmx@) ==> pp(self.bmx@, dblock as u64) > 0,
        ensures
            extents_sorted(self.bmx@) ==> ({
                let e = self.bmx@[pp(self.bmx@, dblock as u64) - 1];
                r == if rec_end(e) <= dblock {
                    Err::<u64, i32>(ENOENT)
                } else {
                    Ok::<u64, i32>((e.br_startblock + dblock - e.br_startoff) as u64)
                }
            }),
    {
        proof {
            if extents_sorted(self.bmx@) {
                lemma_pp_partition(self.bmx@, dblock as u64);
            }
        }
        let dblock: u64 = dblock as u64;
        let i = partition_point(self.bmx.as_slice(), dblock);
        if i == 0 {
            return Err(ENOENT);
        }
        let rec = self.bmx[i - 1];
        proof {
            assert(crate::bmbt_rec::rec_wf(self.bmx@[i - 1]));
        }
        if rec.br_startoff > dblock || rec.br_startoff + rec.br_blockcount <= dblock {
            Err(ENOENT)
        } else {
            Ok(rec.br_startblock + (dblock - rec.br_startoff))
        }
    }

    /// The addresses, in bytes within the directory, of the entries whose name hash is `hash`:
    /// those of the range that `hash_range` gives, which over an unsorted leaf is unspecified.
    pub fn get_addresses(&self, hash: XfsDahash) -> (r: Vec<XfsDir2Dataptr>)
        ensures
            leaf_sorted(self.leaf.ents@) ==> r@.len() == leaf_ub(self.leaf.ents@, hash) - leaf_lb(self.leaf.ents@, hash),
            leaf_sorted(self.leaf.ents@) ==> forall|k: int|
                0 <= k < r@.len() ==> #[trigger] r@[k] == self.leaf.ents@[leaf_lb(self.leaf.ents@, hash)
                    + k].address << 3u32,
    {
        let range = hash_range(self.leaf.ents.as_slice(), hash);
        let mut out: Vec<u32> = Vec::new();
        let mut i: usize = range.start;
        while i < range.end
            invariant
                range.start <= i <= range.end <= self.leaf.ents@.len(),
                leaf_sorted(self.leaf.ents@) ==> range.start == leaf_lb(self.leaf.ents@, hash) && range.end == leaf_ub(self.leaf.ents@, hash),
                out@.len() == i - range.start,
                forall|k: int|
                    0 <= k < out@.len() ==> #[trigger] out@[k] == self.leaf.ents@[range.start + k].address
                        << 3u32,
            decreases range.end - i,
        {
            out.push(self.leaf.ents[i].address << 3u32);
            i = i + 1;
        }
        out
    }
}

} // verus!
