//! "Long form" directories: Leaf, Node and B+tree directories, which share the format of their
//! data blocks and differ in how their blocks are mapped.
use vstd::prelude::*;

use crate::bmbt_rec::Bmx;
use crate::btree::{BmbtKey, BmdrBlock, BtreeNode, XfsBmbtPtr};
use crate::definitions::{XfsFsblock, ENOENT, ENXIO};
use crate::dir3::{
    data_start, dir_block_position, scan_block, spec_next_in_block, DirNext,
};

verus! {

/// How a directory's blocks are mapped to file system blocks.
#[derive(Debug)]
pub enum Dfork {
    /// Extent list.  Used for Leaf and Node directories.
    Bmx(Bmx),
    /// Btree.  Used only for BTree directories.
    Btree(BtreeNode),
}

/// A Leaf, Node or B+tree directory.
#[derive(Debug)]
pub struct Dir2Lf {
    /// Maps directory block numbers to FS block numbers for this directory
    pub dfork: Dfork,
}

impl Dir2Lf {
    pub fn from_bmx(bmx: Bmx) -> (r: Self)
        ensures
            r.dfork matches Dfork::Bmx(b) && b@ == bmx@,
    {
        Dir2Lf { dfork: Dfork::Bmx(bmx) }
    }

    pub fn from_btree(bmbt: BmdrBlock, keys: Vec<BmbtKey>, pointers: Vec<XfsBmbtPtr>) -> (r: Self)
        ensures
            r.dfork matches Dfork::Btree(root) && root.level == bmbt.bb_level && root.keys@ == keys@
                && root.ptrs@ == pointers@,
    {
        Dir2Lf { dfork: Dfork::Btree(BtreeNode::new(bmbt, keys, pointers)) }
    }
}

/// The file system block of a directory block, from what mapping it gave: ENOENT for a hole.
pub fn extent_fsblock(extent: (Option<XfsFsblock>, Option<u64>)) -> (r: Result<XfsFsblock, i32>)
    ensures
        r == match extent.0 {
            Some(b) => Ok::<u64, i32>(b),
            None => Err::<u64, i32>(ENOENT),
        },
{
    match extent.0 {
        Some(b) => Ok(b),
        None => Err(ENOENT),
    }
}

/// Where reading a long form directory goes on, given the result of seeking for data from the
/// current offset: no more data, or data only in the leaf blocks from directory block
/// `leaf_offset` on, is the end of the directory (ENOENT); other errors stand.
pub fn lf_seek_check(seek: Result<u64, i32>, leaf_offset: u32, blocklog: u8) -> (r: Result<u64, i32>)
    requires
        blocklog < 64,
    ensures
        r == match seek {
            Err(e) => Err::<u64, i32>(if e == ENXIO { ENOENT } else { e }),
            Ok(n) => if n >= (leaf_offset as u64) << blocklog {
                Err::<u64, i32>(ENOENT)
            } else {
                Ok::<u64, i32>(n)
            },
        },
{
    match seek {
        Err(e) => Err(if e == ENXIO { ENOENT } else { e }),
        Ok(n) => {
            if n >= (leaf_offset as u64) << blocklog {
                Err(ENOENT)
            } else {
                Ok(n)
            }
        },
    }
}

/// Read on from directory offset `offset` in the data block `raw` of a long form directory that
/// holds it: the scan runs to the end of the buffer.
pub fn lf_next_in_block(
    raw: &[u8],
    blocklog: u8,
    dirblklog: u8,
    offset: u64,
    next: bool,
    has_ftype: bool,
) -> (r: Result<DirNext, i32>)
    requires
        dirblklog + blocklog < 31,
        raw@.len() <= 0x4000_0000,
        offset + 0x1_0001_0000 <= i64::MAX,
    ensures
        spec_next_in_block(raw@, raw@.len() as int, blocklog, dirblklog, offset, next, has_ftype, r),
{
    let (_, doffset, within) = dir_block_position(blocklog, dirblklog, offset);
    let sh: u64 = (blocklog + dirblklog) as u64;
    assert(within < 0x4000_0000) by (bit_vector)
        requires
            sh < 31,
            within == offset & (((1u64 << sh) - 1) as u64),
    ;
    let start: usize = match data_start(raw, within) {
        Ok(b) => b,
        Err(_) => return Err(crate::definitions::EIO),
    };
    scan_block(raw, raw.len(), start, offset, doffset, next, has_ftype)
}

} // verus!
