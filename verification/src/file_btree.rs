//! Regular files whose blocks are mapped by a B+tree rooted in the inode.
use vstd::prelude::*;

use crate::btree::BtreeNode;
use crate::definitions::{XfsFileoff, XfsFsblock, XfsFsize};
use crate::file_extent_list::{div_ceil, file_blocks};

verus! {

/// A regular file mapped by a B+tree, and its size in bytes.
#[derive(Debug)]
pub struct FileBtree {
    pub btree: BtreeNode,
    pub size: XfsFsize,
}

impl FileBtree {
    /// The extent that holds data block `block`, given what mapping the block through the tree
    /// gave: a hole that reaches the end of the tree is taken to run to the end of the file.
    pub fn get_extent(&self, block: XfsFileoff, extent: (Option<XfsFsblock>, Option<u64>), blocksize: u32) -> (r: (
        Option<XfsFsblock>,
        u64,
    ))
        requires
            blocksize > 0,
            extent.1 is None ==> block <= file_blocks(self.size, blocksize),
        ensures
            r.0 == extent.0,
            r.1 == match extent.1 {
                Some(l) => l as int,
                None => file_blocks(self.size, blocksize) - block,
            },
    {
        let (blk, len) = extent;
        let len: u64 = match len {
            Some(l) => l,
            None => div_ceil(self.size as u64, blocksize as u64) - block,
        };
        (blk, len)
    }

    pub fn size(&self) -> (r: XfsFsize)
        ensures
            r == self.size,
    {
        self.size
    }
}

} // verus!
