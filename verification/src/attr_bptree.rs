//! Attribute forks whose blocks are mapped by a B+tree rooted in the inode.
use vstd::prelude::*;

use crate::btree::BtreeNode;
use crate::definitions::{XfsFsblock, ENOATTR};

use crate::attr::{leaves_size, leaves_total_size, AttrLeafblock};

verus! {

/// An attribute fork mapped by a B+tree: the tree's root, and the size of the listing of its
/// attributes once it has been computed (-1 until then).
#[derive(Debug)]
pub struct AttrBtree {
    pub btree: BtreeNode,
    pub total_size: i64,
}

impl AttrBtree {
    pub fn new(btree: BtreeNode) -> (r: Self)
        ensures
            r.btree == btree,
            r.total_size == -1,
    {
        AttrBtree { btree, total_size: -1 }
    }

    /// The file system block of a block of the fork, from what mapping it through the tree
    /// gave: ENOATTR for a hole.
    pub fn block_of(extent: (Option<XfsFsblock>, Option<u64>)) -> (r: Result<XfsFsblock, i32>)
        ensures
            r == match extent.0 {
                Some(b) => Ok::<u64, i32>(b),
                None => Err::<u64, i32>(ENOATTR),
            },
    {
        match extent.0 {
            Some(b) => Ok(b),
            None => Err(ENOATTR),
        }
    }

    /// The size, once computed, fits in 32 bits.
    pub open spec fn wf(&self) -> bool {
        self.total_size == -1 || 0 <= self.total_size <= u32::MAX
    }

    /// The size of the listing of the fork's attributes, given the fork's leaf blocks in
    /// order: computed once and kept.  `None` if it does not fit in 32 bits.
    pub fn get_total_size(&mut self, leaves: &[AttrLeafblock]) -> (r: Option<u32>)
        requires
            old(self).wf(),
            forall|i: int| 0 <= i < leaves@.len() ==> (#[trigger] leaves@[i]).wf(),
        ensures
            final(self).wf(),
            final(self).btree == old(self).btree,
            old(self).total_size != -1 ==> r == Some(old(self).total_size as u32)
                && final(self).total_size == old(self).total_size,
            old(self).total_size == -1 && leaves_size(leaves@) <= u32::MAX ==> r == Some(
                leaves_size(leaves@) as u32,
            ) && final(self).total_size == leaves_size(leaves@),
            old(self).total_size == -1 && leaves_size(leaves@) > u32::MAX ==> r is None
                && final(self).total_size == -1,
    {
        if self.total_size != -1 {
            return Some(self.total_size as u32);
        }
        match leaves_total_size(leaves) {
            Some(t) => {
                self.total_size = t as i64;
                Some(t)
            },
            None => None,
        }
    }
}

} // verus!
