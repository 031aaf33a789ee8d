//! Attribute forks whose leaf blocks are indexed by a dabtree.
use vstd::prelude::*;

use crate::bmbt_rec::{extents_sorted, pp, rec_end, Bmx};
use crate::da_btree::XfsDa3Intnode;
use crate::definitions::{XfsDablk, XfsFsblock};

use crate::attr::{leaves_size, leaves_total_size, AttrLeafblock};

verus! {

/// An attribute fork indexed by a dabtree: the fork's extents, the root node, and the size of
/// the listing of its attributes once it has been computed (-1 until then).
#[derive(Debug)]
pub struct AttrNode {
    pub bmx: Bmx,
    pub node: XfsDa3Intnode,
    pub total_size: i64,
}

impl AttrNode {
    pub fn new(bmx: Bmx, node: XfsDa3Intnode) -> (r: Self)
        ensures
            r.bmx@ == bmx@,
            r.node == node,
            r.total_size == -1,
    {
        AttrNode { bmx, node, total_size: -1 }
    }

    /// The file system block that holds block `dblock` of the fork, or `None` if it lies in a
    /// hole, which an attribute fork may not have.
    pub fn map_dblock(&self, dblock: XfsDablk) -> (r: Option<XfsFsblock>)
        requires
            extents_sorted(self.bmx@) ==> pp(self.bmx@, dblock as u64) > 0,
        ensures
            extents_sorted(self.bmx@) ==> ({
                let e = self.bmx@[pp(self.bmx@, dblock as u64) - 1];
                r == if rec_end(e) <= dblock {
                    None::<u64>
                } else {
                    Some((e.br_startblock + dblock - e.br_startoff) as u64)
                }
            }),
    {
        self.bmx.map_dblock(dblock)
    }

    /// The size, once computed, fits in 32 bits.
    pub open spec fn wf(&self) -> bool {
        self.total_size == -1 || 0 <= self.total_size <= u32::MAX
    }

    /// The size of the listing of the fork's attributes, given the fork's leaf blocks in
    /// order: computed once and kept.  `None` if it does not fit in 32 bits.
    pub fn get_total_size(&mut self, leaves: &[AttrLeafblock]) -> (r: Option<u32>)
        requires
            old(self).wf(),
            forall|i: int| 0 <= i < leaves@.len() ==> (#[trigger] leaves@[i]).wf(),
        ensures
            final(self).wf(),
            final(self).bmx == old(self).bmx,
            final(self).node == old(self).node,
            old(self).total_size != -1 ==> r == Some(old(self).total_size as u32)
                && final(self).total_size == old(self).total_size,
            old(self).total_size == -1 && leaves_size(leaves@) <= u32::MAX ==> r == Some(
                leaves_size(leaves@) as u32,
            ) && final(self).total_size == leaves_size(leaves@),
            old(self).total_size == -1 && leaves_size(leaves@) > u32::MAX ==> r is None
                && final(self).total_size == -1,
    {
        if self.total_size != -1 {
            return Some(self.total_size as u32);
        }
        match leaves_total_size(leaves) {
            Some(t) => {
                self.total_size = t as i64;
                Some(t)
            },
            None => None,
        }
    }
}

} // verus!
