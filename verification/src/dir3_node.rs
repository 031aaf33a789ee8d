//! Node directories: data, leaf and free index blocks mapped by an extent list.
use vstd::prelude::*;

use crate::bmbt_rec::{extents_sorted, pp, rec_end, Bmx};
use crate::definitions::{XfsDablk, XfsFsblock, ENOENT};

verus! {

/// A Node directory: the extents of its blocks.
#[derive(Debug)]
pub struct Dir2Node {
    pub bmx: Bmx,
}

impl Dir2Node {
    pub fn from(bmx: Bmx) -> (r: Dir2Node)
        ensures
            r.bmx@ == bmx@,
    {
        Dir2Node { bmx }
    }

    /// The file system block that holds directory block `dblock`, or ENOENT if it lies in a
    /// hole or past the last extent.
    pub fn map_dblock(&self, dblock: XfsDablk) -> (r: Result<XfsFsblock, i32>)
        requires
            extents_sorted(self.bmx@) ==> pp(self.bmx@, dblock as u64) > 0,
        ensures
            extents_sorted(self.bmx@) ==> ({
                let e = self.bmx@[pp(self.bmx@, dblock as u64) - 1];
                r == if rec_end(e) <= dblock {
                    Err::<u64, i32>(ENOENT)
                } else {
                    Ok::<u64, i32>((e.br_startblock + dblock - e.br_startoff) as u64)
                }
            }),
    {
        match self.bmx.map_dblock(dblock) {
            Some(b) => Ok(b),
            None => Err(ENOENT),
        }
    }
}

} // verus!
