//! B+tree directories: directory blocks mapped by a B+tree rooted in the inode.
use vstd::prelude::*;

use crate::btree::{BmbtKey, BmdrBlock, BtreeNode, XfsBmbtPtr};

verus! {

/// A B+tree directory: the root of the tree that maps its blocks.
#[derive(Debug)]
pub struct Dir2Btree {
    pub root: BtreeNode,
}

impl Dir2Btree {
    pub fn from(bmbt: BmdrBlock, keys: Vec<BmbtKey>, pointers: Vec<XfsBmbtPtr>) -> (r: Self)
        ensures
            r.root.level == bmbt.bb_level,
            r.root.keys@ == keys@,
            r.root.ptrs@ == pointers@,
    {
        Dir2Btree { root: BtreeNode::new(bmbt, keys, pointers) }
    }
}

} // verus!
