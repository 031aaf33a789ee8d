//! Attribute forks held in a single leaf block.
use vstd::prelude::*;

use crate::attr::{attr_entries_sorted, xattr_list, xattr_size, AttrLeafblock, AttrValue, value_is};
use crate::bmbt_rec::Bmx;
use crate::da_btree::{hashname, spec_hashname};
use crate::definitions::ENOATTR;

verus! {

/// An attribute fork held in one leaf block: the fork's extents, the leaf, and the size of the
/// listing of its attributes once it has been computed (-1 until then).
#[derive(Debug)]
pub struct AttrLeaf {
    pub bmx: Bmx,
    pub leaf: AttrLeafblock,
    pub total_size: i64,
}

impl AttrLeaf {
    /// The leaf is well formed, and the size, once computed, is that of the listing.
    pub open spec fn wf(&self) -> bool {
        &&& self.leaf.wf()
        &&& (self.total_size == -1 || self.total_size == xattr_size(self.leaf.items()))
    }

    /// The size of the listing of the attributes, computed once and kept.
    pub fn get_total_size(&mut self) -> (r: u32)
        requires
            old(self).wf(),
        ensures
            r == xattr_size(old(self).leaf.items()),
            final(self).wf(),
            final(self).leaf == old(self).leaf,
            final(self).bmx == old(self).bmx,
            final(self).total_size == r,
    {
        if self.total_size != -1 {
            proof {
                crate::attr::lemma_xattr_size_bound_leaf(&self.leaf);
            }
            self.total_size as u32
        } else {
            let t: u32 = self.leaf.get_total_size();
            self.total_size = t as i64;
            t
        }
    }

    /// The listing of the attributes: for each, its name space prefix, name and a NUL byte.
    pub fn list(&mut self) -> (r: Vec<u8>)
        requires
            old(self).wf(),
        ensures
            r@ == xattr_list(old(self).leaf.items()),
            final(self).wf(),
            final(self).leaf == old(self).leaf,
            final(self).bmx == old(self).bmx,
    {
        let size: u32 = self.get_total_size();
        let mut list: Vec<u8> = Vec::with_capacity(size as usize);
        self.leaf.list(&mut list);
        proof {
            assert(list@ =~= xattr_list(old(self).leaf.items()));
        }
        list
    }

    /// The value of the attribute named `name`: that of the first whose name hash is the hash
    /// of `name`, or ENOATTR if there is none.
    pub fn get(&self, name: &[u8]) -> (r: Result<AttrValue, i32>)
        requires
            self.wf(),
        ensures
            ({
                let hash = spec_hashname(name@);
                let es = self.leaf.entries@;
                &&& r is Err ==> r == Err::<AttrValue, i32>(ENOATTR)
                &&& r matches Ok(v) ==> exists|i: int|
                    0 <= i < es.len() && (#[trigger] es[i]).hashval == hash && value_is(self.leaf.names@[i], v)
                &&& attr_entries_sorted(es) ==> (r is Err <==> forall|i: int| 0 <= i < es.len() ==> (#[trigger] es[i]).hashval != hash)
                &&& attr_entries_sorted(es) ==> (r matches Ok(v) ==> exists|i: int|
                    0 <= i < es.len() && (#[trigger] es[i]).hashval == hash && value_is(self.leaf.names@[i], v)
                        && forall|j: int| 0 <= j < i ==> es[j].hashval < hash)
            }),
    {
        let hash = hashname(name);
        self.leaf.get(hash)
    }
}

} // verus!
