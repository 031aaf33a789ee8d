//! Extended attributes: name spaces, leaf blocks, and the choice between leaf and node forms of
//! an attribute fork.
use vstd::prelude::*;

use crate::bmbt_rec::Bmx;
use crate::da_btree::{da_entries, da_node_ok, spec_da3_blkinfo, XfsDa3Blkinfo, XfsDa3Intnode};
use crate::definitions::{XfsDablk, ENOATTR, XFS_ATTR3_LEAF_MAGIC, XFS_DA3_NODE_MAGIC};
use crate::attr_bptree::AttrBtree;
use crate::attr_leaf::AttrLeaf;
use crate::attr_node::AttrNode;
use crate::attr_shortform::AttrShortform;
use crate::utils::{
    be128, be16, be32, be64, decode_bytes, decode_u16, decode_u32, decode_u64, decode_u8, ParseError, Uuid,
};

verus! {

pub const XFS_ATTR_LOCAL_BIT: u8 = 0;
pub const XFS_ATTR_ROOT_BIT: u8 = 1;
pub const XFS_ATTR_SECURE_BIT: u8 = 2;
pub const XFS_ATTR_INCOMPLETE_BIT: u8 = 7;
pub const XFS_ATTR_LOCAL: u8 = 1;
pub const XFS_ATTR_ROOT: u8 = 2;
pub const XFS_ATTR_SECURE: u8 = 4;
pub const XFS_ATTR_INCOMPLETE: u8 = 128;
pub const XFS_ATTR_NSP_ONDISK_MASK: u8 = 6;

/// The name space prefix of an attribute with the given flags: "secure.", "trusted." or
/// "user.".
pub open spec fn spec_namespace(flags: u8) -> Seq<u8> {
    if flags & XFS_ATTR_SECURE != 0 {
        seq![115u8, 101, 99, 117, 114, 101, 46]
    } else if flags & XFS_ATTR_ROOT != 0 {
        seq![116u8, 114, 117, 115, 116, 101, 100, 46]
    } else {
        seq![117u8, 115, 101, 114, 46]
    }
}

pub fn get_namespace_from_flags(flags: u8) -> (r: Vec<u8>)
    ensures
        r@ == spec_namespace(flags),
{
    if flags & XFS_ATTR_SECURE != 0 {
        vec![115u8, 101, 99, 117, 114, 101, 46]
    } else if flags & XFS_ATTR_ROOT != 0 {
        vec![116u8, 114, 117, 115, 116, 101, 100, 46]
    } else {
        vec![117u8, 115, 101, 114, 46]
    }
}

pub fn get_namespace_size_from_flags(flags: u8) -> (r: u32)
    ensures
        r == spec_namespace(flags).len(),
{
    get_namespace_from_flags(flags).len() as u32
}

/// A free region of an attribute leaf block.
#[derive(Debug, Clone, Copy, PartialEq, Eq, Structural)]
pub struct AttrLeafMap {
    pub base: u16,
    pub size: u16,
}

impl AttrLeafMap {
    pub fn decode(raw: &[u8], ofs: usize) -> (r: Result<AttrLeafMap, ParseError>)
        ensures
            r is Ok <==> ofs + 4 <= raw@.len(),
            r matches Ok(m) ==> m.base as int == be16(raw@, ofs as int) && m.size as int == be16(
                raw@,
                ofs + 2,
            ),
    {
        let len: usize = raw.len();
        let base = match decode_u16(raw, ofs) {
            Ok(v) => v,
            Err(e) => return Err(e),
        };
        let size = match decode_u16(raw, ofs + 2) {
            Ok(v) => v,
            Err(e) => return Err(e),
        };
        Ok(AttrLeafMap { base, size })
    }
}

/// The header of a version 5 attribute leaf block.
#[derive(Debug, Clone, Copy, PartialEq, Eq, Structural)]
pub struct AttrLeafHdr {
    pub info: XfsDa3Blkinfo,
    pub count: u16,
}

impl AttrLeafHdr {
    /// On-disk size in bytes
    pub const SIZE: usize = 80;

    /// Decode the header at the start of `raw`, of a file system whose UUID is `uuid`.  The
    /// block must be an attribute leaf block.
    pub fn decode(raw: &[u8], uuid: Uuid) -> (r: Result<AttrLeafHdr, ParseError>)
        ensures
            r is Ok <==> raw@.len() >= 80 && spec_da3_blkinfo(raw@, uuid) is Ok && be16(raw@, 8)
                == XFS_ATTR3_LEAF_MAGIC,
            r matches Ok(h) ==> h.info == spec_da3_blkinfo(raw@, uuid).unwrap() && h.count as int
                == be16(raw@, 56),
    {
        if raw.len() < 80 {
            return Err(ParseError::UnexpectedEnd);
        }
        let info = match XfsDa3Blkinfo::decode(raw, uuid) {
            Ok(v) => v,
            Err(e) => return Err(e),
        };
        let count = match decode_u16(raw, 56) {
            Ok(v) => v,
            Err(e) => return Err(e),
        };
        if info.magic != XFS_ATTR3_LEAF_MAGIC {
            return Err(ParseError::BadMagic);
        }
        Ok(AttrLeafHdr { info, count })
    }
}

/// An entry of an attribute leaf block: the name's hash, where the name is within the block,
/// and the attribute's flags.
#[derive(Debug, Clone, Copy, PartialEq, Eq, Structural)]
pub struct AttrLeafEntry {
    pub hashval: u32,
    pub nameidx: u16,
    pub flags: u8,
    pub pad2: u8,
}

/// The attribute leaf entry stored at byte `ofs` of `raw`.
pub open spec fn spec_attr_entry(raw: Seq<u8>, ofs: int) -> AttrLeafEntry {
    AttrLeafEntry {
        hashval: be32(raw, ofs) as u32,
        nameidx: be16(raw, ofs + 4) as u16,
        flags: raw[ofs + 6],
        pad2: raw[ofs + 7],
    }
}

impl AttrLeafEntry {
    pub const SIZE: usize = 8;

    pub fn decode(raw: &[u8], ofs: usize) -> (r: Result<AttrLeafEntry, ParseError>)
        ensures
            r is Ok <==> ofs + 8 <= raw@.len(),
            r matches Ok(e) ==> e == spec_attr_entry(raw@, ofs as int),
    {
        let len: usize = raw.len();
        let hashval = match decode_u32(raw, ofs) {
            Ok(v) => v,
            Err(e) => return Err(e),
        };
        let nameidx = match decode_u16(raw, ofs + 4) {
            Ok(v) => v,
            Err(e) => return Err(e),
        };
        let flags = match decode_u8(raw, ofs + 6) {
            Ok(v) => v,
            Err(e) => return Err(e),
        };
        let pad2 = match decode_u8(raw, ofs + 7) {
            Ok(v) => v,
            Err(e) => return Err(e),
        };
        Ok(AttrLeafEntry { hashval, nameidx, flags, pad2 })
    }
}

/// A name and value stored in the leaf block itself.
#[derive(Debug)]
pub struct AttrLeafNameLocal {
    pub namelen: u8,
    /// The name, then the value.
    pub nameval: Vec<u8>,
}

/// The local name and value at byte `ofs` of `raw`, as (name length, name and value), if `raw`
/// holds them: a 2-byte value length, a 1-byte name length, the name, the value.
pub open spec fn spec_local_name(raw: Seq<u8>, ofs: int) -> Option<(u8, Seq<u8>)> {
    if ofs + 3 > raw.len() {
        None
    } else {
        let n = raw[ofs + 2] as int;
        let v = be16(raw, ofs);
        if ofs + 3 + n + v > raw.len() {
            None
        } else {
            Some((raw[ofs + 2], raw.subrange(ofs + 3, ofs + 3 + n + v)))
        }
    }
}

impl AttrLeafNameLocal {
    pub fn decode(raw: &[u8], ofs: usize) -> (r: Result<AttrLeafNameLocal, ParseError>)
        ensures
            r is Ok <==> spec_local_name(raw@, ofs as int) is Some,
            r matches Ok(l) ==> (l.namelen, l.nameval@) == spec_local_name(raw@, ofs as int).unwrap(),
    {
        let len: usize = raw.len();
        let valuelen = match decode_u16(raw, ofs) {
            Ok(v) => v,
            Err(e) => return Err(e),
        };
        let namelen = match decode_u8(raw, ofs + 2) {
            Ok(v) => v,
            Err(e) => return Err(e),
        };
        let nameval = match decode_bytes(raw, ofs + 3, namelen as usize + valuelen as usize) {
            Ok(v) => v,
            Err(e) => return Err(e),
        };
        Ok(AttrLeafNameLocal { namelen, nameval })
    }
}

/// A name stored in the leaf block whose value is stored in blocks of its own.
#[derive(Debug)]
pub struct AttrLeafNameRemote {
    pub valueblk: u32,
    pub valuelen: u32,
    pub namelen: u8,
    pub name: Vec<u8>,
}

/// The remote name at byte `ofs` of `raw`, as (value block, value length, name length, name),
/// if `raw` holds it.
pub open spec fn spec_remote_name(raw: Seq<u8>, ofs: int) -> Option<(u32, u32, u8, Seq<u8>)> {
    if ofs + 9 > raw.len() || ofs + 9 + raw[ofs + 8] > raw.len() {
        None
    } else {
        Some(
            (
                be32(raw, ofs) as u32,
                be32(raw, ofs + 4) as u32,
                raw[ofs + 8],
                raw.subrange(ofs + 9, ofs + 9 + raw[ofs + 8]),
            ),
        )
    }
}

impl AttrLeafNameRemote {
    pub fn decode(raw: &[u8], ofs: usize) -> (r: Result<AttrLeafNameRemote, ParseError>)
        ensures
            r is Ok <==> spec_remote_name(raw@, ofs as int) is Some,
            r matches Ok(m) ==> (m.valueblk, m.valuelen, m.namelen, m.name@) == spec_remote_name(
                raw@,
                ofs as int,
            ).unwrap(),
    {
        let len: usize = raw.len();
        let valueblk = match decode_u32(raw, ofs) {
            Ok(v) => v,
            Err(e) => return Err(e),
        };
        if raw.len() - ofs < 9 {
            return Err(ParseError::UnexpectedEnd);
        }
        let valuelen = match decode_u32(raw, ofs + 4) {
            Ok(v) => v,
            Err(e) => return Err(e),
        };
        let namelen = match decode_u8(raw, ofs + 8) {
            Ok(v) => v,
            Err(e) => return Err(e),
        };
        let name = match decode_bytes(raw, ofs + 9, namelen as usize) {
            Ok(v) => v,
            Err(e) => return Err(e),
        };
        Ok(AttrLeafNameRemote { valueblk, valuelen, namelen, name })
    }
}

/// A name of an attribute leaf block, with its value or where its value is.
#[derive(Debug)]
pub enum AttrLeafName {
    Local(AttrLeafNameLocal),
    Remote(AttrLeafNameRemote),
}

/// Where an attribute's value is: here, or in `valuelen` bytes from attribute fork block
/// `valueblk` on, each block starting with a remote value header.
#[derive(Debug)]
pub enum AttrValue {
    Local(Vec<u8>),
    Remote(XfsDablk, u32),
}

impl AttrLeafName {
    /// A name is no longer than the bytes that hold it.
    pub open spec fn wf(&self) -> bool {
        match self {
            AttrLeafName::Local(l) => l.namelen <= l.nameval@.len(),
            AttrLeafName::Remote(m) => m.namelen == m.name@.len(),
        }
    }

    /// The name.
    pub open spec fn spec_name(&self) -> Seq<u8> {
        match self {
            AttrLeafName::Local(l) => l.nameval@.subrange(0, l.namelen as int),
            AttrLeafName::Remote(m) => m.name@,
        }
    }

    pub open spec fn spec_namelen(&self) -> u8 {
        match self {
            AttrLeafName::Local(l) => l.namelen,
            AttrLeafName::Remote(m) => m.namelen,
        }
    }

    pub fn name(&self) -> (r: &[u8])
        requires
            self.wf(),
        ensures
            r@ == self.spec_name(),
    {
        match self {
            AttrLeafName::Local(local) => vstd::slice::slice_subrange(
                local.nameval.as_slice(),
                0,
                local.namelen as usize,
            ),
            AttrLeafName::Remote(remote) => {
                proof {
                    assert(remote.name@.subrange(0, remote.namelen as int) =~= remote.name@);
                }
                vstd::slice::slice_subrange(remote.name.as_slice(), 0, remote.namelen as usize)
            },
        }
    }

    pub fn namelen(&self) -> (r: u8)
        ensures
            r == self.spec_namelen(),
    {
        match self {
            AttrLeafName::Local(local) => local.namelen,
            AttrLeafName::Remote(remote) => remote.namelen,
        }
    }

    /// The value: that stored after a local name, or where a remote value is.
    pub fn value(&self) -> (r: AttrValue)
        requires
            self.wf(),
        ensures
            match self {
                AttrLeafName::Local(l) => r matches AttrValue::Local(v) && v@ == l.nameval@.subrange(
                    l.namelen as int,
                    l.nameval@.len() as int,
                ),
                AttrLeafName::Remote(m) => r == AttrValue::Remote(m.valueblk, m.valuelen),
            },
    {
        match self {
            AttrLeafName::Local(local) => AttrValue::Local(
                vstd::slice::slice_to_vec(
                    vstd::slice::slice_subrange(
                        local.nameval.as_slice(),
                        local.namelen as usize,
                        local.nameval.len(),
                    ),
                ),
            ),
            AttrLeafName::Remote(remote) => AttrValue::Remote(remote.valueblk, remote.valuelen),
        }
    }
}

/// The listing of attributes, each given by its flags and name: for each, its name space
/// prefix, its name and a NUL byte.
pub open spec fn xattr_list(items: Seq<(u8, Seq<u8>)>) -> Seq<u8>
    decreases items.len(),
{
    if items.len() == 0 {
        Seq::empty()
    } else {
        let last = items.last();
        xattr_list(items.drop_last()) + spec_namespace(last.0) + last.1 + seq![0u8]
    }
}

/// The size of the listing of attributes, each given by its flags and name.
pub open spec fn xattr_size(items: Seq<(u8, Seq<u8>)>) -> int
    decreases items.len(),
{
    if items.len() == 0 {
        0
    } else {
        let last = items.last();
        xattr_size(items.drop_last()) + spec_namespace(last.0).len() + last.1.len() + 1
    }
}

/// A listing of attributes is as long as its size says: what `listxattr` returns has the
/// length that it reported for a zero-sized buffer.
pub proof fn lemma_xattr_list_len(items: Seq<(u8, Seq<u8>)>)
    ensures
        xattr_list(items).len() == xattr_size(items),
    decreases items.len(),
{
    if items.len() > 0 {
        lemma_xattr_list_len(items.drop_last());
    }
}

/// The size of a listing grows by at most 264 bytes per attribute.
pub proof fn lemma_xattr_size_bound(items: Seq<(u8, Seq<u8>)>)
    requires
        forall|i: int| 0 <= i < items.len() ==> (#[trigger] items[i]).1.len() <= 255,
    ensures
        0 <= xattr_size(items) <= 264 * items.len(),
    decreases items.len(),
{
    if items.len() > 0 {
        let t = items.drop_last();
        assert forall|i: int| 0 <= i < t.len() implies (#[trigger] t[i]).1.len() <= 255 by {
            assert(t[i] == items[i]);
        }
        lemma_xattr_size_bound(t);
        assert(items[items.len() - 1].1.len() <= 255);
    }
}

/// Append the listing entry of one attribute to `list`.
pub fn list_one(list: &mut Vec<u8>, flags: u8, name: &[u8])
    ensures
        final(list)@ == old(list)@ + spec_namespace(flags) + name@ + seq![0u8],
{
    let ns = get_namespace_from_flags(flags);
    let mut i: usize = 0;
    let ghost start = list@;
    while i < ns.len()
        invariant
            0 <= i <= ns@.len(),
            ns@ == spec_namespace(flags),
            list@ == start + ns@.subrange(0, i as int),
        decreases ns@.len() - i,
    {
        list.push(ns[i]);
        proof {
            assert(ns@.subrange(0, i + 1) =~= ns@.subrange(0, i as int).push(ns@[i as int]));
        }
        i = i + 1;
    }
    proof {
        assert(ns@.subrange(0, ns@.len() as int) =~= ns@);
    }
    let ghost mid = list@;
    let mut j: usize = 0;
    while j < name.len()
        invariant
            0 <= j <= name@.len(),
            list@ == mid + name@.subrange(0, j as int),
        decreases name@.len() - j,
    {
        list.push(name[j]);
        proof {
            assert(name@.subrange(0, j + 1) =~= name@.subrange(0, j as int).push(name@[j as int]));
        }
        j = j + 1;
    }
    proof {
        assert(name@.subrange(0, name@.len() as int) =~= name@);
    }
    list.push(0u8);
    proof {
        assert(list@ =~= start + spec_namespace(flags) + name@ + seq![0u8]);
    }
}

/// The name at `e.nameidx` of the block `raw` that the entry `e` points at: local or remote
/// as its flags say, if the block holds it.
pub open spec fn name_is(n: AttrLeafName, raw: Seq<u8>, e: AttrLeafEntry) -> bool {
    if e.flags & XFS_ATTR_LOCAL != 0 {
        &&& spec_local_name(raw, e.nameidx as int) is Some
        &&& n matches AttrLeafName::Local(l)
        &&& (l.namelen, l.nameval@) == spec_local_name(raw, e.nameidx as int).unwrap()
    } else {
        &&& spec_remote_name(raw, e.nameidx as int) is Some
        &&& n matches AttrLeafName::Remote(m)
        &&& (m.valueblk, m.valuelen, m.namelen, m.name@) == spec_remote_name(
            raw,
            e.nameidx as int,
        ).unwrap()
    }
}

/// Whether the name that the entry `e` points at lies within the block `raw`.
pub open spec fn name_fits(raw: Seq<u8>, e: AttrLeafEntry) -> bool {
    if e.flags & XFS_ATTR_LOCAL != 0 {
        spec_local_name(raw, e.nameidx as int) is Some
    } else {
        spec_remote_name(raw, e.nameidx as int) is Some
    }
}

/// The entries of the attribute leaf block `raw`, as many as its header counts.
pub open spec fn attr_entries(raw: Seq<u8>) -> Seq<AttrLeafEntry> {
    Seq::new(be16(raw, 56) as nat, |i: int| spec_attr_entry(raw, 80 + 8 * i))
}

/// Attribute leaf entries ordered by hash.
pub open spec fn attr_entries_sorted(s: Seq<AttrLeafEntry>) -> bool {
    forall|i: int, j: int| 0 <= i <= j < s.len() ==> s[i].hashval <= s[j].hashval
}

/// Whether `raw` is a well-formed attribute leaf block of the file system whose UUID is `uuid`:
/// its header, all the entries it counts, and every name they point at.
pub open spec fn attr_leaf_ok(raw: Seq<u8>, uuid: Uuid) -> bool {
    &&& raw.len() >= 80
    &&& spec_da3_blkinfo(raw, uuid) is Ok
    &&& be16(raw, 8) == XFS_ATTR3_LEAF_MAGIC
    &&& 80 + 8 * be16(raw, 56) <= raw.len()
    &&& forall|i: int| 0 <= i < attr_entries(raw).len() ==> name_fits(raw, #[trigger] attr_entries(raw)[i])
}

/// A value is what a name holds or points at.
pub open spec fn value_is(n: AttrLeafName, v: AttrValue) -> bool {
    match n {
        AttrLeafName::Local(l) => v matches AttrValue::Local(b) && b@ == l.nameval@.subrange(
            l.namelen as int,
            l.nameval@.len() as int,
        ),
        AttrLeafName::Remote(m) => v == AttrValue::Remote(m.valueblk, m.valuelen),
    }
}

/// An attribute leaf block: its header, its entries, and their names.
#[derive(Debug)]
pub struct AttrLeafblock {
    pub hdr: AttrLeafHdr,
    pub entries: Vec<AttrLeafEntry>,
    pub names: Vec<AttrLeafName>,
}

impl AttrLeafblock {
    /// One entry per name, no more than a header can count, each name no longer than the
    /// bytes that hold it.
    pub open spec fn wf(&self) -> bool {
        &&& self.entries@.len() == self.names@.len()
        &&& self.entries@.len() <= 0xffff
        &&& forall|i: int| 0 <= i < self.names@.len() ==> (#[trigger] self.names@[i]).wf()
    }

    /// The flags and name of each attribute of the block.
    pub open spec fn items(&self) -> Seq<(u8, Seq<u8>)> {
        Seq::new(
            self.entries@.len(),
            |i: int| (self.entries@[i].flags, self.names@[i].spec_name()),
        )
    }

    /// Decode the attribute leaf block `raw`, of a file system whose UUID is `uuid`.
    pub fn decode(raw: &[u8], uuid: Uuid) -> (r: Result<AttrLeafblock, ParseError>)
        ensures
            r is Ok <==> attr_leaf_ok(raw@, uuid),
            r matches Ok(b) ==> ({
                &&& b.wf()
                &&& b.hdr.info == spec_da3_blkinfo(raw@, uuid).unwrap()
                &&& b.hdr.count as int == be16(raw@, 56)
                &&& b.entries@ == attr_entries(raw@)
                &&& forall|i: int|
                    0 <= i < b.names@.len() ==> name_is(
                        #[trigger] b.names@[i],
                        raw@,
                        b.entries@[i],
                    )
            }),
    {
        let hdr = match AttrLeafHdr::decode(raw, uuid) {
            Ok(h) => h,
            Err(e) => return Err(e),
        };
        let n: usize = hdr.count as usize;
        let mut entries: Vec<AttrLeafEntry> = Vec::with_capacity(n);
        let mut i: usize = 0;
        while i < n
            invariant
                0 <= i <= n,
                n == be16(raw@, 56),
                n <= 0xffff,
                raw@.len() >= 80,
                80 + 8 * i <= raw@.len(),
                entries@.len() == i,
                forall|k: int| 0 <= k < i ==> #[trigger] entries@[k] == spec_attr_entry(raw@, 80 + 8 * k),
            decreases n - i,
        {
            let e = match AttrLeafEntry::decode(raw, 80 + 8 * i) {
                Ok(e) => e,
                Err(e) => return Err(e),
            };
            entries.push(e);
            i = i + 1;
        }
        proof {
            assert(entries@ =~= attr_entries(raw@));
        }
        let mut names: Vec<AttrLeafName> = Vec::with_capacity(n);
        let mut k: usize = 0;
        while k < n
            invariant
                0 <= k <= n,
                n == entries@.len(),
                entries@ == attr_entries(raw@),
                names@.len() == k,
                forall|j: int| 0 <= j < k ==> name_fits(raw@, #[trigger] entries@[j]),
                forall|j: int| 0 <= j < k ==> name_is(#[trigger] names@[j], raw@, entries@[j]),
                forall|j: int| 0 <= j < k ==> (#[trigger] names@[j]).wf(),
            decreases n - k,
        {
            let e = entries[k];
            let ofs: usize = e.nameidx as usize;
            let name = if e.flags & XFS_ATTR_LOCAL != 0 {
                match AttrLeafNameLocal::decode(raw, ofs) {
                    Ok(l) => AttrLeafName::Local(l),
                    Err(err) => return Err(err),
                }
            } else {
                match AttrLeafNameRemote::decode(raw, ofs) {
                    Ok(m) => AttrLeafName::Remote(m),
                    Err(err) => return Err(err),
                }
            };
            names.push(name);
            k = k + 1;
        }
        Ok(AttrLeafblock { hdr, entries, names })
    }

    /// The size of the listing of the block's attributes.
    pub fn get_total_size(&self) -> (r: u32)
        requires
            self.wf(),
        ensures
            r == xattr_size(self.items()),
    {
        let n: usize = self.entries.len();
        let mut total: u32 = 0;
        let mut i: usize = 0;
        while i < n
            invariant
                0 <= i <= n,
                self.wf(),
                n == self.entries@.len(),
                total == xattr_size(self.items().subrange(0, i as int)),
                total <= 264 * i,
            decreases n - i,
        {
            proof {
                let s = self.items().subrange(0, i + 1);
                assert(s.drop_last() =~= self.items().subrange(0, i as int));
                let nm = self.names@[i as int];
                assert(nm.wf());
                assert(nm.spec_name().len() == nm.spec_namelen());
            }
            let ns: u32 = get_namespace_size_from_flags(self.entries[i].flags);
            total = total + ns + self.names[i].namelen() as u32 + 1;
            i = i + 1;
        }
        proof {
            assert(self.items().subrange(0, n as int) =~= self.items());
        }
        total
    }

    /// Append the listing of the block's attributes to `list`.
    pub fn list(&self, list: &mut Vec<u8>)
        requires
            self.wf(),
        ensures
            final(list)@ == old(list)@ + xattr_list(self.items()),
    {
        let n: usize = self.entries.len();
        let mut i: usize = 0;
        let ghost start = list@;
        while i < n
            invariant
                0 <= i <= n,
                self.wf(),
                n == self.entries@.len(),
                list@ == start + xattr_list(self.items().subrange(0, i as int)),
            decreases n - i,
        {
            proof {
                let s = self.items().subrange(0, i + 1);
                assert(s.drop_last() =~= self.items().subrange(0, i as int));
            }
            list_one(list, self.entries[i].flags, self.names[i].name());
            proof {
                let s = self.items().subrange(0, i + 1);
                assert(list@ =~= start + xattr_list(s));
            }
            i = i + 1;
        }
        proof {
            assert(self.items().subrange(0, n as int) =~= self.items());
        }
    }

    /// The value of the first attribute whose name hash is `hash`, or ENOATTR if there is none.
    ///
    /// Entries out of hash order make the binary search land on an unspecified entry, as std's
    /// `binary_search` does: a value found is still that of an entry with the hash.
    pub fn get(&self, hash: u32) -> (r: Result<AttrValue, i32>)
        requires
            self.wf(),
        ensures
            r is Err ==> r == Err::<AttrValue, i32>(ENOATTR),
            r matches Ok(v) ==> exists|i: int|
                0 <= i < self.entries@.len() && (#[trigger] self.entries@[i]).hashval == hash
                    && value_is(self.names@[i], v),
            attr_entries_sorted(self.entries@) ==> (r is Err <==> forall|i: int|
                0 <= i < self.entries@.len() ==> (#[trigger] self.entries@[i]).hashval != hash),
            attr_entries_sorted(self.entries@) ==> (r matches Ok(v) ==> exists|i: int|
                0 <= i < self.entries@.len() && (#[trigger] self.entries@[i]).hashval == hash
                    && value_is(self.names@[i], v) && forall|j: int| 0 <= j < i ==> self.entries@[j].hashval < hash),
    {
        let n: usize = self.entries.len();
        let mut lo: usize = 0;
        let mut hi: usize = n;
        while lo < hi
            invariant
                0 <= lo <= hi <= n,
                n == self.entries@.len(),
                self.wf(),
                attr_entries_sorted(self.entries@) ==> forall|i: int| 0 <= i < lo ==> #[trigger] self.entries@[i].hashval < hash,
                attr_entries_sorted(self.entries@) ==> forall|i: int| hi <= i < n ==> #[trigger] self.entries@[i].hashval >= hash,
            decreases hi - lo,
        {
            let mid: usize = lo + (hi - lo) / 2;
            if self.entries[mid].hashval < hash {
                proof {
                    if attr_entries_sorted(self.entries@) {
                        assert forall|i: int| 0 <= i < mid + 1 implies #[trigger] self.entries@[i].hashval < hash by {
                            assert(self.entries@[i].hashval <= self.entries@[mid as int].hashval);
                        }
                    }
                }
                lo = mid + 1;
            } else {
                proof {
                    if attr_entries_sorted(self.entries@) {
                        assert forall|i: int| mid <= i < n implies #[trigger] self.entries@[i].hashval >= hash by {
                            assert(self.entries@[mid as int].hashval <= self.entries@[i].hashval);
                        }
                    }
                }
                hi = mid;
            }
        }
        if lo < n && self.entries[lo].hashval == hash {
            proof {
                assert(self.names@[lo as int].wf());
            }
            Ok(self.names[lo].value())
        } else {
            proof {
                if attr_entries_sorted(self.entries@) {
                    assert forall|i: int| 0 <= i < self.entries@.len() implies (#[trigger] self.entries@[i]).hashval != hash by {
                        if i >= lo {
                            assert(self.entries@[lo as int].hashval <= self.entries@[i].hashval);
                        }
                    }
                }
            }
            Err(ENOATTR)
        }
    }
}

/// The size of a leaf block's listing fits the range that the leaf's entry count allows.
pub proof fn lemma_xattr_size_bound_leaf(leaf: &AttrLeafblock)
    requires
        leaf.wf(),
    ensures
        0 <= xattr_size(leaf.items()) <= 264 * 0xffff,
{
    assert forall|i: int| 0 <= i < leaf.items().len() implies (#[trigger] leaf.items()[i]).1.len() <= 255 by {
        assert(leaf.names@[i].wf());
    }
    lemma_xattr_size_bound(leaf.items());
}

/// The size of the listing of the attributes of a chain of leaf blocks.
pub open spec fn leaves_size(leaves: Seq<AttrLeafblock>) -> int
    decreases leaves.len(),
{
    if leaves.len() == 0 {
        0
    } else {
        leaves_size(leaves.drop_last()) + xattr_size(leaves.last().items())
    }
}

/// The size of the listing of the attributes of a chain of leaf blocks, if it fits in 32 bits.
pub fn leaves_total_size(leaves: &[AttrLeafblock]) -> (r: Option<u32>)
    requires
        forall|i: int| 0 <= i < leaves@.len() ==> (#[trigger] leaves@[i]).wf(),
    ensures
        0 <= leaves_size(leaves@),
        leaves_size(leaves@) <= u32::MAX ==> r == Some(leaves_size(leaves@) as u32),
        leaves_size(leaves@) > u32::MAX ==> r is None,
{
    let n: usize = leaves.len();
    let mut total: u64 = 0;
    let mut i: usize = 0;
    while i < n
        invariant
            0 <= i <= n,
            n == leaves@.len(),
            forall|k: int| 0 <= k < leaves@.len() ==> (#[trigger] leaves@[k]).wf(),
            total == leaves_size(leaves@.subrange(0, i as int)),
            total <= u32::MAX,
        decreases n - i,
    {
        proof {
            assert(leaves@.subrange(0, i + 1).drop_last() =~= leaves@.subrange(0, i as int));
            lemma_xattr_size_bound_leaf(&leaves@[i as int]);
            lemma_leaves_size_mono(leaves@, i as int + 1);
        }
        let t: u32 = leaves[i].get_total_size();
        if total + t as u64 > u32::MAX as u64 {
            proof {
                lemma_leaves_size_mono(leaves@, n as int);
                lemma_leaves_size_prefix(leaves@, i as int + 1, n as int);
                assert(leaves@.subrange(0, n as int) =~= leaves@);
            }
            return None;
        }
        total = total + t as u64;
        i = i + 1;
    }
    proof {
        assert(leaves@.subrange(0, n as int) =~= leaves@);
    }
    Some(total as u32)
}

/// Sizes of listings are never negative.
proof fn lemma_leaves_size_mono(leaves: Seq<AttrLeafblock>, k: int)
    requires
        0 <= k <= leaves.len(),
    ensures
        leaves_size(leaves.subrange(0, k)) >= 0,
    decreases k,
{
    if k > 0 {
        let s = leaves.subrange(0, k);
        assert(s.drop_last() =~= leaves.subrange(0, k - 1));
        lemma_leaves_size_mono(leaves, k - 1);
        lemma_xattr_size_nonneg(s.last().items());
    }
}

/// A longer prefix of a chain has at least as large a listing.
proof fn lemma_leaves_size_prefix(leaves: Seq<AttrLeafblock>, j: int, k: int)
    requires
        0 <= j <= k <= leaves.len(),
    ensures
        leaves_size(leaves.subrange(0, j)) <= leaves_size(leaves.subrange(0, k)),
    decreases k - j,
{
    if j < k {
        let s = leaves.subrange(0, k);
        assert(s.drop_last() =~= leaves.subrange(0, k - 1));
        lemma_xattr_size_nonneg(s.last().items());
        lemma_leaves_size_prefix(leaves, j, k - 1);
    }
}

/// The size of a listing is never negative.
proof fn lemma_xattr_size_nonneg(items: Seq<(u8, Seq<u8>)>)
    ensures
        xattr_size(items) >= 0,
    decreases items.len(),
{
    if items.len() > 0 {
        lemma_xattr_size_nonneg(items.drop_last());
    }
}

/// The header of a block that holds (part of) a remote attribute value.
#[derive(Debug, Clone, Copy, PartialEq, Eq, Structural)]
pub struct AttrRmtHdr {
    pub rm_magic: u32,
    pub rm_offset: u32,
    pub rm_bytes: u32,
    pub rm_crc: u32,
    pub rm_uuid: Uuid,
    pub rm_owner: u64,
    pub rm_blkno: u64,
    pub rm_lsn: u64,
}

impl AttrRmtHdr {
    /// On-disk size in bytes
    pub const SIZE: usize = 56;

    /// Decode the header at the start of `raw`.  The value bytes that the block holds,
    /// `rm_bytes` of them, follow it.
    pub fn decode(raw: &[u8]) -> (r: Result<AttrRmtHdr, ParseError>)
        ensures
            r is Ok <==> raw@.len() >= 56,
            r matches Ok(h) ==> h.rm_magic as int == be32(raw@, 0) && h.rm_offset as int == be32(raw@, 4)
                && h.rm_bytes as int == be32(raw@, 8) && h.rm_crc as int == be32(raw@, 12)
                && h.rm_uuid.0 as int == be128(raw@, 16) && h.rm_owner as int == be64(raw@, 32)
                && h.rm_blkno as int == be64(raw@, 40) && h.rm_lsn as int == be64(raw@, 48),
    {
        if raw.len() < 56 {
            return Err(ParseError::UnexpectedEnd);
        }
        let rm_magic = match decode_u32(raw, 0) {
            Ok(v) => v,
            Err(e) => return Err(e),
        };
        let rm_offset = match decode_u32(raw, 4) {
            Ok(v) => v,
            Err(e) => return Err(e),
        };
        let rm_bytes = match decode_u32(raw, 8) {
            Ok(v) => v,
            Err(e) => return Err(e),
        };
        let rm_crc = match decode_u32(raw, 12) {
            Ok(v) => v,
            Err(e) => return Err(e),
        };
        let rm_uuid = match Uuid::decode(raw, 16) {
            Ok(v) => v,
            Err(e) => return Err(e),
        };
        let rm_owner = match decode_u64(raw, 32) {
            Ok(v) => v,
            Err(e) => return Err(e),
        };
        let rm_blkno = match decode_u64(raw, 40) {
            Ok(v) => v,
            Err(e) => return Err(e),
        };
        let rm_lsn = match decode_u64(raw, 48) {
            Ok(v) => v,
            Err(e) => return Err(e),
        };
        Ok(AttrRmtHdr { rm_magic, rm_offset, rm_bytes, rm_crc, rm_uuid, rm_owner, rm_blkno, rm_lsn })
    }
}

/// The value bytes held by one block of a remote attribute value: the `rm_bytes` bytes that
/// follow its header.
pub fn remote_value_bytes(raw: &[u8]) -> (r: Result<Vec<u8>, ParseError>)
    ensures
        r is Ok <==> raw@.len() >= 56 && 56 + be32(raw@, 8) <= raw@.len(),
        r matches Ok(v) ==> v@ == raw@.subrange(56, 56 + be32(raw@, 8)),
{
    let hdr = match AttrRmtHdr::decode(raw) {
        Ok(h) => h,
        Err(e) => return Err(e),
    };
    decode_bytes(raw, AttrRmtHdr::SIZE, hdr.rm_bytes as usize)
}

/// What the search for an attribute's leaf block answers when the search fails: a missing
/// entry is a missing attribute.
pub fn attr_lookup_error(e: i32) -> (r: i32)
    ensures
        r == if e == crate::definitions::ENOENT {
            ENOATTR
        } else {
            e
        },
{
    if e == crate::definitions::ENOENT {
        ENOATTR
    } else {
        e
    }
}

/// The attributes of an inode, in any of the forms an attribute fork can take.
#[derive(Debug)]
pub enum Attributes {
    Sf(AttrShortform),
    Leaf(AttrLeaf),
    Node(AttrNode),
    Btree(AttrBtree),
}

/// Open an attribute fork held in the blocks `bmx`, whose first block is `raw`, on a file system
/// whose UUID is `uuid`: a leaf block, or the root of a dabtree of leaf blocks.
pub fn open(bmx: Bmx, raw: &[u8], uuid: Uuid) -> (r: Result<Attributes, ParseError>)
    requires
        bmx@.len() > 0,
    ensures
        spec_da3_blkinfo(raw@, uuid) matches Err(e) ==> r == Err::<Attributes, ParseError>(e),
        spec_da3_blkinfo(raw@, uuid) is Ok && be16(raw@, 8) != XFS_ATTR3_LEAF_MAGIC && be16(raw@, 8)
            != XFS_DA3_NODE_MAGIC ==> r == Err::<Attributes, ParseError>(ParseError::BadMagic),
        spec_da3_blkinfo(raw@, uuid) is Ok && be16(raw@, 8) == XFS_ATTR3_LEAF_MAGIC ==> (r is Ok
            <==> attr_leaf_ok(raw@, uuid)),
        spec_da3_blkinfo(raw@, uuid) is Ok && be16(raw@, 8) == XFS_DA3_NODE_MAGIC ==> (r is Ok
            <==> da_node_ok(raw@, uuid)),
        r matches Ok(Attributes::Leaf(l)) ==> ({
            &&& be16(raw@, 8) == XFS_ATTR3_LEAF_MAGIC
            &&& l.wf()
            &&& l.bmx@ == bmx@
            &&& l.total_size == -1
            &&& l.leaf.entries@ == attr_entries(raw@)
            &&& forall|i: int| 0 <= i < l.leaf.names@.len() ==> name_is(
                #[trigger] l.leaf.names@[i],
                raw@,
                l.leaf.entries@[i],
            )
        }),
        r matches Ok(Attributes::Node(n)) ==> ({
            &&& be16(raw@, 8) == XFS_DA3_NODE_MAGIC
            &&& n.node.wf()
            &&& n.node.magic == XFS_DA3_NODE_MAGIC
            &&& n.node.level as int == be16(raw@, 62)
            &&& n.node.btree@ == da_entries(raw@)
            &&& n.bmx@ == bmx@
            &&& n.total_size == -1
        }),
        r is Ok ==> r matches Ok(Attributes::Leaf(_)) || r matches Ok(Attributes::Node(_)),
{
    let info = match XfsDa3Blkinfo::decode(raw, uuid) {
        Ok(i) => i,
        Err(e) => return Err(e),
    };
    if info.magic == XFS_ATTR3_LEAF_MAGIC {
        match AttrLeafblock::decode(raw, uuid) {
            Ok(leaf) => Ok(Attributes::Leaf(AttrLeaf { bmx, leaf, total_size: -1 })),
            Err(e) => Err(e),
        }
    } else if info.magic == XFS_DA3_NODE_MAGIC {
        match XfsDa3Intnode::decode(raw, uuid) {
            Ok(node) => Ok(Attributes::Node(AttrNode::new(bmx, node))),
            Err(e) => Err(e),
        }
    } else {
        Err(ParseError::BadMagic)
    }
}

/// Each attribute of a leaf block is listed under the name space of its own on-disk flags:
/// "secure." if the secure bit (4) is set, else "trusted." if the root bit (2) is, else "user.",
/// followed by its name; and the flags are those of its entry, the byte at `80 + 8 * i + 6` of
/// the block it was decoded from.
pub proof fn lemma_leaf_listing_entry(b: AttrLeafblock, i: int)
    requires
        b.wf(),
        0 <= i < b.entries@.len(),
    ensures
        b.items()[i].0 == b.entries@[i].flags,
        b.items()[i].1 == b.names@[i].spec_name(),
        spec_namespace(b.items()[i].0) == if b.entries@[i].flags & 4 != 0 {
            seq![115u8, 101, 99, 117, 114, 101, 46]
        } else if b.entries@[i].flags & 2 != 0 {
            seq![116u8, 114, 117, 115, 116, 101, 100, 46]
        } else {
            seq![117u8, 115, 101, 114, 46]
        },
        forall|raw: Seq<u8>|
            b.entries@ == attr_entries(raw) ==> b.items()[i].0 == raw[80 + 8 * i + 6],
{
}

} // verus!
