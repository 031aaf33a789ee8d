//! The variable-length B+tree (the "dabtree") that indexes directories and attributes by name
//! hash, and the name hash function.
use vstd::prelude::*;

use crate::definitions::{XfsDablk, XfsDahash, ENOENT, XFS_DA3_NODE_MAGIC, XFS_DA_NODE_MAGIC};
use crate::utils::{be128, be16, be32, decode_u16, decode_u32, ParseError, Uuid};

verus! {

/// `x` rotated left by `k` bits.
pub open spec fn rotl(x: u32, k: u32) -> u32 {
    (x << k) | (x >> (32 - k) as u32)
}

/// One round of the name hash over four bytes.
pub open spec fn hash_step(hash: u32, b0: u8, b1: u8, b2: u8, b3: u8) -> u32 {
    ((b0 as u32) << 21u32) ^ ((b1 as u32) << 14u32) ^ ((b2 as u32) << 7u32) ^ (b3 as u32) ^ rotl(
        hash,
        28,
    )
}

/// The hash of the first `4 * n` bytes of `name`.
pub open spec fn hash_prefix(name: Seq<u8>, n: nat) -> u32
    decreases n,
{
    if n == 0 {
        0
    } else {
        let i = (4 * (n - 1)) as int;
        hash_step(hash_prefix(name, (n - 1) as nat), name[i], name[i + 1], name[i + 2], name[i + 3])
    }
}

/// The XFS name hash: four-byte rounds, then a final round over the remaining bytes.
pub open spec fn spec_hashname(name: Seq<u8>) -> u32 {
    let n = name.len() / 4;
    let hash = hash_prefix(name, n);
    let i = (4 * n) as int;
    let rem = name.len() - i;
    if rem == 3 {
        ((name[i] as u32) << 14u32) ^ ((name[i + 1] as u32) << 7u32) ^ (name[i + 2] as u32) ^ rotl(
            hash,
            21,
        )
    } else if rem == 2 {
        ((name[i] as u32) << 7u32) ^ (name[i + 1] as u32) ^ rotl(hash, 14)
    } else if rem == 1 {
        (name[i] as u32) ^ rotl(hash, 7)
    } else {
        hash
    }
}

/// Hash a directory entry or extended attribute name.
pub fn hashname(name: &[u8]) -> (r: XfsDahash)
    ensures
        r == spec_hashname(name@),
{
    let len: usize = name.len();
    let mut namelen: usize = len;
    let mut hash: XfsDahash = 0;
    let mut i: usize = 0;
    while namelen >= 4
        invariant
            i + namelen == len,
            len == name@.len(),
            i % 4 == 0,
            hash == hash_prefix(name@, (i / 4) as nat),
        decreases namelen,
    {
        assert((i + 4) / 4 == i / 4 + 1);
        hash = ((name[i] as u32) << 21u32) ^ ((name[i + 1] as u32) << 14u32) ^ ((name[i + 2] as u32)
            << 7u32) ^ (name[i + 3] as u32) ^ ((hash << 28u32) | (hash >> 4u32));
        namelen = namelen - 4;
        i = i + 4;
    }
    assert(i == 4 * (len / 4));
    if namelen == 3 {
        ((name[i] as u32) << 14u32) ^ ((name[i + 1] as u32) << 7u32) ^ (name[i + 2] as u32) ^ ((
        hash << 21u32) | (hash >> 11u32))
    } else if namelen == 2 {
        ((name[i] as u32) << 7u32) ^ (name[i + 1] as u32) ^ ((hash << 14u32) | (hash >> 18u32))
    } else if namelen == 1 {
        (name[i] as u32) ^ ((hash << 7u32) | (hash >> 25u32))
    } else {
        hash
    }
}

/// The hash of the whole rounds of a name depends only on the bytes of those rounds.
proof fn lemma_hash_prefix_depends(s: Seq<u8>, t: Seq<u8>, n: nat)
    requires
        4 * n <= s.len(),
        4 * n <= t.len(),
        s.subrange(0, (4 * n) as int) == t.subrange(0, (4 * n) as int),
    ensures
        hash_prefix(s, n) == hash_prefix(t, n),
    decreases n,
{
    if n > 0 {
        let m = (n - 1) as nat;
        assert(s.subrange(0, 4 * m as int) =~= s.subrange(0, (4 * n) as int).subrange(0, 4 * m as int));
        assert(t.subrange(0, 4 * m as int) =~= t.subrange(0, (4 * n) as int).subrange(0, 4 * m as int));
        lemma_hash_prefix_depends(s, t, m);
        let i = 4 * m as int;
        assert(s[i] == s.subrange(0, (4 * n) as int)[i]);
        assert(s[i + 1] == s.subrange(0, (4 * n) as int)[i + 1]);
        assert(s[i + 2] == s.subrange(0, (4 * n) as int)[i + 2]);
        assert(s[i + 3] == s.subrange(0, (4 * n) as int)[i + 3]);
        assert(t[i] == t.subrange(0, (4 * n) as int)[i]);
        assert(t[i + 1] == t.subrange(0, (4 * n) as int)[i + 1]);
        assert(t[i + 2] == t.subrange(0, (4 * n) as int)[i + 2]);
        assert(t[i + 3] == t.subrange(0, (4 * n) as int)[i + 3]);
    }
}

/// The XFS name hash, round by round: the empty name hashes to 0; appending a four-byte round
/// `a b c d` to a name whose length is a multiple of 4 rotates its hash left by 28 bits and
/// mixes in `a << 21 ^ b << 14 ^ c << 7 ^ d`; a final one-, two- or three-byte tail rotates it
/// left by 7 bits per byte and mixes in the tail bytes the same way.
pub proof fn lemma_hashname_rounds(p: Seq<u8>, a: u8, b: u8, c: u8, d: u8)
    requires
        p.len() % 4 == 0,
    ensures
        spec_hashname(Seq::empty()) == 0,
        ({
            let h = spec_hashname(p);
            &&& spec_hashname(p + seq![a]) == (a as u32) ^ ((h << 7u32) | (h >> 25u32))
            &&& spec_hashname(p + seq![a, b]) == ((a as u32) << 7u32) ^ (b as u32) ^ ((h << 14u32) | (h
                >> 18u32))
            &&& spec_hashname(p + seq![a, b, c]) == ((a as u32) << 14u32) ^ ((b as u32) << 7u32) ^ (c
                as u32) ^ ((h << 21u32) | (h >> 11u32))
            &&& spec_hashname(p + seq![a, b, c, d]) == ((a as u32) << 21u32) ^ ((b as u32) << 14u32) ^ ((
            c as u32) << 7u32) ^ (d as u32) ^ ((h << 28u32) | (h >> 4u32))
        }),
{
    let n: int = (p.len() / 4) as int;
    assert(4 * n == p.len());
    assert(spec_hashname(p) == hash_prefix(p, n as nat));
    let t1 = p + seq![a];
    let t2 = p + seq![a, b];
    let t3 = p + seq![a, b, c];
    let t4 = p + seq![a, b, c, d];
    assert(t1.subrange(0, 4 * n) =~= p.subrange(0, 4 * n));
    assert(t2.subrange(0, 4 * n) =~= p.subrange(0, 4 * n));
    assert(t3.subrange(0, 4 * n) =~= p.subrange(0, 4 * n));
    assert(t4.subrange(0, 4 * n) =~= p.subrange(0, 4 * n));
    lemma_hash_prefix_depends(t1, p, n as nat);
    lemma_hash_prefix_depends(t2, p, n as nat);
    lemma_hash_prefix_depends(t3, p, n as nat);
    lemma_hash_prefix_depends(t4, p, n as nat);
    assert(t1.len() / 4 == n);
    assert(t2.len() / 4 == n);
    assert(t3.len() / 4 == n);
    assert(t4.len() / 4 == n + 1);
    assert(t1[4 * n] == a);
    assert(t2[4 * n] == a && t2[4 * n + 1] == b);
    assert(t3[4 * n] == a && t3[4 * n + 1] == b && t3[4 * n + 2] == c);
    assert(t4[4 * n] == a && t4[4 * n + 1] == b && t4[4 * n + 2] == c && t4[4 * n + 3] == d);
    assert(hash_prefix(t4, (n + 1) as nat) == hash_step(hash_prefix(t4, n as nat), a, b, c, d));
    assert(t4.len() - 4 * (n + 1) == 0);
    assert(spec_hashname(Seq::<u8>::empty()) == 0) by {
        assert(hash_prefix(Seq::<u8>::empty(), 0) == 0);
    }
}

/// The block header of a version 4 directory or attribute block.
#[derive(Debug, Clone, Copy, PartialEq, Eq, Structural)]
pub struct XfsDaBlkinfo {
    pub forw: u32,
    pub back: u32,
    pub magic: u16,
    pub pad: u16,
}

impl XfsDaBlkinfo {
    pub const SIZE: usize = 12;

    /// Decode the header at the start of `raw`.
    pub fn decode(raw: &[u8]) -> (r: Result<XfsDaBlkinfo, ParseError>)
        ensures
            r is Ok <==> raw@.len() >= 12,
            r matches Ok(b) ==> b.forw as int == be32(raw@, 0) && b.back as int == be32(raw@, 4)
                && b.magic as int == be16(raw@, 8) && b.pad as int == be16(raw@, 10),
    {
        if raw.len() < 12 {
            return Err(ParseError::UnexpectedEnd);
        }
        let forw = match decode_u32(raw, 0) {
            Ok(v) => v,
            Err(e) => return Err(e),
        };
        let back = match decode_u32(raw, 4) {
            Ok(v) => v,
            Err(e) => return Err(e),
        };
        let magic = match decode_u16(raw, 8) {
            Ok(v) => v,
            Err(e) => return Err(e),
        };
        let pad = match decode_u16(raw, 10) {
            Ok(v) => v,
            Err(e) => return Err(e),
        };
        Ok(XfsDaBlkinfo { forw, back, magic, pad })
    }
}

/// The block header of a version 5 directory or attribute block.
#[derive(Debug, Clone, Copy, PartialEq, Eq, Structural)]
pub struct XfsDa3Blkinfo {
    pub forw: u32,
    pub magic: u16,
}

/// The version 5 block header at the start of `raw`, for a file system whose UUID is `uuid`.
pub open spec fn spec_da3_blkinfo(raw: Seq<u8>, uuid: Uuid) -> Result<XfsDa3Blkinfo, ParseError> {
    if raw.len() < 56 {
        Err(ParseError::UnexpectedEnd)
    } else if be128(raw, 32) != uuid.0 {
        Err(ParseError::UuidMismatch)
    } else {
        Ok(XfsDa3Blkinfo { forw: be32(raw, 0) as u32, magic: be16(raw, 8) as u16 })
    }
}

impl XfsDa3Blkinfo {
    pub const SIZE: usize = 56;

    /// Decode the header at the start of `raw`; its UUID must be `uuid`.
    pub fn decode(raw: &[u8], uuid: Uuid) -> (r: Result<XfsDa3Blkinfo, ParseError>)
        ensures
            r == spec_da3_blkinfo(raw@, uuid),
    {
        if raw.len() < 56 {
            return Err(ParseError::UnexpectedEnd);
        }
        let forw = match decode_u32(raw, 0) {
            Ok(v) => v,
            Err(e) => return Err(e),
        };
        let magic = match decode_u16(raw, 8) {
            Ok(v) => v,
            Err(e) => return Err(e),
        };
        let u = match Uuid::decode(raw, 32) {
            Ok(v) => v,
            Err(e) => return Err(e),
        };
        if u != uuid {
            return Err(ParseError::UuidMismatch);
        }
        Ok(XfsDa3Blkinfo { forw, magic })
    }
}

/// An entry of a dabtree node: the largest hash in the subtree, and the subtree's block.
#[derive(Debug, Clone, Copy, PartialEq, Eq, Structural)]
pub struct XfsDa3NodeEntry {
    pub hashval: XfsDahash,
    pub before: XfsDablk,
}

impl XfsDa3NodeEntry {
    pub const SIZE: usize = 8;

    /// Decode the entry at offset `ofs` of `raw`.
    pub fn from(raw: &[u8], ofs: usize) -> (r: Result<XfsDa3NodeEntry, ParseError>)
        ensures
            r is Ok <==> ofs + 8 <= raw@.len(),
            r matches Ok(e) ==> e.hashval as int == be32(raw@, ofs as int) && e.before as int
                == be32(raw@, ofs + 4),
    {
        let len: usize = raw.len();
        let hashval = match decode_u32(raw, ofs) {
            Ok(v) => v,
            Err(e) => return Err(e),
        };
        let before = match decode_u32(raw, ofs + 4) {
            Ok(v) => v,
            Err(e) => return Err(e),
        };
        Ok(XfsDa3NodeEntry { hashval, before })
    }
}

/// Entries ordered by hash.
pub open spec fn entries_sorted(s: Seq<XfsDa3NodeEntry>) -> bool {
    forall|i: int, j: int| 0 <= i <= j < s.len() ==> s[i].hashval <= s[j].hashval
}

/// The number of leading entries whose hash is below `hash`.
pub open spec fn hash_lb(s: Seq<XfsDa3NodeEntry>, hash: u32) -> nat
    decreases s.len(),
{
    if s.len() == 0 || s[0].hashval >= hash {
        0
    } else {
        1 + hash_lb(s.drop_first(), hash)
    }
}

proof fn lemma_hash_lb(s: Seq<XfsDa3NodeEntry>, hash: u32, p: int)
    requires
        0 <= p <= s.len(),
        forall|i: int| 0 <= i < p ==> #[trigger] s[i].hashval < hash,
        forall|i: int| p <= i < s.len() ==> #[trigger] s[i].hashval >= hash,
    ensures
        hash_lb(s, hash) == p,
    decreases s.len(),
{
    if s.len() > 0 && s[0].hashval < hash {
        let t = s.drop_first();
        assert forall|i: int| 0 <= i < p - 1 implies #[trigger] t[i].hashval < hash by {
            assert(t[i] == s[i + 1]);
        }
        assert forall|i: int| p - 1 <= i < t.len() implies #[trigger] t[i].hashval >= hash by {
            assert(t[i] == s[i + 1]);
        }
        lemma_hash_lb(t, hash, p - 1);
    }
}

/// What a step of a dabtree search found.
#[derive(Debug, Clone, Copy, PartialEq, Eq, Structural)]
pub enum DaStep {
    /// The leaf block that holds what is sought.
    Found(XfsDablk),
    /// The child node block to search next.
    Descend(XfsDablk),
}

/// A dabtree interior node.  Could be either an xfs_da_intnode or xfs_da3_intnode, depending on
/// file system version.
#[derive(Debug)]
pub struct XfsDa3Intnode {
    pub magic: u16,
    pub level: u16,
    pub btree: Vec<XfsDa3NodeEntry>,
}

/// Where a node's entries start, given its magic.
pub open spec fn node_hdr_len(magic: u16) -> int {
    if magic == XFS_DA_NODE_MAGIC {
        16
    } else {
        64
    }
}

/// The entries of the dabtree node in `raw`, as many as its header counts.
pub open spec fn da_entries(raw: Seq<u8>) -> Seq<XfsDa3NodeEntry> {
    let h = node_hdr_len(be16(raw, 8) as u16);
    Seq::new(
        be16(raw, h - 4) as nat,
        |i: int| XfsDa3NodeEntry { hashval: be32(raw, h + 8 * i) as u32, before: be32(raw, h + 8 * i + 4) as u32 },
    )
}

/// Whether `raw` holds a dabtree node of the file system whose UUID is `uuid`: a version 4
/// node, or a version 5 one whose header names the file system; a level of at least one; and
/// all the entries it counts.
pub open spec fn da_node_ok(raw: Seq<u8>, uuid: Uuid) -> bool {
    &&& raw.len() >= 10
    &&& {
        let magic = be16(raw, 8);
        let h = node_hdr_len(magic as u16);
        &&& magic == XFS_DA_NODE_MAGIC || (magic == XFS_DA3_NODE_MAGIC && spec_da3_blkinfo(raw, uuid) is Ok)
        &&& raw.len() >= h
        &&& be16(raw, h - 2) != 0
        &&& h + 8 * be16(raw, h - 4) <= raw.len()
    }
}

impl XfsDa3Intnode {
    /// A decoded node: a known magic, and a level of at least one.
    pub open spec fn wf(&self) -> bool {
        &&& self.magic == XFS_DA_NODE_MAGIC || self.magic == XFS_DA3_NODE_MAGIC
        &&& self.level >= 1
    }

    /// Decode a node from the start of its block `raw`, for a file system whose UUID is `uuid`.
    pub fn decode(raw: &[u8], uuid: Uuid) -> (r: Result<XfsDa3Intnode, ParseError>)
        ensures
            r is Ok <==> da_node_ok(raw@, uuid),
            r matches Ok(n) ==> ({
                &&& n.wf()
                &&& n.magic as int == be16(raw@, 8)
                &&& n.level as int == be16(raw@, node_hdr_len(n.magic) - 2)
                &&& n.btree@ == da_entries(raw@)
            }),
            raw@.len() >= 10 && be16(raw@, 8) != XFS_DA_NODE_MAGIC && be16(raw@, 8)
                != XFS_DA3_NODE_MAGIC ==> r == Err::<XfsDa3Intnode, ParseError>(ParseError::BadMagic),
    {
        let magic = match decode_u16(raw, 8) {
            Ok(v) => v,
            Err(e) => return Err(e),
        };
        let hdr_len: usize = if magic == XFS_DA_NODE_MAGIC {
            16
        } else if magic == XFS_DA3_NODE_MAGIC {
            match XfsDa3Blkinfo::decode(raw, uuid) {
                Ok(_) => {},
                Err(e) => return Err(e),
            }
            64
        } else {
            return Err(ParseError::BadMagic);
        };
        let count = match decode_u16(raw, hdr_len - 4) {
            Ok(v) => v,
            Err(e) => return Err(e),
        };
        let level = match decode_u16(raw, hdr_len - 2) {
            Ok(v) => v,
            Err(e) => return Err(e),
        };
        if level == 0 {
            return Err(ParseError::InvalidValue);
        }
        let n: usize = count as usize;
        let mut btree: Vec<XfsDa3NodeEntry> = Vec::new();
        let mut i: usize = 0;
        while i < n
            invariant
                0 <= i <= n,
                n <= 0xffff,
                hdr_len <= 64,
                raw@.len() >= 10,
                magic as int == be16(raw@, 8),
                magic == XFS_DA_NODE_MAGIC || magic == XFS_DA3_NODE_MAGIC,
                hdr_len == node_hdr_len(magic),
                n == be16(raw@, hdr_len - 4),
                raw@.len() >= hdr_len,
                hdr_len + 8 * i <= raw@.len(),
                btree@ == da_entries(raw@).subrange(0, i as int),
                btree@.len() == i,
                forall|k: int|
                    0 <= k < i ==> (#[trigger] btree@[k]).hashval as int == be32(
                        raw@,
                        hdr_len + 8 * k,
                    ) && btree@[k].before as int == be32(raw@, hdr_len + 8 * k + 4),
            decreases n - i,
        {
            let e = match XfsDa3NodeEntry::from(raw, hdr_len + 8 * i) {
                Ok(e) => e,
                Err(e) => return Err(e),
            };
            proof {
                assert(da_entries(raw@)[i as int] == e);
                assert(da_entries(raw@).subrange(0, i + 1) =~= da_entries(raw@).subrange(0, i as int).push(e));
            }
            btree.push(e);
            i = i + 1;
        }
        proof {
            assert(da_entries(raw@).subrange(0, n as int) =~= da_entries(raw@));
        }
        Ok(XfsDa3Intnode { magic, level, btree })
    }

    /// The result of one step of a search for `hash`: the first entry whose hash is at least
    /// `hash` leads to the sought block, which is a leaf if this node is at level 1.
    pub open spec fn spec_lookup(&self, hash: u32) -> Result<DaStep, i32> {
        let p = hash_lb(self.btree@, hash) as int;
        if p >= self.btree@.len() {
            Err(ENOENT)
        } else if self.level == 1 {
            Ok(DaStep::Found(self.btree@[p].before))
        } else {
            Ok(DaStep::Descend(self.btree@[p].before))
        }
    }

    /// One step of the search for the leaf block that holds `hash`.
    pub fn lookup(&self, hash: u32) -> (r: Result<DaStep, i32>)
        requires
            self.wf(),
        ensures
            entries_sorted(self.btree@) ==> r == self.spec_lookup(hash),
            r == Err::<DaStep, i32>(ENOENT) || exists|i: int|
                0 <= i < self.btree@.len() && r == Ok::<DaStep, i32>(if self.level == 1 {
                    DaStep::Found((#[trigger] self.btree@[i]).before)
                } else {
                    DaStep::Descend(self.btree@[i].before)
                }),
    {
        let mut lo: usize = 0;
        let mut hi: usize = self.btree.len();
        while lo < hi
            invariant
                0 <= lo <= hi <= self.btree@.len(),
                entries_sorted(self.btree@) ==> forall|i: int| 0 <= i < lo ==> #[trigger] self.btree@[i].hashval < hash,
                entries_sorted(self.btree@) ==> forall|i: int| hi <= i < self.btree@.len() ==> #[trigger] self.btree@[i].hashval >= hash,
            decreases hi - lo,
        {
            let mid: usize = lo + (hi - lo) / 2;
            if self.btree[mid].hashval < hash {
                proof {
                    if entries_sorted(self.btree@) {
                        assert forall|i: int| 0 <= i < mid + 1 implies #[trigger] self.btree@[i].hashval < hash by {
                            assert(self.btree@[i].hashval <= self.btree@[mid as int].hashval);
                        }
                    }
                }
                lo = mid + 1;
            } else {
                proof {
                    if entries_sorted(self.btree@) {
                        assert forall|i: int| mid <= i < self.btree@.len() implies #[trigger] self.btree@[i].hashval >= hash by {
                            assert(self.btree@[mid as int].hashval <= self.btree@[i].hashval);
                        }
                    }
                }
                hi = mid;
            }
        }
        proof {
            if entries_sorted(self.btree@) {
                lemma_hash_lb(self.btree@, hash, lo as int);
            }
        }
        if lo >= self.btree.len() {
            return Err(ENOENT);
        }
        let before: XfsDablk = self.btree[lo].before;
        if self.level == 1 {
            Ok(DaStep::Found(before))
        } else {
            Ok(DaStep::Descend(before))
        }
    }

    /// One step of the search for the first leaf block: the leftmost entry's block.
    pub fn first_block(&self) -> (r: DaStep)
        requires
            self.btree@.len() > 0,
        ensures
            self.level == 1 ==> r == DaStep::Found(self.btree@[0].before),
            self.level != 1 ==> r == DaStep::Descend(self.btree@[0].before),
    {
        let before: XfsDablk = self.btree[0].before;
        if self.level == 1 {
            DaStep::Found(before)
        } else {
            DaStep::Descend(before)
        }
    }
}

} // verus!
