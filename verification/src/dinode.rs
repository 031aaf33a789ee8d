//! On-disk inodes: where an inode lies, and its data and attribute forks.
use vstd::prelude::*;

use crate::attr::Attributes;
use crate::attr_bptree::AttrBtree;
use crate::attr_shortform::{spec_sf_attrs, AttrShortform};
use crate::bmbt_rec::{extents_in_range, spec_bmbt_rec, written, BmbtRec, Bmx};
use crate::btree::{check_in_range, BmbtKey, BmdrBlock, BtreeNode, XfsBmbtPtr};
use crate::definitions::{
    XfsFsblock, XfsIno, S_IFBLK, S_IFCHR, S_IFDIR, S_IFIFO, S_IFLNK, S_IFMT, S_IFREG, S_IFSOCK,
};
use crate::dinode_core::{spec_dinode_core, DinodeCore, XfsDinodeFmt};
use crate::dir3::{Directory, XFS_DIR3_FT_DIR};
use crate::dir3_lf::{Dfork, Dir2Lf};
use crate::file::FileMetadata;
use crate::file_btree::FileBtree;
use crate::file_extent_list::FileExtentList;
use crate::dir3_sf::{sf_list, spec_sf_entries, spec_sf_hdr, Dir2Sf};
use crate::sb::Sb;
use crate::utils::{be128, be16, be64, decode_bytes, decode_u64, ParseError};

verus! {

/// The `n` extent records stored from byte `ofs` of `raw` on.
pub open spec fn spec_recs(raw: Seq<u8>, ofs: int, n: nat) -> Seq<BmbtRec> {
    Seq::new(n, |i: int| spec_bmbt_rec(be128(raw, ofs + 16 * i) as u128))
}

/// The `n` B+tree keys stored from byte `ofs` of `raw` on.
pub open spec fn spec_keys(raw: Seq<u8>, ofs: int, n: nat) -> Seq<BmbtKey> {
    Seq::new(n, |i: int| BmbtKey { br_startoff: be64(raw, ofs + 8 * i) as u64 })
}

/// The `n` B+tree pointers stored from byte `ofs` of `raw` on.
pub open spec fn spec_ptrs(raw: Seq<u8>, ofs: int, n: nat) -> Seq<u64> {
    Seq::new(n, |i: int| be64(raw, ofs + 8 * i) as u64)
}

/// The number of records that a signed count stands for: none if it is negative.
pub open spec fn count_of(n: int) -> nat {
    if n < 0 {
        0
    } else {
        n as nat
    }
}

/// Decode `n` extent records stored from byte `ofs` of `raw` on.
pub fn decode_recs(raw: &[u8], ofs: usize, n: usize) -> (r: Result<Vec<BmbtRec>, ParseError>)
    ensures
        r is Ok <==> ofs + 16 * n <= raw@.len(),
        r matches Ok(v) ==> v@ == spec_recs(raw@, ofs as int, n as nat),
{
    let len: usize = raw.len();
    if ofs > len || (len - ofs) / 16 < n {
        return Err(ParseError::UnexpectedEnd);
    }
    let mut v: Vec<BmbtRec> = Vec::new();
    let mut i: usize = 0;
    while i < n
        invariant
            0 <= i <= n,
            len == raw@.len(),
            ofs + 16 * n <= len,
            v@.len() == i,
            forall|k: int| 0 <= k < i ==> #[trigger] v@[k] == spec_bmbt_rec(be128(raw@, ofs + 16 * k) as u128),
        decreases n - i,
    {
        let rec = match BmbtRec::decode(raw, ofs + 16 * i) {
            Ok(r) => r,
            Err(e) => return Err(e),
        };
        v.push(rec);
        i = i + 1;
    }
    proof {
        assert(v@ =~= spec_recs(raw@, ofs as int, n as nat));
    }
    Ok(v)
}

/// Decode the B+tree root header and keys stored from byte `ofs` of `raw` on.
pub fn decode_root_keys(raw: &[u8], ofs: usize) -> (r: Result<(BmdrBlock, Vec<BmbtKey>), ParseError>)
    ensures
        r is Ok <==> ofs + 4 + 8 * be16(raw@, ofs + 2) <= raw@.len(),
        r matches Ok((b, k)) ==> b.bb_level as int == be16(raw@, ofs as int) && b.bb_numrecs as int
            == be16(raw@, ofs + 2) && k@ == spec_keys(raw@, ofs + 4, b.bb_numrecs as nat),
{
    let len: usize = raw.len();
    let bmdr = match BmdrBlock::decode(raw, ofs) {
        Ok(b) => b,
        Err(e) => return Err(e),
    };
    let n: usize = bmdr.bb_numrecs as usize;
    if (len - ofs - 4) / 8 < n {
        return Err(ParseError::UnexpectedEnd);
    }
    let mut keys: Vec<BmbtKey> = Vec::new();
    let mut i: usize = 0;
    while i < n
        invariant
            0 <= i <= n,
            len == raw@.len(),
            ofs + 4 + 8 * n <= len,
            keys@.len() == i,
            forall|k: int| 0 <= k < i ==> #[trigger] keys@[k] == (BmbtKey { br_startoff: be64(raw@, ofs + 4 + 8 * k) as u64 }),
        decreases n - i,
    {
        let key = match BmbtKey::decode(raw, ofs + 4 + 8 * i) {
            Ok(k) => k,
            Err(e) => return Err(e),
        };
        keys.push(key);
        i = i + 1;
    }
    proof {
        assert(keys@ =~= spec_keys(raw@, ofs + 4, n as nat));
    }
    Ok((bmdr, keys))
}

/// Decode `n` B+tree pointers stored from byte `ofs` of `raw` on.
pub fn decode_ptrs(raw: &[u8], ofs: usize, n: usize) -> (r: Result<Vec<XfsBmbtPtr>, ParseError>)
    ensures
        r is Ok <==> ofs + 8 * n <= raw@.len(),
        r matches Ok(v) ==> v@ == spec_ptrs(raw@, ofs as int, n as nat),
{
    let len: usize = raw.len();
    if ofs > len || (len - ofs) / 8 < n {
        return Err(ParseError::UnexpectedEnd);
    }
    let mut v: Vec<u64> = Vec::new();
    let mut i: usize = 0;
    while i < n
        invariant
            0 <= i <= n,
            len == raw@.len(),
            ofs + 8 * n <= len,
            v@.len() == i,
            forall|k: int| 0 <= k < i ==> #[trigger] v@[k] == be64(raw@, ofs + 8 * k) as u64,
        decreases n - i,
    {
        let p = match decode_u64(raw, ofs + 8 * i) {
            Ok(p) => p,
            Err(e) => return Err(e),
        };
        v.push(p);
        i = i + 1;
    }
    proof {
        assert(v@ =~= spec_ptrs(raw@, ofs as int, n as nat));
    }
    Ok(v)
}

/// The B+tree root stored from byte `ofs` of `raw` on, whose pointers follow its keys after
/// `gap` bytes, fits in `raw`.
pub open spec fn root_fits(raw: Seq<u8>, ofs: int, gap: int) -> bool {
    let n = be16(raw, ofs + 2);
    &&& gap >= 0
    &&& ofs + 4 + 8 * n + gap + 8 * n <= raw.len()
}

/// `root` is the B+tree root stored from byte `ofs` of `raw` on, whose pointers follow its keys
/// after `gap` bytes.
pub open spec fn root_is(root: (BmdrBlock, Vec<BmbtKey>, Vec<XfsBmbtPtr>), raw: Seq<u8>, ofs: int, gap: int) -> bool {
    let n = be16(raw, ofs + 2);
    &&& root.0.bb_level as int == be16(raw, ofs)
    &&& root.0.bb_numrecs as int == n
    &&& root.1@ == spec_keys(raw, ofs + 4, n as nat)
    &&& root.2@ == spec_ptrs(raw, ofs + 4 + 8 * n + gap, n as nat)
}

/// The data fork of an inode.
#[derive(Debug)]
pub enum DiU {
    Blk,
    Bmbt((BmdrBlock, Vec<BmbtKey>, Vec<XfsBmbtPtr>)),
    Bmx(Vec<BmbtRec>),
    Chr,
    Dir2Sf(Dir2Sf),
    Fifo,
    Socket,
    Symlink(Vec<u8>),
}

/// The attribute fork of an inode.
#[derive(Debug)]
pub enum DiA {
    Attrsf(AttrShortform),
    Abmx(Vec<BmbtRec>),
    Abmbt((BmdrBlock, Vec<BmbtKey>, Vec<XfsBmbtPtr>)),
}

/// Whether the data fork's B+tree root has room for its keys: the gap before its pointers is
/// then computed without underflow.
pub open spec fn dgap_ok(c: DinodeCore, inode_size: int, n: int) -> bool {
    &&& (c.di_forkoff == 0 ==> inode_size >= c.spec_literal_area_offset())
    &&& c.spec_dfork_space(inode_size) >= 4 + n * 8
}

/// Whether the data fork's B+tree root in the inode `raw`, whose core is `c`, is well formed.
pub open spec fn droot_ok(raw: Seq<u8>, c: DinodeCore) -> bool {
    let lit = c.spec_literal_area_offset();
    let n = be16(raw, lit + 2);
    &&& lit + 4 <= raw.len()
    &&& dgap_ok(c, raw.len() as int, n)
    &&& root_fits(raw, lit, c.spec_dfork_btree_ptr_gap(raw.len() as int, n))
}

/// Whether a short form directory is stored in `raw`.
pub open spec fn sf_dir_ok(raw: Seq<u8>) -> bool {
    spec_sf_hdr(raw) matches Some((h, n)) && spec_sf_entries(raw, n, h.count as nat, h.i8count > 0) is Some
}

/// `d` is the short form directory stored in `raw`, with `ino` as the inode number of ".".
pub open spec fn sf_dir_is(d: Dir2Sf, raw: Seq<u8>, ino: XfsIno) -> bool {
    let (h, n) = spec_sf_hdr(raw).unwrap();
    &&& d.hdr == h
    &&& d.view_list() == sf_list(h.parent, spec_sf_entries(raw, n, h.count as nat, h.i8count > 0).unwrap()).update(
        0,
        (1u8, 1u16, seq![46u8], XFS_DIR3_FT_DIR, ino),
    )
}

/// Whether the data fork of the inode `raw`, whose core is `c`, is one that is served and is
/// well formed: extents or a B+tree for regular files and directories, a short form directory,
/// a symlink's target in the inode or in extents, or nothing for devices, FIFOs and sockets.
pub open spec fn data_fork_ok(raw: Seq<u8>, c: DinodeCore) -> bool {
    let lit = c.spec_literal_area_offset();
    let fmt = c.di_mode & S_IFMT;
    let recs_ok = lit + 16 * count_of(c.di_nextents as int) <= raw.len();
    if fmt == S_IFREG {
        ||| c.di_format == XfsDinodeFmt::Extents && recs_ok
        ||| c.di_format == XfsDinodeFmt::Btree && droot_ok(raw, c)
    } else if fmt == S_IFDIR {
        ||| c.di_format == XfsDinodeFmt::Local && sf_dir_ok(raw.subrange(lit, raw.len() as int))
        ||| c.di_format == XfsDinodeFmt::Extents && recs_ok
        ||| c.di_format == XfsDinodeFmt::Btree && droot_ok(raw, c)
    } else if fmt == S_IFLNK {
        ||| c.di_format == XfsDinodeFmt::Local && 0 <= c.di_size && lit + c.di_size <= raw.len()
        ||| c.di_format == XfsDinodeFmt::Extents && recs_ok
    } else {
        fmt == S_IFBLK || fmt == S_IFCHR || fmt == S_IFIFO || fmt == S_IFSOCK
    }
}

/// `u` is the data fork of the inode `raw`, numbered `ino`, whose core is `c`.
pub open spec fn data_fork_is(u: DiU, raw: Seq<u8>, c: DinodeCore, ino: XfsIno) -> bool {
    let lit = c.spec_literal_area_offset();
    let fmt = c.di_mode & S_IFMT;
    let n = be16(raw, lit + 2);
    if (fmt == S_IFREG || fmt == S_IFDIR) && c.di_format == XfsDinodeFmt::Btree {
        u matches DiU::Bmbt(root) && root_is(root, raw, lit, c.spec_dfork_btree_ptr_gap(raw.len() as int, n))
    } else if (fmt == S_IFREG || fmt == S_IFDIR || fmt == S_IFLNK) && c.di_format == XfsDinodeFmt::Extents {
        u matches DiU::Bmx(v) && v@ == spec_recs(raw, lit, count_of(c.di_nextents as int))
    } else if fmt == S_IFDIR {
        u matches DiU::Dir2Sf(d) && sf_dir_is(d, raw.subrange(lit, raw.len() as int), ino)
    } else if fmt == S_IFLNK {
        u matches DiU::Symlink(v) && v@ == raw.subrange(lit, lit + c.di_size)
    } else if fmt == S_IFBLK {
        u is Blk
    } else if fmt == S_IFCHR {
        u is Chr
    } else if fmt == S_IFIFO {
        u is Fifo
    } else {
        u is Socket
    }
}

/// Decode a B+tree root from byte `ofs` of `raw` on, whose pointers follow its keys after
/// `gap` bytes.
fn decode_root(raw: &[u8], ofs: usize, gap: usize) -> (r: Result<(BmdrBlock, Vec<BmbtKey>, Vec<XfsBmbtPtr>), ParseError>)
    requires
        ofs + 4 + 8 * be16(raw@, ofs + 2) <= raw@.len(),
    ensures
        r is Ok <==> root_fits(raw@, ofs as int, gap as int),
        r matches Ok(root) ==> root_is(root, raw@, ofs as int, gap as int),
{
    let (bmdr, keys) = match decode_root_keys(raw, ofs) {
        Ok(x) => x,
        Err(e) => return Err(e),
    };
    let n: usize = bmdr.bb_numrecs as usize;
    let len: usize = raw.len();
    if len - (ofs + 4 + 8 * n) < gap {
        return Err(ParseError::UnexpectedEnd);
    }
    let ptrs = match decode_ptrs(raw, ofs + 4 + 8 * n + gap, n) {
        Ok(p) => p,
        Err(e) => return Err(e),
    };
    Ok((bmdr, keys, ptrs))
}

/// Decode the B+tree root of the data fork of the inode `raw`, whose core is `c`.
fn decode_droot(raw: &[u8], c: &DinodeCore) -> (r: Result<(BmdrBlock, Vec<BmbtKey>, Vec<XfsBmbtPtr>), ParseError>)
    requires
        spec_dinode_core(raw@) == Ok::<DinodeCore, ParseError>(*c),
        c.di_format == XfsDinodeFmt::Btree,
        raw@.len() <= 0xffff,
    ensures
        r is Ok <==> droot_ok(raw@, *c),
        r matches Ok(root) ==> root_is(
            root,
            raw@,
            c.spec_literal_area_offset(),
            c.spec_dfork_btree_ptr_gap(raw@.len() as int, be16(raw@, c.spec_literal_area_offset() + 2)),
        ),
{
    let lit: usize = c.literal_area_offset();
    let len: usize = raw.len();
    if len - lit < 4 {
        return Err(ParseError::UnexpectedEnd);
    }
    let n: u16 = match crate::utils::decode_u16(raw, lit + 2) {
        Ok(v) => v,
        Err(e) => return Err(e),
    };
    let space: usize = if c.di_forkoff == 0 {
        (len - lit) / 2
    } else {
        let sp: usize = (c.di_forkoff as usize) * 8 / 2;
        if sp % 8 == 0 {
            sp
        } else {
            sp + 8 - sp % 8
        }
    };
    if space < 4 + 8 * (n as usize) {
        return Err(ParseError::InvalidValue);
    }
    let gap: usize = c.dfork_btree_ptr_gap(len, n);
    if len - lit < 4 + 8 * (n as usize) {
        return Err(ParseError::UnexpectedEnd);
    }
    decode_root(raw, lit, gap)
}

/// Decode the short form directory of the inode `raw`, numbered `ino`, whose core is `c`.
fn decode_sf_dir(raw: &[u8], lit: usize, ino: XfsIno) -> (r: Result<Dir2Sf, ParseError>)
    requires
        lit <= raw@.len(),
    ensures
        r is Ok <==> sf_dir_ok(raw@.subrange(lit as int, raw@.len() as int)),
        r matches Ok(d) ==> sf_dir_is(d, raw@.subrange(lit as int, raw@.len() as int), ino),
{
    let fork = vstd::slice::slice_subrange(raw, lit, raw.len());
    match Dir2Sf::decode(fork) {
        Ok(d) => {
            let mut dir_sf = d;
            proof {
                assert(dir_sf.view_list().len() >= 2);
                assert(dir_sf.list@.len() == dir_sf.view_list().len());
                assert(dir_sf.list@[0]@ == dir_sf.view_list()[0]);
            }
            dir_sf.set_ino(ino);
            proof {
                assert(dir_sf.view_list() =~= sf_list(
                    dir_sf.hdr.parent,
                    spec_sf_entries(fork@, spec_sf_hdr(fork@).unwrap().1, dir_sf.hdr.count as nat, dir_sf.hdr.i8count > 0).unwrap(),
                ).update(0, (1u8, 1u16, seq![46u8], XFS_DIR3_FT_DIR, ino)));
            }
            Ok(dir_sf)
        },
        Err(e) => Err(e),
    }
}

/// Decode the data fork of the inode `raw`, numbered `ino`, whose core is `c`.
pub fn decode_data_fork(raw: &[u8], c: &DinodeCore, ino: XfsIno) -> (r: Result<DiU, ParseError>)
    requires
        spec_dinode_core(raw@) == Ok::<DinodeCore, ParseError>(*c),
        raw@.len() <= 0xffff,
    ensures
        r is Ok <==> data_fork_ok(raw@, *c),
        r matches Ok(u) ==> data_fork_is(u, raw@, *c, ino),
{
    let lit: usize = c.literal_area_offset();
    let len: usize = raw.len();
    let fmt: u16 = c.di_mode & S_IFMT;
    let nextents: usize = if c.di_nextents < 0 {
        0
    } else {
        c.di_nextents as usize
    };
    let is_file_or_dir: bool = fmt == S_IFREG || fmt == S_IFDIR;
    if is_file_or_dir && c.di_format == XfsDinodeFmt::Btree {
        match decode_droot(raw, c) {
            Ok(root) => Ok(DiU::Bmbt(root)),
            Err(e) => Err(e),
        }
    } else if (is_file_or_dir || fmt == S_IFLNK) && c.di_format == XfsDinodeFmt::Extents {
        match decode_recs(raw, lit, nextents) {
            Ok(v) => Ok(DiU::Bmx(v)),
            Err(e) => Err(e),
        }
    } else if fmt == S_IFDIR && c.di_format == XfsDinodeFmt::Local {
        match decode_sf_dir(raw, lit, ino) {
            Ok(d) => Ok(DiU::Dir2Sf(d)),
            Err(e) => Err(e),
        }
    } else if fmt == S_IFLNK && c.di_format == XfsDinodeFmt::Local {
        if c.di_size < 0 || c.di_size as u64 > (len - lit) as u64 {
            return Err(ParseError::UnexpectedEnd);
        }
        match decode_bytes(raw, lit, c.di_size as usize) {
            Ok(v) => Ok(DiU::Symlink(v)),
            Err(e) => Err(e),
        }
    } else if fmt == S_IFBLK {
        Ok(DiU::Blk)
    } else if fmt == S_IFCHR {
        Ok(DiU::Chr)
    } else if fmt == S_IFIFO {
        Ok(DiU::Fifo)
    } else if fmt == S_IFSOCK {
        Ok(DiU::Socket)
    } else {
        Err(ParseError::InvalidValue)
    }
}

/// Where the attribute fork of an inode whose core is `c` starts.
pub open spec fn afork_ofs(c: DinodeCore) -> int {
    c.spec_literal_area_offset() + c.di_forkoff * 8
}

/// Whether the attribute fork's B+tree root in the inode `raw`, whose core is `c`, is well
/// formed: the gap before its pointers is computed without underflow, and it fits.
pub open spec fn aroot_ok(raw: Seq<u8>, c: DinodeCore) -> bool {
    let ofs = afork_ofs(c);
    let n = be16(raw, ofs + 2);
    &&& ofs + 4 + 8 * n <= raw.len()
    &&& raw.len() >= c.spec_attr_fork_ofs()
    &&& c.spec_afork_btree_ptr_gap(raw.len() as int, n) >= 0
    &&& root_fits(raw, ofs, c.spec_afork_btree_ptr_gap(raw.len() as int, n))
}

/// Whether the attribute fork of the inode `raw`, whose core is `c`, is absent or well formed:
/// short form attributes, extents or a B+tree root.
pub open spec fn attr_fork_ok(raw: Seq<u8>, c: DinodeCore) -> bool {
    let ofs = afork_ofs(c);
    if c.di_forkoff == 0 {
        true
    } else if ofs > raw.len() {
        false
    } else if c.di_aformat == XfsDinodeFmt::Local {
        let fork = raw.subrange(ofs, raw.len() as int);
        fork.len() >= 4 && spec_sf_attrs(fork, 4, fork[2] as nat) is Some
    } else if c.di_aformat == XfsDinodeFmt::Extents {
        ofs + 16 * count_of(c.di_anextents as int) <= raw.len()
    } else if c.di_aformat == XfsDinodeFmt::Btree {
        aroot_ok(raw, c)
    } else {
        false
    }
}

/// `a` is the attribute fork of the inode `raw`, whose core is `c`.
pub open spec fn attr_fork_is(a: Option<DiA>, raw: Seq<u8>, c: DinodeCore) -> bool {
    let ofs = afork_ofs(c);
    let n = be16(raw, ofs + 2);
    if c.di_forkoff == 0 {
        a is None
    } else if c.di_aformat == XfsDinodeFmt::Local {
        let fork = raw.subrange(ofs, raw.len() as int);
        a matches Some(DiA::Attrsf(sf)) && sf.wf() && sf.view_list() == spec_sf_attrs(fork, 4, fork[2] as nat).unwrap()
    } else if c.di_aformat == XfsDinodeFmt::Extents {
        a matches Some(DiA::Abmx(v)) && v@ == spec_recs(raw, ofs, count_of(c.di_anextents as int))
    } else {
        a matches Some(DiA::Abmbt(root)) && root_is(root, raw, ofs, c.spec_afork_btree_ptr_gap(raw.len() as int, n))
    }
}

/// Decode the B+tree root of the attribute fork of the inode `raw`, whose core is `c`.
fn decode_aroot(raw: &[u8], c: &DinodeCore) -> (r: Result<(BmdrBlock, Vec<BmbtKey>, Vec<XfsBmbtPtr>), ParseError>)
    requires
        spec_dinode_core(raw@) == Ok::<DinodeCore, ParseError>(*c),
        c.di_aformat == XfsDinodeFmt::Btree,
        c.di_forkoff != 0,
        afork_ofs(*c) <= raw@.len(),
        raw@.len() <= 0xffff,
    ensures
        r is Ok <==> aroot_ok(raw@, *c),
        r matches Ok(root) ==> root_is(
            root,
            raw@,
            afork_ofs(*c),
            c.spec_afork_btree_ptr_gap(raw@.len() as int, be16(raw@, afork_ofs(*c) + 2)),
        ),
{
    let len: usize = raw.len();
    let ofs: usize = c.literal_area_offset() + c.di_forkoff as usize * 8;
    let (bmdr, keys) = match decode_root_keys(raw, ofs) {
        Ok(x) => x,
        Err(e) => return Err(e),
    };
    let n: u16 = bmdr.bb_numrecs;
    let mut attr_fork_ofs: usize = ofs;
    attr_fork_ofs = attr_fork_ofs - attr_fork_ofs % 8;
    if len < attr_fork_ofs {
        return Err(ParseError::InvalidValue);
    }
    let mut already: usize = 4 + 8 * (n as usize);
    if already % 8 > 0 {
        already = already + 8 - already % 8;
    }
    let mut ptr_ofs: usize = (len - attr_fork_ofs) / 2 + attr_fork_ofs;
    if ptr_ofs % 8 > 0 {
        ptr_ofs = ptr_ofs + 8 - ptr_ofs % 8;
    }
    if ptr_ofs < attr_fork_ofs + already {
        return Err(ParseError::InvalidValue);
    }
    let gap: usize = c.afork_btree_ptr_gap(len, n);
    match decode_root(raw, ofs, gap) {
        Ok(root) => Ok(root),
        Err(e) => Err(e),
    }
}

/// Decode the attribute fork of the inode `raw`, whose core is `c`, if it has one.
pub fn decode_attr_fork(raw: &[u8], c: &DinodeCore) -> (r: Result<Option<DiA>, ParseError>)
    requires
        spec_dinode_core(raw@) == Ok::<DinodeCore, ParseError>(*c),
        raw@.len() <= 0xffff,
    ensures
        r is Ok <==> attr_fork_ok(raw@, *c),
        r matches Ok(a) ==> attr_fork_is(a, raw@, *c),
{
    if c.di_forkoff == 0 {
        return Ok(None);
    }
    let len: usize = raw.len();
    let ofs: usize = c.literal_area_offset() + c.di_forkoff as usize * 8;
    if ofs > len {
        return Err(ParseError::UnexpectedEnd);
    }
    if c.di_aformat == XfsDinodeFmt::Local {
        match AttrShortform::decode(vstd::slice::slice_subrange(raw, ofs, len)) {
            Ok(sf) => Ok(Some(DiA::Attrsf(sf))),
            Err(e) => Err(e),
        }
    } else if c.di_aformat == XfsDinodeFmt::Extents {
        let n: usize = if c.di_anextents < 0 {
            0
        } else {
            c.di_anextents as usize
        };
        match decode_recs(raw, ofs, n) {
            Ok(v) => Ok(Some(DiA::Abmx(v))),
            Err(e) => Err(e),
        }
    } else if c.di_aformat == XfsDinodeFmt::Btree {
        match decode_aroot(raw, c) {
            Ok(root) => Ok(Some(DiA::Abmbt(root))),
            Err(e) => Err(e),
        }
    } else {
        Err(ParseError::InvalidValue)
    }
}

/// An inode: its core, its data fork and its attribute fork, if any.
#[derive(Debug)]
pub struct Dinode {
    pub di_core: DinodeCore,
    pub di_u: DiU,
    pub di_a: Option<DiA>,
}

/// Whether `raw` holds an inode that is served: a valid core, and forks of the forms served.
pub open spec fn dinode_ok(raw: Seq<u8>) -> bool {
    &&& spec_dinode_core(raw) is Ok
    &&& data_fork_ok(raw, spec_dinode_core(raw).unwrap())
    &&& attr_fork_ok(raw, spec_dinode_core(raw).unwrap())
}

impl Dinode {
    /// Decode the inode `raw`, which is as long as the file system's inodes, and whose number
    /// is `inode_number`.
    pub fn from(raw: &[u8], inode_number: XfsIno) -> (r: Result<Dinode, ParseError>)
        requires
            raw@.len() <= 0xffff,
        ensures
            r is Ok <==> dinode_ok(raw@),
            r matches Ok(d) ==> ({
                &&& spec_dinode_core(raw@) == Ok::<DinodeCore, ParseError>(d.di_core)
                &&& data_fork_is(d.di_u, raw@, d.di_core, inode_number)
                &&& attr_fork_is(d.di_a, raw@, d.di_core)
            }),
    {
        let (di_core, _) = match DinodeCore::decode(raw) {
            Ok(x) => x,
            Err(e) => return Err(e),
        };
        let di_u = match decode_data_fork(raw, &di_core, inode_number) {
            Ok(u) => u,
            Err(e) => return Err(e),
        };
        let di_a = match decode_attr_fork(raw, &di_core) {
            Ok(a) => a,
            Err(e) => return Err(e),
        };
        Ok(Dinode { di_core, di_u, di_a })
    }
}

/// Whether the superblock's geometry allows the shifts that locate an inode.
pub open spec fn geometry_ok(sb: Sb) -> bool {
    &&& sb.sb_agblklog + sb.sb_inopblog < 64
    &&& sb.sb_blocklog < 64
    &&& sb.sb_inodelog < 64
}

/// Where the inode numbered `ino` lies, as a byte offset on the device, if its allocation group
/// exists: the inode number holds the allocation group, the block within it and the inode
/// within that block.  Each part is shifted in 64 bits; their sum is exact.
pub open spec fn spec_inode_offset(sb: Sb, ino: u64) -> Option<int> {
    let ag_no = ino >> (sb.sb_agblklog + sb.sb_inopblog) as u64;
    let ag_blk = (ino >> sb.sb_inopblog as u64) & (((1u64 << sb.sb_agblklog as u64) - 1) as u64);
    let blk_ino = ino & (((1u64 << sb.sb_inopblog as u64) - 1) as u64);
    if ag_no >= sb.sb_agcount {
        None
    } else {
        Some(
            (((ag_no * sb.sb_agblocks) as u64) << sb.sb_blocklog as u64) + (ag_blk
                << sb.sb_blocklog as u64) + (blk_ino << sb.sb_inodelog as u64),
        )
    }
}

/// Whether `inode_offset` may be asked where the inode numbered `ino` lies: the geometry's
/// shifts are in range, and the offset fits in 64 bits.
pub fn can_locate_inode(sb: &Sb, ino: XfsIno) -> (r: bool)
    ensures
        r == (geometry_ok(*sb) && (spec_inode_offset(*sb, ino) matches Some(o) ==> o <= u64::MAX)),
{
    if sb.sb_agblklog as u16 + sb.sb_inopblog as u16 >= 64 || sb.sb_blocklog >= 64 || sb.sb_inodelog >= 64 {
        return false;
    }
    let ag_no: u64 = ino >> (sb.sb_agblklog + sb.sb_inopblog) as u64;
    if ag_no >= sb.sb_agcount as u64 {
        return true;
    }
    let a: u8 = sb.sb_agblklog;
    let p: u8 = sb.sb_inopblog;
    assert(1u64 << a >= 1 && 1u64 << p >= 1) by (bit_vector)
        requires
            a < 64,
            p < 64,
    ;
    let ag_blk: u64 = (ino >> sb.sb_inopblog as u64) & ((1u64 << sb.sb_agblklog as u64) - 1);
    let blk_ino: u64 = ino & ((1u64 << sb.sb_inopblog as u64) - 1);
    assert(ag_no * sb.sb_agblocks <= u64::MAX) by (nonlinear_arith)
        requires
            ag_no < sb.sb_agcount,
            sb.sb_agcount <= u32::MAX,
            sb.sb_agblocks <= u32::MAX,
    ;
    let x: u64 = (ag_no * sb.sb_agblocks as u64) << sb.sb_blocklog as u64;
    let y: u64 = ag_blk << sb.sb_blocklog as u64;
    let z: u64 = blk_ino << sb.sb_inodelog as u64;
    x as u128 + y as u128 + z as u128 <= u64::MAX as u128
}

/// The byte offset of the inode numbered `ino` on the device, or `None` if the allocation group
/// that the number names does not exist.
pub fn inode_offset(sb: &Sb, ino: XfsIno) -> (r: Option<u64>)
    requires
        geometry_ok(*sb),
        spec_inode_offset(*sb, ino) matches Some(o) ==> o <= u64::MAX,
    ensures
        r matches Some(o) ==> spec_inode_offset(*sb, ino) == Some(o as int),
        r is None <==> spec_inode_offset(*sb, ino) is None,
{
    let ag_no: u64 = ino >> (sb.sb_agblklog + sb.sb_inopblog) as u64;
    if ag_no >= sb.sb_agcount as u64 {
        return None;
    }
    let a: u8 = sb.sb_agblklog;
    let p: u8 = sb.sb_inopblog;
    assert(1u64 << a >= 1 && 1u64 << p >= 1) by (bit_vector)
        requires
            a < 64,
            p < 64,
    ;
    let ag_blk: u64 = (ino >> sb.sb_inopblog as u64) & ((1u64 << sb.sb_agblklog as u64) - 1);
    let blk_ino: u64 = ino & ((1u64 << sb.sb_inopblog as u64) - 1);
    assert(ag_no * sb.sb_agblocks <= u64::MAX) by (nonlinear_arith)
        requires
            ag_no < sb.sb_agcount,
            sb.sb_agcount <= u32::MAX,
            sb.sb_agblocks <= u32::MAX,
    ;
    let x: u64 = (ag_no * sb.sb_agblocks as u64) << sb.sb_blocklog as u64;
    let y: u64 = ag_blk << sb.sb_blocklog as u64;
    let z: u64 = blk_ino << sb.sb_inodelog as u64;
    Some(x + y + z)
}

/// What opening a directory inode gives: the directory, or, for a block directory, the file
/// system block that holds its single directory block, which is read next.
#[derive(Debug)]
pub enum DirOpen {
    Dir(Directory),
    ReadBlock(XfsFsblock),
}

/// What opening a symbolic link gives: its target, stored in the inode, or the extents that
/// hold it.
#[derive(Debug)]
pub enum LinkData {
    Local(Vec<u8>),
    Extents(Bmx),
}

/// What opening an inode's attributes gives: the attributes, or, for attributes held in
/// extents, those extents, whose first block is read next and given to `attr::open`.
#[derive(Debug)]
pub enum AttrOpen {
    Ready(Attributes),
    Open(Bmx),
}

/// Whether a B+tree root can be used to map blocks: its keys match its pointers one for one.
pub open spec fn root_wf(root: (BmdrBlock, Vec<BmbtKey>, Vec<XfsBmbtPtr>)) -> bool {
    root.1@.len() == root.2@.len()
}

/// Build the B+tree root from a fork's root, if it is well formed.
fn root_node(root: &(BmdrBlock, Vec<BmbtKey>, Vec<XfsBmbtPtr>)) -> (r: Result<BtreeNode, ParseError>)
    ensures
        r is Ok <==> root_wf(*root),
        r matches Ok(n) ==> n.wf() && n.level == root.0.bb_level && n.keys@ == root.1@ && n.ptrs@ == root.2@,
{
    if root.1.len() != root.2.len() {
        return Err(ParseError::InvalidValue);
    }
    Ok(BtreeNode::new(root.0, vstd::slice::slice_to_vec(root.1.as_slice()), vstd::slice::slice_to_vec(root.2.as_slice())))
}

/// Whether `data` holds a NUL byte.
fn contains_nul(data: &[u8]) -> (r: bool)
    ensures
        r == data@.contains(0u8),
{
    let n: usize = data.len();
    let mut i: usize = 0;
    while i < n
        invariant
            0 <= i <= n,
            n == data@.len(),
            forall|k: int| 0 <= k < i ==> data@[k] != 0u8,
        decreases n - i,
    {
        if data[i] == 0 {
            proof {
                assert(data@[i as int] == 0u8);
            }
            return true;
        }
        i = i + 1;
    }
    false
}

impl Dinode {
    /// Open the inode as a directory: short form, block (one extent), leaf or node (more
    /// extents), or B+tree.  Extents must be in range, and a B+tree root well formed;
    /// other forks are not directories.
    pub fn get_dir(&self) -> (r: Result<DirOpen, ParseError>)
        ensures
            match &self.di_u {
                DiU::Dir2Sf(d) => r matches Ok(DirOpen::Dir(Directory::Sf(c))) && c.hdr == d.hdr
                    && c.view_list() == d.view_list(),
                DiU::Bmx(v) => if !extents_in_range(v@) {
                    r is Err
                } else if v@.len() == 1 {
                    r == Ok::<DirOpen, ParseError>(DirOpen::ReadBlock(v@[0].br_startblock))
                } else {
                    r matches Ok(DirOpen::Dir(Directory::Lf(l))) && l.dfork matches Dfork::Bmx(b)
                        && b@ == written(v@)
                },
                DiU::Bmbt(root) => if root_wf(*root) {
                    r matches Ok(DirOpen::Dir(Directory::Lf(l))) && l.dfork matches Dfork::Btree(n)
                        && n.wf() && n.level == root.0.bb_level && n.keys@ == root.1@ && n.ptrs@
                        == root.2@
                } else {
                    r is Err
                },
                _ => r is Err,
            },
    {
        match &self.di_u {
            DiU::Dir2Sf(dir) => Ok(DirOpen::Dir(Directory::Sf(dir.duplicate()))),
            DiU::Bmx(bmbtv) => {
                if !check_in_range(bmbtv.as_slice()) {
                    return Err(ParseError::InvalidValue);
                }
                if bmbtv.len() == 1 {
                    Ok(DirOpen::ReadBlock(bmbtv[0].br_startblock))
                } else {
                    let bmx = Bmx::new(bmbtv.as_slice());
                    Ok(DirOpen::Dir(Directory::Lf(Dir2Lf::from_bmx(bmx))))
                }
            },
            DiU::Bmbt(root) => {
                match root_node(root) {
                    Ok(n) => Ok(DirOpen::Dir(Directory::Lf(Dir2Lf { dfork: Dfork::Btree(n) }))),
                    Err(e) => Err(e),
                }
            },
            _ => Err(ParseError::InvalidValue),
        }
    }

    /// Open the inode as a regular file: its block map, extents or B+tree, and its size.
    /// Extents must be in range, and a B+tree root well formed; other forks are not
    /// regular files.
    pub fn get_file(&self) -> (r: Result<FileMetadata, ParseError>)
        ensures
            match &self.di_u {
                DiU::Bmx(v) => if extents_in_range(v@) {
                    r matches Ok(FileMetadata::Bmx(f)) && f.bmx@ == written(v@) && f.size
                        == self.di_core.di_size
                } else {
                    r is Err
                },
                DiU::Bmbt(root) => if root_wf(*root) {
                    r matches Ok(FileMetadata::Btree(f)) && f.btree.wf() && f.btree.level
                        == root.0.bb_level && f.btree.keys@ == root.1@ && f.btree.ptrs@ == root.2@
                        && f.size == self.di_core.di_size
                } else {
                    r is Err
                },
                _ => r is Err,
            },
    {
        match &self.di_u {
            DiU::Bmx(bmx) => {
                if !check_in_range(bmx.as_slice()) {
                    return Err(ParseError::InvalidValue);
                }
                Ok(FileMetadata::Bmx(FileExtentList { bmx: Bmx::new(bmx.as_slice()), size: self.di_core.di_size }))
            },
            DiU::Bmbt(root) => {
                match root_node(root) {
                    Ok(n) => Ok(FileMetadata::Btree(FileBtree { btree: n, size: self.di_core.di_size })),
                    Err(e) => Err(e),
                }
            },
            _ => Err(ParseError::InvalidValue),
        }
    }

    /// Open the inode as a symbolic link: its target, which may hold no NUL byte, or the
    /// extents that hold it, which must be in range.
    pub fn get_link_data(&self) -> (r: Result<LinkData, ParseError>)
        ensures
            match &self.di_u {
                DiU::Symlink(data) => if data@.contains(0u8) {
                    r is Err
                } else {
                    r matches Ok(LinkData::Local(v)) && v@ == data@
                },
                DiU::Bmx(v) => if extents_in_range(v@) {
                    r matches Ok(LinkData::Extents(b)) && b@ == written(v@)
                } else {
                    r is Err
                },
                _ => r is Err,
            },
    {
        match &self.di_u {
            DiU::Symlink(data) => {
                if contains_nul(data.as_slice()) {
                    return Err(ParseError::InvalidValue);
                }
                Ok(LinkData::Local(vstd::slice::slice_to_vec(data.as_slice())))
            },
            DiU::Bmx(bmbtv) => {
                if !check_in_range(bmbtv.as_slice()) {
                    return Err(ParseError::InvalidValue);
                }
                Ok(LinkData::Extents(Bmx::new(bmbtv.as_slice())))
            },
            _ => Err(ParseError::InvalidValue),
        }
    }

    /// Open the inode's attributes: short form attributes, the extents of a leaf or node fork
    /// (if there are any), or a B+tree; `None` if the inode has none.
    pub fn get_attrs(&self) -> (r: Result<Option<AttrOpen>, ParseError>)
        ensures
            match &self.di_a {
                None => r == Ok::<Option<AttrOpen>, ParseError>(None),
                Some(DiA::Attrsf(a)) => r matches Ok(Some(AttrOpen::Ready(Attributes::Sf(c))))
                    && c.view_list() == a.view_list() && c.total_size == a.total_size,
                Some(DiA::Abmx(v)) => if self.di_core.di_anextents <= 0 {
                    r == Ok::<Option<AttrOpen>, ParseError>(None)
                } else if extents_in_range(v@) {
                    r matches Ok(Some(AttrOpen::Open(b))) && b@ == written(v@)
                } else {
                    r is Err
                },
                Some(DiA::Abmbt(root)) => if root_wf(*root) {
                    r matches Ok(Some(AttrOpen::Ready(Attributes::Btree(t)))) && t.total_size == -1
                        && t.btree.wf() && t.btree.level == root.0.bb_level && t.btree.keys@ == root.1@
                        && t.btree.ptrs@ == root.2@
                } else {
                    r is Err
                },
            },
    {
        match &self.di_a {
            None => Ok(None),
            Some(DiA::Attrsf(attr)) => Ok(Some(AttrOpen::Ready(Attributes::Sf(attr.duplicate())))),
            Some(DiA::Abmx(bmbtv)) => {
                if self.di_core.di_anextents > 0 {
                    if !check_in_range(bmbtv.as_slice()) {
                        return Err(ParseError::InvalidValue);
                    }
                    Ok(Some(AttrOpen::Open(Bmx::new(bmbtv.as_slice()))))
                } else {
                    Ok(None)
                }
            },
            Some(DiA::Abmbt(root)) => {
                match root_node(root) {
                    Ok(n) => Ok(Some(AttrOpen::Ready(Attributes::Btree(AttrBtree::new(n))))),
                    Err(e) => Err(e),
                }
            },
        }
    }
}

/// The sector-aligned read that serves a read of `size` bytes at `offset` of a file of
/// `di_size` bytes: from the start of the block that holds `offset`, through the end of the
/// block that holds the last byte wanted.  `len` bytes of it are kept, of which the first
/// `skip` precede `offset`.  A read that starts past the end of the file reads nothing from the
/// device and keeps no bytes after `skip`.
#[derive(Debug, Clone, Copy, PartialEq, Eq, Structural)]
pub struct ReadWindow {
    pub offset: i64,
    pub size: u64,
    pub len: u64,
    pub skip: u64,
}

/// The read window for a read of `size` bytes at `offset` of a file of `di_size` bytes, on a
/// file system of `1 << blocklog`-byte blocks.  The read is cut at the end of the file.
pub open spec fn spec_read_window(di_size: i64, offset: i64, size: u32, blocklog: u8) -> ReadWindow {
    let bs = 1u64 << blocklog as u64;
    let want = spec_read_len(di_size, offset, size);
    let skip = (offset as int) % (bs as int);
    let len = want + skip;
    let rem = len % (bs as int);
    if offset > di_size {
        ReadWindow { offset: (offset - skip) as i64, size: 0, len: len as u64, skip: skip as u64 }
    } else {
        ReadWindow {
            offset: (offset - skip) as i64,
            size: (if rem > 0 {
                len + bs - rem
            } else {
                len
            }) as u64,
            len: len as u64,
            skip: skip as u64,
        }
    }
}

/// How many bytes a read of `size` bytes at `offset` of a file of `di_size` bytes gives: it is
/// cut at the end of the file, and gives nothing past it.
pub open spec fn spec_read_len(di_size: i64, offset: i64, size: u32) -> int {
    if di_size - offset <= 0 {
        0
    } else if (size as int) < di_size - offset {
        size as int
    } else {
        di_size - offset
    }
}

impl Dinode {
    /// Where to read from, and how much, to serve a read of `size` bytes at `offset`.
    pub fn read_window(&self, offset: i64, size: u32, blocklog: u8, blocksize: u32) -> (r: ReadWindow)
        requires
            0 <= offset,
            blocklog < 32,
            blocksize == 1u32 << blocklog as u32,
        ensures
            r == spec_read_window(self.di_core.di_size, offset, size, blocklog),
            offset <= self.di_core.di_size ==> r.len <= r.size,
            offset > self.di_core.di_size ==> r.size == 0,
            r.skip <= r.len,
            r.offset + r.skip == offset,
            r.len - r.skip == spec_read_len(self.di_core.di_size, offset, size),
            (r.offset as int) % (blocksize as int) == 0,
            (r.size as int) % (blocksize as int) == 0,
    {
        let past_end: bool = offset > self.di_core.di_size;
        let want: u32 = if past_end {
            0
        } else {
            let rest: i64 = self.di_core.di_size - offset;
            if (size as i64) < rest {
                size
            } else {
                rest as u32
            }
        };
        let bl: u64 = blocklog as u64;
        assert((1u64 << bl) as int == blocksize && blocksize >= 1 && blocksize <= 0x8000_0000) by (bit_vector)
            requires
                bl < 32,
                blocksize == 1u32 << bl as u32,
        ;
        let bs: u64 = blocksize as u64;
        let skip: u64 = (offset as u64) % bs;
        let len: u64 = want as u64 + skip;
        let rem: u64 = len % bs;
        let actual: u64 = if past_end {
            0
        } else if rem > 0 {
            len + bs - rem
        } else {
            len
        };
        proof {
            assert(offset as int % (bs as int) == (offset as u64) as int % (bs as int));
            vstd::arithmetic::div_mod::lemma_fundamental_div_mod(offset as int, bs as int);
            vstd::arithmetic::div_mod::lemma_fundamental_div_mod(len as int, bs as int);
            vstd::arithmetic::div_mod::lemma_mod_multiples_basic(offset as int / bs as int, bs as int);
            vstd::arithmetic::div_mod::lemma_mod_multiples_basic(len as int / bs as int + 1, bs as int);
            vstd::arithmetic::div_mod::lemma_mod_multiples_basic(len as int / bs as int, bs as int);
            assert((offset - skip) as int == (offset as int / bs as int) * bs) by (nonlinear_arith)
                requires
                    offset as int == bs * (offset as int / bs as int) + skip,
            ;
            if rem > 0 {
                assert((len + bs - rem) as int == (len as int / bs as int + 1) * bs) by (nonlinear_arith)
                    requires
                        len as int == bs * (len as int / bs as int) + rem,
                ;
            } else {
                assert(len as int == (len as int / bs as int) * bs) by (nonlinear_arith)
                    requires
                        len as int == bs * (len as int / bs as int) + rem,
                        rem == 0,
                ;
            }
        }
        ReadWindow { offset: offset - skip as i64, size: actual, len, skip }
    }
}

/// The state of a sector-aligned read of a file: the next logical block to read, and how many
/// bytes are still wanted.
#[derive(Debug, Clone, Copy, PartialEq, Eq, Structural)]
pub struct ReadSectors {
    pub logical_block: u64,
    pub remaining: usize,
}

impl ReadSectors {
    /// Start a read of `size` bytes at the block-aligned byte `offset`.
    pub fn new(offset: i64, size: usize, blocklog: u8) -> (r: ReadSectors)
        requires
            offset >= 0,
            blocklog < 64,
        ensures
            r.logical_block == (offset as u64) >> blocklog as u64,
            r.remaining == size,
    {
        ReadSectors { logical_block: (offset as u64) >> blocklog as u64, remaining: size }
    }

    /// Advance past the extent that holds the next logical block, given as its file system
    /// block (`None` in a hole) and its length in blocks; return the file system block to read
    /// from and the number of bytes to take from it (zeros, in a hole).
    pub fn step(&mut self, extent: (Option<XfsFsblock>, u64), blocklog: u8) -> (r: (Option<XfsFsblock>, usize))
        requires
            blocklog < 64,
            old(self).logical_block + extent.1 <= u64::MAX,
        ensures
            r.0 == extent.0,
            r.1 == if (old(self).remaining as int) < ((extent.1 << blocklog as u64) as int) {
                old(self).remaining as int
            } else {
                (extent.1 << blocklog as u64) as int
            },
            final(self).logical_block == old(self).logical_block + extent.1,
            final(self).remaining == old(self).remaining - r.1,
    {
        let (blk, blocks) = extent;
        let span: u64 = blocks << blocklog as u64;
        let z: usize = if (self.remaining as u64) < span {
            self.remaining
        } else {
            span as usize
        };
        self.logical_block = self.logical_block + blocks;
        self.remaining = self.remaining - z;
        (blk, z)
    }
}

} // verus!
