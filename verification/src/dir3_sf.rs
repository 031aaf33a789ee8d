//! Short form directories, whose entries are stored in the inode itself.
use vstd::prelude::*;

use crate::definitions::XfsIno;
use crate::dir3::{bytes_eq, XFS_DIR3_FT_DIR};
use crate::utils::{
    be16, be32, be64, decode_bytes, decode_u16, decode_u32, decode_u64, decode_u8, get_file_type,
    spec_file_type, FileKind, FileType, ParseError,
};

verus! {

/// The header of a short form directory: the number of entries, the number of them that need
/// 64-bit inode numbers, and the parent directory's inode number.
#[derive(Debug, Clone, Copy, PartialEq, Eq, Structural)]
pub struct Dir2SfHdr {
    pub count: u8,
    pub i8count: u8,
    pub parent: XfsIno,
}

/// The header at the start of `raw`, and its length, if `raw` holds it.  The parent's inode
/// number takes 8 bytes if any entry needs 64 bits, else 4.
pub open spec fn spec_sf_hdr(raw: Seq<u8>) -> Option<(Dir2SfHdr, int)> {
    if raw.len() < 2 {
        None
    } else if raw[1] > 0 {
        if raw.len() < 10 {
            None
        } else {
            Some((Dir2SfHdr { count: raw[0], i8count: raw[1], parent: be64(raw, 2) as u64 }, 10))
        }
    } else if raw.len() < 6 {
        None
    } else {
        Some((Dir2SfHdr { count: raw[0], i8count: raw[1], parent: be32(raw, 2) as u64 }, 6))
    }
}

impl Dir2SfHdr {
    /// Decode the header at the start of `raw`, and return its length.
    pub fn decode(raw: &[u8]) -> (r: Result<(Dir2SfHdr, usize), ParseError>)
        ensures
            r is Ok <==> spec_sf_hdr(raw@) is Some,
            r matches Ok((h, n)) ==> (h, n as int) == spec_sf_hdr(raw@).unwrap(),
    {
        let count: u8 = match decode_u8(raw, 0) {
            Ok(v) => v,
            Err(e) => return Err(e),
        };
        let i8count: u8 = match decode_u8(raw, 1) {
            Ok(v) => v,
            Err(e) => return Err(e),
        };
        if i8count > 0 {
            match decode_u64(raw, 2) {
                Ok(parent) => Ok((Dir2SfHdr { count, i8count, parent }, 10)),
                Err(e) => Err(e),
            }
        } else {
            match decode_u32(raw, 2) {
                Ok(parent) => Ok((Dir2SfHdr { count, i8count, parent: parent as u64 }, 6)),
                Err(e) => Err(e),
            }
        }
    }
}

/// A short form entry: its offset tag, name, file type and inode number (`wide` if the inode
/// number takes 8 bytes, else 4), and its length, if `raw` holds it all from byte `ofs` on.
pub open spec fn spec_sf_entry(raw: Seq<u8>, ofs: int, wide: bool) -> Option<
    ((u8, u16, Seq<u8>, u8, u64), int),
> {
    if ofs < 0 || ofs + 3 > raw.len() {
        None
    } else {
        let n = raw[ofs] as int;
        let f = ofs + 3 + n;
        let w = if wide {
            8int
        } else {
            4int
        };
        if f + 1 + w > raw.len() {
            None
        } else {
            Some(
                (
                    (
                        raw[ofs],
                        be16(raw, ofs + 1) as u16,
                        raw.subrange(ofs + 3, f),
                        raw[f],
                        if wide {
                            be64(raw, f + 1) as u64
                        } else {
                            be32(raw, f + 1) as u64
                        },
                    ),
                    4 + n + w,
                ),
            )
        }
    }
}

/// The `k` short form entries stored from byte `ofs` of `raw` on, if `raw` holds them all.
pub open spec fn spec_sf_entries(raw: Seq<u8>, ofs: int, k: nat, wide: bool) -> Option<
    Seq<(u8, u16, Seq<u8>, u8, u64)>,
>
    decreases k,
{
    if k == 0 {
        Some(Seq::empty())
    } else {
        match spec_sf_entry(raw, ofs, wide) {
            None => None,
            Some((e, n)) => match spec_sf_entries(raw, ofs + n, (k - 1) as nat, wide) {
                None => None,
                Some(rest) => Some(seq![e].add(rest)),
            },
        }
    }
}

/// A short form entry with a 32-bit inode number.
#[derive(Debug, Clone)]
pub struct Dir2SfEntry32 {
    pub namelen: u8,
    pub offset: u16,
    pub name: Vec<u8>,
    pub ftype: u8,
    pub inumber: u32,
}

impl View for Dir2SfEntry32 {
    type V = (u8, u16, Seq<u8>, u8, u64);

    open spec fn view(&self) -> Self::V {
        (self.namelen, self.offset, self.name@, self.ftype, self.inumber as u64)
    }
}

impl Dir2SfEntry32 {
    /// Decode the entry at byte `ofs` of `raw`, and return its length.
    pub fn decode(raw: &[u8], ofs: usize) -> (r: Result<(Dir2SfEntry32, usize), ParseError>)
        ensures
            r is Ok <==> spec_sf_entry(raw@, ofs as int, false) is Some,
            r matches Ok((e, n)) ==> (e@, n as int) == spec_sf_entry(raw@, ofs as int, false).unwrap(),
    {
        let namelen: u8 = match decode_u8(raw, ofs) {
            Ok(v) => v,
            Err(e) => return Err(e),
        };
        if raw.len() - ofs < 3 {
            return Err(ParseError::UnexpectedEnd);
        }
        let offset: u16 = match decode_u16(raw, ofs + 1) {
            Ok(v) => v,
            Err(e) => return Err(e),
        };
        let name: Vec<u8> = match decode_bytes(raw, ofs + 3, namelen as usize) {
            Ok(v) => v,
            Err(e) => return Err(e),
        };
        let f: usize = ofs + 3 + namelen as usize;
        let ftype: u8 = match decode_u8(raw, f) {
            Ok(v) => v,
            Err(e) => return Err(e),
        };
        let inumber: u32 = match decode_u32(raw, f + 1) {
            Ok(v) => v,
            Err(e) => return Err(e),
        };
        Ok((Dir2SfEntry32 { namelen, offset, name, ftype, inumber }, 8 + namelen as usize))
    }
}

/// A short form entry, with its inode number widened to 64 bits.
#[derive(Debug, Clone)]
pub struct Dir2SfEntry64 {
    pub namelen: u8,
    pub offset: u16,
    pub name: Vec<u8>,
    pub ftype: u8,
    pub inumber: XfsIno,
}

impl View for Dir2SfEntry64 {
    type V = (u8, u16, Seq<u8>, u8, u64);

    open spec fn view(&self) -> Self::V {
        (self.namelen, self.offset, self.name@, self.ftype, self.inumber)
    }
}

impl Dir2SfEntry64 {
    /// Decode the entry at byte `ofs` of `raw`, and return its length.
    pub fn decode(raw: &[u8], ofs: usize) -> (r: Result<(Dir2SfEntry64, usize), ParseError>)
        ensures
            r is Ok <==> spec_sf_entry(raw@, ofs as int, true) is Some,
            r matches Ok((e, n)) ==> (e@, n as int) == spec_sf_entry(raw@, ofs as int, true).unwrap(),
    {
        let namelen: u8 = match decode_u8(raw, ofs) {
            Ok(v) => v,
            Err(e) => return Err(e),
        };
        if raw.len() - ofs < 3 {
            return Err(ParseError::UnexpectedEnd);
        }
        let offset: u16 = match decode_u16(raw, ofs + 1) {
            Ok(v) => v,
            Err(e) => return Err(e),
        };
        let name: Vec<u8> = match decode_bytes(raw, ofs + 3, namelen as usize) {
            Ok(v) => v,
            Err(e) => return Err(e),
        };
        let f: usize = ofs + 3 + namelen as usize;
        let ftype: u8 = match decode_u8(raw, f) {
            Ok(v) => v,
            Err(e) => return Err(e),
        };
        let inumber: u64 = match decode_u64(raw, f + 1) {
            Ok(v) => v,
            Err(e) => return Err(e),
        };
        Ok((Dir2SfEntry64 { namelen, offset, name, ftype, inumber }, 12 + namelen as usize))
    }

    /// An entry of the given name, file type, offset tag and inode number.
    pub fn new(name: &[u8], ftype: u8, offset: u16, inumber: XfsIno) -> (r: Self)
        ensures
            r@ == (name@.len() as u8, offset, name@, ftype, inumber),
    {
        let namelen: u8 = name.len() as u8;
        Dir2SfEntry64 { namelen, offset, name: vstd::slice::slice_to_vec(name), ftype, inumber }
    }

    /// Widen an entry with a 32-bit inode number.
    pub fn from_entry32(e32: Dir2SfEntry32) -> (r: Self)
        ensures
            r@ == e32@,
    {
        Dir2SfEntry64 {
            namelen: e32.namelen,
            offset: e32.offset,
            name: e32.name,
            ftype: e32.ftype,
            inumber: e32.inumber as u64,
        }
    }
}

/// A short form directory: its header, and its entries, "." and ".." first.
#[derive(Debug, Clone)]
pub struct Dir2Sf {
    pub hdr: Dir2SfHdr,
    pub list: Vec<Dir2SfEntry64>,
}

/// The entries of a short form directory whose parent is `parent`, as `decode` gives them:
/// "." and "..", which are not stored, then those stored.  The inode number of "." is not
/// stored either, and stands as `u64::MAX` until it is set.
pub open spec fn sf_list(parent: u64, stored: Seq<(u8, u16, Seq<u8>, u8, u64)>) -> Seq<
    (u8, u16, Seq<u8>, u8, u64),
> {
    seq![
        (1u8, 1u16, seq![46u8], XFS_DIR3_FT_DIR, u64::MAX),
        (2u8, 2u16, seq![46u8, 46u8], XFS_DIR3_FT_DIR, parent),
    ].add(stored)
}

/// The inode number of the last of `list` whose name is `name`, if any.
pub open spec fn sf_lookup(list: Seq<(u8, u16, Seq<u8>, u8, u64)>, name: Seq<u8>) -> Option<u64>
    decreases list.len(),
{
    if list.len() == 0 {
        None
    } else if list.last().2 == name {
        Some(list.last().4)
    } else {
        sf_lookup(list.drop_last(), name)
    }
}

/// The index of the first of `list[k..]` whose offset tag is beyond `offset`, if any.
pub open spec fn sf_next_index(list: Seq<(u8, u16, Seq<u8>, u8, u64)>, offset: int, k: int) -> Option<int>
    decreases list.len() - k,
{
    if k < 0 || k >= list.len() {
        None
    } else if list[k].1 > offset {
        Some(k)
    } else {
        sf_next_index(list, offset, k + 1)
    }
}

impl Dir2Sf {
    pub open spec fn view_list(&self) -> Seq<(u8, u16, Seq<u8>, u8, u64)> {
        self.list@.map_values(|e: Dir2SfEntry64| e@)
    }

    /// Decode a short form directory from the inode's data fork `raw`.
    pub fn decode(raw: &[u8]) -> (r: Result<Dir2Sf, ParseError>)
        ensures
            r is Ok <==> (spec_sf_hdr(raw@) matches Some((h, n)) && spec_sf_entries(
                raw@,
                n,
                h.count as nat,
                h.i8count > 0,
            ) is Some),
            r matches Ok(d) ==> ({
                let (h, n) = spec_sf_hdr(raw@).unwrap();
                &&& d.hdr == h
                &&& d.view_list() == sf_list(
                    h.parent,
                    spec_sf_entries(raw@, n, h.count as nat, h.i8count > 0).unwrap(),
                )
            }),
    {
        let (hdr, hlen) = match Dir2SfHdr::decode(raw) {
            Ok(x) => x,
            Err(e) => return Err(e),
        };
        let wide: bool = hdr.i8count > 0;
        let mut list: Vec<Dir2SfEntry64> = Vec::new();
        // Alone out of all the directory types, SF directories to not store the "." and ".."
        // entries on disk.  We must synthesize them here.
        let dot: [u8; 1] = [46u8];
        let dotdot: [u8; 2] = [46u8, 46u8];
        list.push(Dir2SfEntry64::new(dot.as_slice(), XFS_DIR3_FT_DIR, 1, u64::MAX));
        list.push(Dir2SfEntry64::new(dotdot.as_slice(), XFS_DIR3_FT_DIR, 2, hdr.parent));
        proof {
            assert(dot@ =~= seq![46u8]);
            assert(dotdot@ =~= seq![46u8, 46u8]);
        }
        let ghost whole = spec_sf_entries(raw@, hlen as int, hdr.count as nat, wide);
        let ghost mut got: Seq<(u8, u16, Seq<u8>, u8, u64)> = Seq::empty();
        let len: usize = raw.len();
        let mut ofs: usize = hlen;
        let mut i: u8 = 0;
        while i < hdr.count
            invariant
                0 <= i <= hdr.count,
                ofs <= raw@.len(),
                len == raw@.len(),
                wide == (hdr.i8count > 0),
                got.len() == i,
                whole == spec_sf_entries(raw@, hlen as int, hdr.count as nat, wide),
                spec_sf_hdr(raw@) == Some((hdr, hlen as int)),
                match spec_sf_entries(raw@, ofs as int, (hdr.count - i) as nat, wide) {
                    None => whole is None,
                    Some(rest) => whole == Some(got.add(rest)),
                },
                list@.map_values(|e: Dir2SfEntry64| e@) == sf_list(hdr.parent, got),
            decreases hdr.count - i,
        {
            let ghost before = list@.map_values(|e: Dir2SfEntry64| e@);
            let (e, n) = if wide {
                match Dir2SfEntry64::decode(raw, ofs) {
                    Ok(x) => x,
                    Err(err) => {
                        proof {
                            assert(spec_sf_entries(raw@, ofs as int, (hdr.count - i) as nat, wide) is None);
                        }
                        return Err(err);
                    },
                }
            } else {
                match Dir2SfEntry32::decode(raw, ofs) {
                    Ok((e32, n)) => (Dir2SfEntry64::from_entry32(e32), n),
                    Err(err) => {
                        proof {
                            assert(spec_sf_entries(raw@, ofs as int, (hdr.count - i) as nat, wide) is None);
                        }
                        return Err(err);
                    },
                }
            };
            proof {
                let (se, sn) = spec_sf_entry(raw@, ofs as int, wide).unwrap();
                assert(sn == n);
                assert(ofs + n <= raw@.len());
            }
            list.push(e);
            proof {
                assert(list@.map_values(|e: Dir2SfEntry64| e@) =~= before.push(e@));
                assert(sf_list(hdr.parent, got.push(e@)) =~= sf_list(hdr.parent, got).push(e@));
                match spec_sf_entries(raw@, ofs + n, (hdr.count - i - 1) as nat, wide) {
                    None => {},
                    Some(rest2) => {
                        assert(got.push(e@).add(rest2) =~= got.add(seq![e@].add(rest2)));
                    },
                }
                got = got.push(e@);
            }
            ofs = ofs + n;
            i = i + 1;
        }
        proof {
            assert(got.add(Seq::empty()) =~= got);
        }
        Ok(Dir2Sf { hdr, list })
    }

    /// A copy of this directory.
    pub fn duplicate(&self) -> (r: Dir2Sf)
        ensures
            r.hdr == self.hdr,
            r.view_list() == self.view_list(),
    {
        let n: usize = self.list.len();
        let mut list: Vec<Dir2SfEntry64> = Vec::new();
        let mut i: usize = 0;
        while i < n
            invariant
                0 <= i <= n,
                n == self.list@.len(),
                list@.len() == i,
                list@.map_values(|e: Dir2SfEntry64| e@) == self.view_list().subrange(0, i as int),
            decreases n - i,
        {
            let e = &self.list[i];
            let ghost before = list@.map_values(|e: Dir2SfEntry64| e@);
            let copy = Dir2SfEntry64 {
                namelen: e.namelen,
                offset: e.offset,
                name: vstd::slice::slice_to_vec(e.name.as_slice()),
                ftype: e.ftype,
                inumber: e.inumber,
            };
            proof {
                assert(copy@ == self.view_list()[i as int]);
            }
            list.push(copy);
            proof {
                assert(list@.map_values(|e: Dir2SfEntry64| e@) =~= before.push(copy@));
                assert(self.view_list().subrange(0, i + 1) =~= self.view_list().subrange(0, i as int).push(self.view_list()[i as int]));
            }
            i = i + 1;
        }
        proof {
            assert(self.view_list().subrange(0, n as int) =~= self.view_list());
        }
        Dir2Sf { hdr: self.hdr, list }
    }

    /// Set the inode of this directory.  Annoyingly, we need to know it, but it
    /// isn't stored on disk in this header.
    pub fn set_ino(&mut self, ino: XfsIno)
        requires
            old(self).list@.len() > 0,
        ensures
            final(self).hdr == old(self).hdr,
            final(self).view_list() == old(self).view_list().update(
                0,
                (old(self).list@[0].namelen, old(self).list@[0].offset, old(self).list@[0].name@, old(self).list@[0].ftype, ino),
            ),
    {
        self.list[0].inumber = ino;
        proof {
            assert(self.view_list() =~= old(self).view_list().update(
                0,
                (old(self).list@[0].namelen, old(self).list@[0].offset, old(self).list@[0].name@, old(self).list@[0].ftype, ino),
            ));
        }
    }

    /// Look up `name`: the inode number of the entry of that name, or ENOENT.
    pub fn lookup(&self, name: &[u8]) -> (r: Result<XfsIno, i32>)
        ensures
            r == match sf_lookup(self.view_list(), name@) {
                Some(ino) => Ok::<u64, i32>(ino),
                None => Err::<u64, i32>(crate::definitions::ENOENT),
            },
    {
        let mut inode: Option<XfsIno> = None;
        let n: usize = self.list.len();
        let mut i: usize = 0;
        while i < n
            invariant
                0 <= i <= n,
                n == self.list@.len(),
                inode == sf_lookup(self.view_list().subrange(0, i as int), name@),
            decreases n - i,
        {
            proof {
                let s = self.view_list().subrange(0, i + 1);
                assert(s.drop_last() =~= self.view_list().subrange(0, i as int));
            }
            if bytes_eq(self.list[i].name.as_slice(), name) {
                inode = Some(self.list[i].inumber);
            }
            i = i + 1;
        }
        proof {
            assert(self.view_list().subrange(0, n as int) =~= self.view_list());
        }
        match inode {
            Some(ino) => Ok(ino),
            None => Err(crate::definitions::ENOENT),
        }
    }

    /// The first entry whose offset tag is beyond `offset`: its inode number, offset tag, file
    /// type and name.  An entry of an unknown file type gives ENOENT, and the end of
    /// the directory -1.
    pub fn next(&self, offset: i64) -> (r: Result<(XfsIno, i64, Option<FileType>, Vec<u8>), i32>)
        ensures
            match sf_next_index(self.view_list(), offset as int, 0) {
                None => r == Err::<(XfsIno, i64, Option<FileType>, Vec<u8>), i32>(-1i32),
                Some(k) => {
                    let e = self.view_list()[k];
                    match spec_file_type(FileKind::Type(e.3)) {
                        None => r == Err::<(XfsIno, i64, Option<FileType>, Vec<u8>), i32>(crate::definitions::ENOENT),
                        Some(t) => r matches Ok((ino, eo, kind, name)) && ino == e.4 && eo == e.1
                            && kind == Some(t) && name@ == e.2,
                    }
                },
            },
    {
        let n: usize = self.list.len();
        let mut i: usize = 0;
        while i < n
            invariant
                0 <= i <= n,
                n == self.list@.len(),
                sf_next_index(self.view_list(), offset as int, 0) == sf_next_index(self.view_list(), offset as int, i as int),
            decreases n - i,
        {
            let entry = &self.list[i];
            if (entry.offset as i64) > offset {
                let kind = match get_file_type(FileKind::Type(entry.ftype)) {
                    Ok(k) => k,
                    Err(e) => return Err(e),
                };
                return Ok((entry.inumber, entry.offset as i64, Some(kind), entry.name.clone()));
            }
            i = i + 1;
        }
        Err(-1)
    }
}

/// Looking a name up in a list whose tail holds no entry of that name looks it up in the head.
proof fn lemma_sf_lookup_prefix(a: Seq<(u8, u16, Seq<u8>, u8, u64)>, b: Seq<(u8, u16, Seq<u8>, u8, u64)>, name: Seq<u8>)
    requires
        forall|i: int| 0 <= i < b.len() ==> (#[trigger] b[i]).2 != name,
    ensures
        sf_lookup(a + b, name) == sf_lookup(a, name),
    decreases b.len(),
{
    if b.len() > 0 {
        let c = b.drop_last();
        assert((a + b).drop_last() =~= a + c);
        assert((a + b).last() == b.last());
        assert forall|i: int| 0 <= i < c.len() implies (#[trigger] c[i]).2 != name by {
            assert(c[i] == b[i]);
        }
        lemma_sf_lookup_prefix(a, c, name);
    } else {
        assert(a + b =~= a);
    }
}

/// A short form directory has "." and ".." although it does not store them: once its own inode
/// number is set, looking up "." gives it, and looking up ".." gives the parent, unless a
/// stored entry has that name.
pub proof fn lemma_sf_dot_entries(parent: u64, stored: Seq<(u8, u16, Seq<u8>, u8, u64)>, ino: u64)
    ensures
        (forall|i: int| 0 <= i < stored.len() ==> (#[trigger] stored[i]).2 != seq![46u8]) ==> sf_lookup(
            sf_list(parent, stored).update(0, (1u8, 1u16, seq![46u8], XFS_DIR3_FT_DIR, ino)),
            seq![46u8],
        ) == Some(ino),
        (forall|i: int| 0 <= i < stored.len() ==> (#[trigger] stored[i]).2 != seq![46u8, 46u8])
            ==> sf_lookup(
            sf_list(parent, stored).update(0, (1u8, 1u16, seq![46u8], XFS_DIR3_FT_DIR, ino)),
            seq![46u8, 46u8],
        ) == Some(parent),
{
    let head: Seq<(u8, u16, Seq<u8>, u8, u64)> = seq![
        (1u8, 1u16, seq![46u8], XFS_DIR3_FT_DIR, ino),
        (2u8, 2u16, seq![46u8, 46u8], XFS_DIR3_FT_DIR, parent),
    ];
    let list = sf_list(parent, stored).update(0, (1u8, 1u16, seq![46u8], XFS_DIR3_FT_DIR, ino));
    assert(list =~= head + stored);
    assert(seq![46u8] != seq![46u8, 46u8]) by {
        assert(seq![46u8].len() != seq![46u8, 46u8].len());
    }
    assert(head.drop_last() =~= seq![(1u8, 1u16, seq![46u8], XFS_DIR3_FT_DIR, ino)]);
    assert(head.drop_last().drop_last() =~= Seq::<(u8, u16, Seq<u8>, u8, u64)>::empty());
    assert(head.last().2 == seq![46u8, 46u8]);
    assert(head.drop_last().last().2 == seq![46u8]);
    assert(sf_lookup(head.drop_last(), seq![46u8]) == Some(ino));
    assert(sf_lookup(head, seq![46u8]) == Some(ino));
    if forall|i: int| 0 <= i < stored.len() ==> (#[trigger] stored[i]).2 != seq![46u8] {
        lemma_sf_lookup_prefix(head, stored, seq![46u8]);
    }
    if forall|i: int| 0 <= i < stored.len() ==> (#[trigger] stored[i]).2 != seq![46u8, 46u8] {
        lemma_sf_lookup_prefix(head, stored, seq![46u8, 46u8]);
    }
}

/// Reading a short form directory moves forward: the entry after offset `offset` has a
/// greater offset tag, and every entry before it has one at or below `offset`.
pub proof fn lemma_sf_next_advances(list: Seq<(u8, u16, Seq<u8>, u8, u64)>, offset: int, k: int)
    requires
        0 <= k <= list.len(),
        forall|j: int| 0 <= j < k ==> (#[trigger] list[j]).1 <= offset,
    ensures
        sf_next_index(list, offset, k) matches Some(n) ==> list[n].1 > offset && k <= n < list.len()
            && forall|j: int| 0 <= j < n ==> (#[trigger] list[j]).1 <= offset,
        sf_next_index(list, offset, k) is None ==> forall|j: int| 0 <= j < list.len() ==> (#[trigger] list[j]).1 <= offset,
    decreases list.len() - k,
{
    if k < list.len() && list[k].1 <= offset {
        lemma_sf_next_advances(list, offset, k + 1);
    }
}

/// In a list whose names are all different, looking up the name of any entry gives that
/// entry's inode number.
proof fn lemma_sf_lookup_unique(list: Seq<(u8, u16, Seq<u8>, u8, u64)>, k: int)
    requires
        0 <= k < list.len(),
        forall|i: int, j: int| 0 <= i < list.len() && 0 <= j < list.len() && i != j ==> (#[trigger] list[i]).2 != (#[trigger] list[j]).2,
    ensures
        sf_lookup(list, list[k].2) == Some(list[k].4),
    decreases list.len(),
{
    if k != list.len() - 1 {
        let t = list.drop_last();
        assert(list[list.len() - 1].2 != list[k].2);
        assert(t[k] == list[k]);
        assert forall|i: int, j: int| 0 <= i < t.len() && 0 <= j < t.len() && i != j implies (#[trigger] t[i]).2 != (#[trigger] t[j]).2 by {
            assert(t[i] == list[i] && t[j] == list[j]);
        }
        lemma_sf_lookup_unique(t, k);
    }
}

/// What reading a short form directory yields can be looked up: when no two entries share a
/// name, looking up the name of the entry that follows any offset gives that entry's inode.
pub proof fn lemma_sf_next_then_lookup(list: Seq<(u8, u16, Seq<u8>, u8, u64)>, offset: int)
    requires
        forall|i: int, j: int| 0 <= i < list.len() && 0 <= j < list.len() && i != j ==> (#[trigger] list[i]).2 != (#[trigger] list[j]).2,
    ensures
        sf_next_index(list, offset, 0) matches Some(k) ==> sf_lookup(list, list[k].2) == Some(list[k].4),
{
    lemma_sf_next_advances(list, offset, 0);
    if let Some(k) = sf_next_index(list, offset, 0) {
        lemma_sf_lookup_unique(list, k);
    }
}

} // verus!
