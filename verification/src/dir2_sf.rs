//! Version 4 short form directory records, whose inode numbers keep their on-disk width.
use vstd::prelude::*;

use crate::dir3_sf::{spec_sf_entries, spec_sf_entry, spec_sf_hdr};
use crate::utils::{be16, be32, be64, decode_bytes, decode_u16, decode_u32, decode_u64, decode_u8, ParseError};

verus! {

/// An inode number as stored in a short form directory: 4 bytes, or 8 if any entry needs them.
#[derive(Debug, Clone, Copy, PartialEq, Eq, Structural)]
pub enum XfsDir2Inou {
    XfsDir2Ino8(u64),
    XfsDir2Ino4(u32),
}

/// The inode number stored at byte `ofs` of `raw`, 8 bytes wide if `wide`, else 4.
pub open spec fn spec_inou(raw: Seq<u8>, ofs: int, wide: bool) -> XfsDir2Inou {
    if wide {
        XfsDir2Inou::XfsDir2Ino8(be64(raw, ofs) as u64)
    } else {
        XfsDir2Inou::XfsDir2Ino4(be32(raw, ofs) as u32)
    }
}

impl XfsDir2Inou {
    /// Decode an inode number at byte `ofs` of `raw`, 8 bytes wide if `wide`, else 4.
    pub fn decode(raw: &[u8], ofs: usize, wide: bool) -> (r: Result<XfsDir2Inou, ParseError>)
        ensures
            r is Ok <==> ofs + (if wide { 8int } else { 4int }) <= raw@.len(),
            r matches Ok(i) ==> i == spec_inou(raw@, ofs as int, wide),
    {
        if wide {
            match decode_u64(raw, ofs) {
                Ok(v) => Ok(XfsDir2Inou::XfsDir2Ino8(v)),
                Err(e) => Err(e),
            }
        } else {
            match decode_u32(raw, ofs) {
                Ok(v) => Ok(XfsDir2Inou::XfsDir2Ino4(v)),
                Err(e) => Err(e),
            }
        }
    }
}

/// The header of a short form directory, with the parent's inode number in its on-disk width.
#[derive(Debug, Clone, Copy, PartialEq, Eq, Structural)]
pub struct Dir2SfHdr {
    pub count: u8,
    pub i8count: u8,
    pub parent: XfsDir2Inou,
}

impl Dir2SfHdr {
    /// Decode the header at the start of `raw`, and return its length.
    pub fn from(raw: &[u8]) -> (r: Result<(Dir2SfHdr, usize), ParseError>)
        ensures
            r is Ok <==> raw@.len() >= 2 && 2 + (if raw@[1] > 0 { 8int } else { 4int }) <= raw@.len(),
            r matches Ok((h, n)) ==> h.count == raw@[0] && h.i8count == raw@[1] && h.parent
                == spec_inou(raw@, 2, raw@[1] > 0) && n == 2 + (if raw@[1] > 0 { 8int } else { 4int }),
    {
        let count: u8 = match decode_u8(raw, 0) {
            Ok(v) => v,
            Err(e) => return Err(e),
        };
        let i8count: u8 = match decode_u8(raw, 1) {
            Ok(v) => v,
            Err(e) => return Err(e),
        };
        match XfsDir2Inou::decode(raw, 2, i8count > 0) {
            Ok(parent) => Ok((Dir2SfHdr { count, i8count, parent }, if i8count > 0 { 10 } else { 6 })),
            Err(e) => Err(e),
        }
    }
}

/// A short form directory entry, with its inode number in its on-disk width.
#[derive(Debug, Clone)]
pub struct Dir2SfEntry {
    pub namelen: u8,
    pub offset: u16,
    pub name: Vec<u8>,
    pub ftype: u8,
    pub inumber: XfsDir2Inou,
}

impl Dir2SfEntry {
    /// Decode the entry at byte `ofs` of `raw`, whose inode number is 8 bytes wide if
    /// `i8count` is not zero, and return its length.
    pub fn from(raw: &[u8], ofs: usize, i8count: u8) -> (r: Result<(Dir2SfEntry, usize), ParseError>)
        ensures
            r matches Ok((e, n)) ==> ({
                let w = if i8count > 0 { 8int } else { 4int };
                &&& ofs + 3 <= raw@.len()
                &&& e.namelen == raw@[ofs as int]
                &&& e.offset as int == be16(raw@, ofs + 1)
                &&& e.name@ == raw@.subrange(ofs + 3, ofs + 3 + e.namelen)
                &&& e.ftype == raw@[ofs + 3 + e.namelen]
                &&& e.inumber == spec_inou(raw@, ofs + 4 + e.namelen, i8count > 0)
                &&& n == 4 + e.namelen + w
                &&& ofs + n <= raw@.len()
            }),
            r is Err <==> ({
                let w = if i8count > 0 { 8int } else { 4int };
                ofs + 3 > raw@.len() || ofs + 4 + raw@[ofs as int] + w > raw@.len()
            }),
    {
        let len: usize = raw.len();
        let namelen: u8 = match decode_u8(raw, ofs) {
            Ok(v) => v,
            Err(e) => return Err(e),
        };
        if len - ofs < 3 {
            return Err(ParseError::UnexpectedEnd);
        }
        let offset: u16 = match decode_u16(raw, ofs + 1) {
            Ok(v) => v,
            Err(e) => return Err(e),
        };
        let name: Vec<u8> = match decode_bytes(raw, ofs + 3, namelen as usize) {
            Ok(v) => v,
            Err(e) => return Err(e),
        };
        let f: usize = ofs + 3 + namelen as usize;
        let ftype: u8 = match decode_u8(raw, f) {
            Ok(v) => v,
            Err(e) => return Err(e),
        };
        let inumber = match XfsDir2Inou::decode(raw, f + 1, i8count > 0) {
            Ok(v) => v,
            Err(e) => return Err(e),
        };
        let w: usize = if i8count > 0 {
            8
        } else {
            4
        };
        Ok((Dir2SfEntry { namelen, offset, name, ftype, inumber }, 4 + namelen as usize + w))
    }
}

/// The 64-bit value of an inode number, whatever its width.
pub open spec fn inou_value(i: XfsDir2Inou) -> u64 {
    match i {
        XfsDir2Inou::XfsDir2Ino8(v) => v,
        XfsDir2Inou::XfsDir2Ino4(v) => v as u64,
    }
}

impl View for Dir2SfEntry {
    type V = (u8, u16, Seq<u8>, u8, u64);

    open spec fn view(&self) -> Self::V {
        (self.namelen, self.offset, self.name@, self.ftype, inou_value(self.inumber))
    }
}

/// A short form directory whose inode numbers keep their on-disk width: its header and its
/// stored entries.
#[derive(Debug)]
pub struct Dir2Sf {
    pub hdr: Dir2SfHdr,
    pub list: Vec<Dir2SfEntry>,
}

impl Dir2Sf {
    /// Decode a short form directory from the start of `raw`: the header, then as many
    /// entries as it counts.
    pub fn from(raw: &[u8]) -> (r: Result<Dir2Sf, ParseError>)
        ensures
            r is Ok <==> (spec_sf_hdr(raw@) matches Some((h, n)) && spec_sf_entries(
                raw@,
                n,
                h.count as nat,
                h.i8count > 0,
            ) is Some),
            r matches Ok(d) ==> ({
                let (h, n) = spec_sf_hdr(raw@).unwrap();
                &&& d.hdr.count == h.count
                &&& d.hdr.i8count == h.i8count
                &&& inou_value(d.hdr.parent) == h.parent
                &&& d.list@.map_values(|e: Dir2SfEntry| e@) == spec_sf_entries(raw@, n, h.count as nat, h.i8count > 0).unwrap()
            }),
    {
        let (hdr, hlen) = match Dir2SfHdr::from(raw) {
            Ok(x) => x,
            Err(e) => return Err(e),
        };
        let wide: bool = hdr.i8count > 0;
        let len: usize = raw.len();
        let ghost whole = spec_sf_entries(raw@, hlen as int, hdr.count as nat, wide);
        let ghost mut got: Seq<(u8, u16, Seq<u8>, u8, u64)> = Seq::empty();
        let mut list: Vec<Dir2SfEntry> = Vec::new();
        let mut ofs: usize = hlen;
        let mut i: u8 = 0;
        while i < hdr.count
            invariant
                0 <= i <= hdr.count,
                ofs <= raw@.len(),
                len == raw@.len(),
                wide == (hdr.i8count > 0),
                got.len() == i,
                whole == spec_sf_entries(raw@, hlen as int, hdr.count as nat, wide),
                spec_sf_hdr(raw@) matches Some((h, n)) && n == hlen && h.count == hdr.count && h.i8count
                    == hdr.i8count,
                match spec_sf_entries(raw@, ofs as int, (hdr.count - i) as nat, wide) {
                    None => whole is None,
                    Some(rest) => whole == Some(got.add(rest)),
                },
                list@.map_values(|e: Dir2SfEntry| e@) == got,
            decreases hdr.count - i,
        {
            let (e, n) = match Dir2SfEntry::from(raw, ofs, hdr.i8count) {
                Ok(x) => x,
                Err(err) => {
                    proof {
                        assert(spec_sf_entries(raw@, ofs as int, (hdr.count - i) as nat, wide) is None);
                    }
                    return Err(err);
                },
            };
            proof {
                let (se, sn) = spec_sf_entry(raw@, ofs as int, wide).unwrap();
                assert(se == e@);
                assert(sn == n);
            }
            let ghost before = list@.map_values(|e: Dir2SfEntry| e@);
            list.push(e);
            proof {
                assert(list@.map_values(|e: Dir2SfEntry| e@) =~= before.push(e@));
                match spec_sf_entries(raw@, ofs + n, (hdr.count - i - 1) as nat, wide) {
                    None => {},
                    Some(rest2) => {
                        assert(got.push(e@).add(rest2) =~= got.add(seq![e@].add(rest2)));
                    },
                }
                got = got.push(e@);
            }
            ofs = ofs + n;
            i = i + 1;
        }
        proof {
            assert(got.add(Seq::empty()) =~= got);
        }
        Ok(Dir2Sf { hdr, list })
    }
}

} // verus!
