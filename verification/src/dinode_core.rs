//! The core of an on-disk inode: the fields common to every file type.
use vstd::prelude::*;

use crate::btree::{BmbtKey, BmdrBlock};
use crate::definitions::{
    XfsAextnum, XfsExtnum, XfsFsize, XfsIno, XfsRfsblock, S_IFMT, XFS_DINODE_MAGIC,
};
use crate::utils::{
    be16, be32, be64, decode_u16, decode_u32, decode_u64, decode_u8, get_file_type, spec_file_type,
    FileKind, FileType, ParseError,
};

verus! {

/// The format of an inode fork.
#[derive(Debug, Clone, Copy, PartialEq, Eq, Structural)]
pub enum XfsDinodeFmt {
    Dev,
    Local,
    Extents,
    Btree,
    Uuid,
    Rmap,
}

/// The fork format numbered `n`, if any.
pub open spec fn spec_fmt(n: u8) -> Option<XfsDinodeFmt> {
    if n == 0 {
        Some(XfsDinodeFmt::Dev)
    } else if n == 1 {
        Some(XfsDinodeFmt::Local)
    } else if n == 2 {
        Some(XfsDinodeFmt::Extents)
    } else if n == 3 {
        Some(XfsDinodeFmt::Btree)
    } else if n == 4 {
        Some(XfsDinodeFmt::Uuid)
    } else if n == 5 {
        Some(XfsDinodeFmt::Rmap)
    } else {
        None
    }
}

impl XfsDinodeFmt {
    pub fn from_u8(n: u8) -> (r: Option<XfsDinodeFmt>)
        ensures
            r == spec_fmt(n),
    {
        if n == 0 {
            Some(XfsDinodeFmt::Dev)
        } else if n == 1 {
            Some(XfsDinodeFmt::Local)
        } else if n == 2 {
            Some(XfsDinodeFmt::Extents)
        } else if n == 3 {
            Some(XfsDinodeFmt::Btree)
        } else if n == 4 {
            Some(XfsDinodeFmt::Uuid)
        } else if n == 5 {
            Some(XfsDinodeFmt::Rmap)
        } else {
            None
        }
    }

    /// Decode the format byte at `ofs`; an unknown format is rejected.
    pub fn decode(raw: &[u8], ofs: usize) -> (r: Result<XfsDinodeFmt, ParseError>)
        ensures
            r is Ok <==> ofs + 1 <= raw@.len() && spec_fmt(raw@[ofs as int]) is Some,
            r matches Ok(f) ==> spec_fmt(raw@[ofs as int]) == Some(f),
            ofs + 1 <= raw@.len() && spec_fmt(raw@[ofs as int]) is None ==> r == Err::<
                XfsDinodeFmt,
                ParseError,
            >(ParseError::InvalidValue),
    {
        let d = match decode_u8(raw, ofs) {
            Ok(v) => v,
            Err(e) => return Err(e),
        };
        match XfsDinodeFmt::from_u8(d) {
            Some(f) => Ok(f),
            None => Err(ParseError::InvalidValue),
        }
    }
}

/// An inode timestamp.
#[derive(Debug, Clone, Copy, PartialEq, Eq, Structural)]
pub struct XfsTimestamp {
    pub t_sec: i32,
    pub t_nsec: u32,
}

/// A point in time, as seconds and nanoseconds since the Unix epoch.
#[derive(Debug, Clone, Copy, PartialEq, Eq, Structural)]
pub struct Timespec {
    pub sec: i64,
    pub nsec: u32,
}

pub const XFS_DIFLAG2_BITTIME: u64 = 1 << 3;

/// The core of an inode.
#[derive(Debug, Clone, Copy, PartialEq, Eq, Structural)]
pub struct DinodeCore {
    pub di_mode: u16,
    pub di_version: i8,
    pub di_format: XfsDinodeFmt,
    pub di_uid: u32,
    pub di_gid: u32,
    pub di_nlink: u32,
    pub di_atime: XfsTimestamp,
    pub di_mtime: XfsTimestamp,
    pub di_ctime: XfsTimestamp,
    pub di_size: XfsFsize,
    pub di_nblocks: XfsRfsblock,
    pub di_nextents: XfsExtnum,
    pub di_anextents: XfsAextnum,
    pub di_forkoff: u8,
    pub di_aformat: XfsDinodeFmt,
    pub di_gen: u32,
    /* Version 5 file system (inode version 3) fields start here */
    pub di_flags2: u64,
    pub di_crtime: XfsTimestamp,
    pub di_ino: u64,
}

/// The timestamp stored at `ofs`.
pub open spec fn spec_ts(raw: Seq<u8>, ofs: int) -> XfsTimestamp {
    XfsTimestamp { t_sec: be32(raw, ofs) as i32, t_nsec: be32(raw, ofs + 4) as u32 }
}

/// The inode core at the start of `raw`, or why it is rejected.
pub open spec fn spec_dinode_core(raw: Seq<u8>) -> Result<DinodeCore, ParseError> {
    if raw.len() < 100 {
        Err(ParseError::UnexpectedEnd)
    } else if be16(raw, 0) != XFS_DINODE_MAGIC {
        Err(ParseError::BadMagic)
    } else if raw[4] != 2 && raw[4] != 3 {
        Err(ParseError::InvalidValue)
    } else if spec_fmt(raw[5]) is None || spec_fmt(raw[83]) is None {
        Err(ParseError::InvalidValue)
    } else if raw[4] == 3 && raw.len() < 176 {
        Err(ParseError::UnexpectedEnd)
    } else {
        let v3 = raw[4] == 3;
        Ok(
            DinodeCore {
                di_mode: be16(raw, 2) as u16,
                di_version: raw[4] as i8,
                di_format: spec_fmt(raw[5]).unwrap(),
                di_uid: be32(raw, 8) as u32,
                di_gid: be32(raw, 12) as u32,
                di_nlink: be32(raw, 16) as u32,
                di_atime: spec_ts(raw, 32),
                di_mtime: spec_ts(raw, 40),
                di_ctime: spec_ts(raw, 48),
                di_size: be64(raw, 56) as i64,
                di_nblocks: be64(raw, 64) as u64,
                di_nextents: be32(raw, 76) as i32,
                di_anextents: be16(raw, 80) as i16,
                di_forkoff: raw[82],
                di_aformat: spec_fmt(raw[83]).unwrap(),
                di_gen: be32(raw, 92) as u32,
                di_flags2: if v3 {
                    be64(raw, 120) as u64
                } else {
                    0
                },
                di_crtime: if v3 {
                    spec_ts(raw, 144)
                } else {
                    XfsTimestamp { t_sec: 0, t_nsec: 0 }
                },
                di_ino: if v3 {
                    be64(raw, 152) as u64
                } else {
                    0
                },
            },
        )
    }
}

/// `x` rounded up to a multiple of 8.
pub open spec fn round_up8(x: int) -> int {
    if x % 8 == 0 {
        x
    } else {
        x + 8 - x % 8
    }
}

/// The attributes that `stat` reports for a file.
#[derive(Debug, Clone, Copy, PartialEq, Eq, Structural)]
pub struct Stat {
    pub ino: u64,
    pub size: u64,
    pub blocks: u64,
    pub atime: Timespec,
    pub mtime: Timespec,
    pub ctime: Timespec,
    pub crtime: Timespec,
    pub kind: FileType,
    pub perm: u16,
    pub nlink: u32,
    pub uid: u32,
    pub gid: u32,
    pub rdev: u32,
    pub blksize: u32,
    pub flags: u32,
}

fn ts_decode(raw: &[u8], ofs: usize) -> (r: Result<XfsTimestamp, ParseError>)
    requires
        ofs + 8 <= raw@.len(),
    ensures
        r == Ok::<XfsTimestamp, ParseError>(spec_ts(raw@, ofs as int)),
{
    let len: usize = raw.len();
    let s = match decode_u32(raw, ofs) {
        Ok(v) => v,
        Err(e) => return Err(e),
    };
    let n = match decode_u32(raw, ofs + 4) {
        Ok(v) => v,
        Err(e) => return Err(e),
    };
    Ok(XfsTimestamp { t_sec: s as i32, t_nsec: n })
}

impl DinodeCore {
    /// The offset, from the start of the inode, of its literal area, where the forks are.
    pub open spec fn spec_literal_area_offset(&self) -> int {
        if self.di_version == 3 {
            0xb0
        } else {
            0x64
        }
    }

    pub fn literal_area_offset(&self) -> (r: usize)
        requires
            1 <= self.di_version <= 3,
        ensures
            r == self.spec_literal_area_offset(),
    {
        if self.di_version == 3 {
            0xb0
        } else {
            0x64
        }
    }

    /// The space, in bytes, of the data fork's half of a B+tree root: half the data fork, which
    /// ends where the attribute fork starts (or at the end of the inode).
    pub open spec fn spec_dfork_space(&self, inode_size: int) -> int {
        if self.di_forkoff == 0 {
            (inode_size - self.spec_literal_area_offset()) / 2
        } else {
            round_up8(self.di_forkoff * 8 / 2)
        }
    }

    /// Compute the gap in bytes between the end of the keys and the start of the pointers, for
    /// BTree-formatted inodes only, for the data fork.  The space from the end of the root
    /// header to the beginning of the attribute fork is split in half, half for keys and half
    /// for pointers; the gap is rounded down to a multiple of 8.
    pub open spec fn spec_dfork_btree_ptr_gap(&self, inode_size: int, bb_numrecs: int) -> int {
        let gap = self.spec_dfork_space(inode_size) - 4 - bb_numrecs * 8;
        gap - gap % 8
    }

    pub fn dfork_btree_ptr_gap(&self, inode_size: usize, bb_numrecs: u16) -> (r: usize)
        requires
            self.di_format == XfsDinodeFmt::Btree,
            1 <= self.di_version <= 3,
            self.di_forkoff == 0 ==> inode_size >= self.spec_literal_area_offset(),
            self.spec_dfork_space(inode_size as int) >= 4 + bb_numrecs * 8,
        ensures
            r == self.spec_dfork_btree_ptr_gap(inode_size as int, bb_numrecs as int),
    {
        let space: usize = if self.di_forkoff == 0 {
            (inode_size - self.literal_area_offset()) / 2
        } else {
            let space: usize = (self.di_forkoff as usize) * 8 / 2;
            // Round up to a multiple of 8
            let rem: usize = space % 8;
            if rem == 0 {
                space
            } else {
                space + 8 - rem
            }
        };
        let gap: usize = space - BmdrBlock::SIZE - bb_numrecs as usize * BmbtKey::SIZE;
        // Round down to a multiple of 8
        gap - gap % 8
    }

    /// The offset of the attribute fork within the inode, rounded down to a multiple of 8.
    pub open spec fn spec_attr_fork_ofs(&self) -> int {
        let ofs = self.spec_literal_area_offset() + self.di_forkoff * 8;
        ofs - ofs % 8
    }

    /// Compute the gap in bytes between the end of the keys and the start of the pointers, for
    /// BTree-formatted inodes only, for the attr fork.  The pointers start halfway between the
    /// start of the attribute fork and the end of the inode, rounded up to a multiple of 8; the
    /// keys end at the header plus the keys, rounded up to a multiple of 8.
    pub open spec fn spec_afork_btree_ptr_gap(&self, inode_size: int, bb_numrecs: int) -> int {
        let already = round_up8(4 + bb_numrecs * 8);
        let attr_fork_ofs = self.spec_attr_fork_ofs();
        let ptr_ofs = round_up8((inode_size - attr_fork_ofs) / 2 + attr_fork_ofs);
        ptr_ofs - attr_fork_ofs - already
    }

    pub fn afork_btree_ptr_gap(&self, inode_size: usize, bb_numrecs: u16) -> (r: usize)
        requires
            self.di_aformat == XfsDinodeFmt::Btree,
            self.di_forkoff != 0,
            1 <= self.di_version <= 3,
            inode_size >= self.spec_attr_fork_ofs(),
            inode_size <= 0x10000,
            self.spec_afork_btree_ptr_gap(inode_size as int, bb_numrecs as int) >= 0,
        ensures
            r == self.spec_afork_btree_ptr_gap(inode_size as int, bb_numrecs as int),
    {
        let mut already: usize = BmdrBlock::SIZE + bb_numrecs as usize * BmbtKey::SIZE;
        if already % 8 > 0 {
            already = already + 8 - already % 8;
        }
        let mut attr_fork_ofs: usize = self.literal_area_offset() + self.di_forkoff as usize * 8;
        attr_fork_ofs = attr_fork_ofs - attr_fork_ofs % 8;
        let mut ptr_ofs: usize = (inode_size - attr_fork_ofs) / 2 + attr_fork_ofs;
        if ptr_ofs % 8 > 0 {
            ptr_ofs = ptr_ofs + 8 - ptr_ofs % 8;
        }
        ptr_ofs - attr_fork_ofs - already
    }

    /// Whether timestamps of this inode use the "big time" encoding.
    pub open spec fn spec_bigtime(&self) -> bool {
        self.di_version >= 3 && self.di_flags2 & XFS_DIFLAG2_BITTIME != 0
    }

    /// The instant that `ts` denotes.  Big-time timestamps count nanoseconds, as an unsigned
    /// 64-bit number whose high half is `t_sec`, from 2^31 seconds before the Unix epoch; other
    /// timestamps count seconds (negative before the epoch) and nanoseconds from the Unix epoch.
    pub open spec fn spec_timestamp(&self, ts: XfsTimestamp) -> Timespec {
        if self.spec_bigtime() {
            let n = (ts.t_sec as u32) * 0x1_0000_0000 + ts.t_nsec;
            Timespec { sec: (n / 1_000_000_000 - 0x8000_0000) as i64, nsec: (n % 1_000_000_000) as u32 }
        } else {
            Timespec {
                sec: (ts.t_sec + ts.t_nsec / 1_000_000_000) as i64,
                nsec: (ts.t_nsec % 1_000_000_000) as u32,
            }
        }
    }

    pub fn timestamp(&self, ts: &XfsTimestamp) -> (r: Timespec)
        ensures
            r == self.spec_timestamp(*ts),
    {
        if self.di_version >= 3 && (self.di_flags2 & XFS_DIFLAG2_BITTIME != 0) {
            let n: u64 = (ts.t_sec as u32 as u64) * 0x1_0000_0000u64 + ts.t_nsec as u64;
            Timespec {
                sec: (n / 1_000_000_000) as i64 - 0x8000_0000i64,
                nsec: (n % 1_000_000_000) as u32,
            }
        } else {
            Timespec {
                sec: ts.t_sec as i64 + (ts.t_nsec / 1_000_000_000) as i64,
                nsec: ts.t_nsec % 1_000_000_000,
            }
        }
    }

    /// The attributes of the file whose inode this is, as inode number `ino` (which is 1 for
    /// the root directory).
    pub open spec fn spec_stat(&self, ino: XfsIno) -> Result<Stat, i32> {
        match spec_file_type(FileKind::Mode(self.di_mode)) {
            None => Err(crate::definitions::ENOENT),
            Some(kind) => Ok(
                Stat {
                    ino,
                    size: self.di_size as u64,
                    blocks: self.di_nblocks,
                    atime: self.spec_timestamp(self.di_atime),
                    mtime: self.spec_timestamp(self.di_mtime),
                    ctime: self.spec_timestamp(self.di_ctime),
                    crtime: self.spec_timestamp(self.di_crtime),
                    kind,
                    perm: self.di_mode & !S_IFMT,
                    nlink: self.di_nlink,
                    uid: self.di_uid,
                    gid: self.di_gid,
                    rdev: 0,
                    blksize: 0,
                    flags: 0,
                },
            ),
        }
    }

    /// Whether `stat` may be asked for inode number `ino`: version 3 inodes record their own
    /// number, which must match (the root may be asked for as 1).
    pub open spec fn stat_ok(&self, ino: XfsIno) -> bool {
        self.di_version >= 3 ==> ino == 1 || ino == self.di_ino
    }

    /// Whether `stat` may be asked for inode number `ino`.
    pub fn can_stat(&self, ino: XfsIno) -> (r: bool)
        ensures
            r == self.stat_ok(ino),
    {
        self.di_version < 3 || ino == 1 || ino == self.di_ino
    }

    pub fn stat(&self, ino: XfsIno) -> (r: Result<Stat, i32>)
        requires
            self.stat_ok(ino),
        ensures
            r == self.spec_stat(ino),
            r matches Ok(st) ==> st.ino == ino && st.uid == self.di_uid && st.gid == self.di_gid
                && st.nlink == self.di_nlink && st.size == self.di_size as u64 && st.blocks
                == self.di_nblocks && st.perm == self.di_mode & 0o7777 && st.mtime
                == self.spec_timestamp(self.di_mtime) && st.atime == self.spec_timestamp(self.di_atime)
                && st.ctime == self.spec_timestamp(self.di_ctime),
    {
        let m: u16 = self.di_mode;
        assert(m & !0o170000u16 == m & 0o7777) by (bit_vector);
        let kind = match get_file_type(FileKind::Mode(self.di_mode)) {
            Ok(k) => k,
            Err(e) => return Err(e),
        };
        Ok(
            Stat {
                ino,
                size: self.di_size as u64,
                blocks: self.di_nblocks,
                atime: self.timestamp(&self.di_atime),
                mtime: self.timestamp(&self.di_mtime),
                ctime: self.timestamp(&self.di_ctime),
                crtime: self.timestamp(&self.di_crtime),
                kind,
                perm: self.di_mode & !S_IFMT,
                nlink: self.di_nlink,
                uid: self.di_uid,
                gid: self.di_gid,
                rdev: 0,
                blksize: 0,
                flags: 0,
            },
        )
    }

    /// Decode the inode core at the start of `raw`; also return its length, which is the
    /// offset of the literal area.
    pub fn decode(raw: &[u8]) -> (r: Result<(DinodeCore, usize), ParseError>)
        ensures
            r matches Ok((c, n)) ==> spec_dinode_core(raw@) == Ok::<DinodeCore, ParseError>(c) && n
                == c.spec_literal_area_offset(),
            r matches Err(e) ==> spec_dinode_core(raw@) == Err::<DinodeCore, ParseError>(e),
    {
        if raw.len() < 100 {
            return Err(ParseError::UnexpectedEnd);
        }
        let di_magic: u16 = match decode_u16(raw, 0) {
            Ok(v) => v,
            Err(e) => return Err(e),
        };
        if di_magic != XFS_DINODE_MAGIC {
            return Err(ParseError::BadMagic);
        }
        let di_version: u8 = raw[4];
        if di_version != 2 && di_version != 3 {
            return Err(ParseError::InvalidValue);
        }
        let di_format = match XfsDinodeFmt::decode(raw, 5) {
            Ok(v) => v,
            Err(e) => return Err(e),
        };
        let di_aformat = match XfsDinodeFmt::decode(raw, 83) {
            Ok(v) => v,
            Err(e) => return Err(e),
        };
        if di_version == 3 && raw.len() < 176 {
            return Err(ParseError::UnexpectedEnd);
        }
        let di_mode: u16 = match decode_u16(raw, 2) {
            Ok(v) => v,
            Err(e) => return Err(e),
        };
        let di_uid: u32 = match decode_u32(raw, 8) {
            Ok(v) => v,
            Err(e) => return Err(e),
        };
        let di_gid: u32 = match decode_u32(raw, 12) {
            Ok(v) => v,
            Err(e) => return Err(e),
        };
        let di_nlink: u32 = match decode_u32(raw, 16) {
            Ok(v) => v,
            Err(e) => return Err(e),
        };
        let di_atime = match ts_decode(raw, 32) {
            Ok(v) => v,
            Err(e) => return Err(e),
        };
        let di_mtime = match ts_decode(raw, 40) {
            Ok(v) => v,
            Err(e) => return Err(e),
        };
        let di_ctime = match ts_decode(raw, 48) {
            Ok(v) => v,
            Err(e) => return Err(e),
        };
        let di_size: u64 = match decode_u64(raw, 56) {
            Ok(v) => v,
            Err(e) => return Err(e),
        };
        let di_nblocks: u64 = match decode_u64(raw, 64) {
            Ok(v) => v,
            Err(e) => return Err(e),
        };
        let di_nextents: u32 = match decode_u32(raw, 76) {
            Ok(v) => v,
            Err(e) => return Err(e),
        };
        let di_anextents: u16 = match decode_u16(raw, 80) {
            Ok(v) => v,
            Err(e) => return Err(e),
        };
        let di_forkoff: u8 = raw[82];
        let di_gen: u32 = match decode_u32(raw, 92) {
            Ok(v) => v,
            Err(e) => return Err(e),
        };
        let mut di_flags2: u64 = 0;
        let mut di_crtime = XfsTimestamp { t_sec: 0, t_nsec: 0 };
        let mut di_ino: u64 = 0;
        if di_version == 3 {
            di_flags2 = match decode_u64(raw, 120) {
                Ok(v) => v,
                Err(e) => return Err(e),
            };
            di_crtime = match ts_decode(raw, 144) {
                Ok(v) => v,
                Err(e) => return Err(e),
            };
            di_ino = match decode_u64(raw, 152) {
                Ok(v) => v,
                Err(e) => return Err(e),
            };
        }
        let core = DinodeCore {
            di_mode,
            di_version: di_version as i8,
            di_format,
            di_uid,
            di_gid,
            di_nlink,
            di_atime,
            di_mtime,
            di_ctime,
            di_size: di_size as i64,
            di_nblocks,
            di_nextents: di_nextents as i32,
            di_anextents: di_anextents as i16,
            di_forkoff,
            di_aformat,
            di_gen,
            di_flags2,
            di_crtime,
            di_ino,
        };
        let n: usize = if di_version == 3 {
            0xb0
        } else {
            0x64
        };
        Ok((core, n))
    }
}

/// `x` rounded up to a multiple of 8 is a multiple of 8.
proof fn lemma_round_up8(x: int)
    ensures
        round_up8(x) % 8 == 0,
{
    vstd::arithmetic::div_mod::lemma_fundamental_div_mod(x, 8);
    vstd::arithmetic::div_mod::lemma_mod_bound(x, 8);
    if x % 8 != 0 {
        assert((x + 8 - x % 8) == 8 * (x / 8) + 8);
        vstd::arithmetic::div_mod::lemma_mod_multiples_basic(x / 8 + 1, 8);
        assert(8 * (x / 8) + 8 == (x / 8 + 1) * 8) by (nonlinear_arith);
    }
}

/// In the attribute fork's B+tree root, the gap between keys and pointers is a multiple of 8,
/// and each more record takes 8 bytes from it.
pub proof fn lemma_afork_gap_step(c: DinodeCore, inode_size: int, n: int)
    requires
        n >= 0,
    ensures
        c.spec_afork_btree_ptr_gap(inode_size, n) % 8 == 0,
        c.spec_afork_btree_ptr_gap(inode_size, n + 1) == c.spec_afork_btree_ptr_gap(inode_size, n) - 8,
{
    let ofs = c.spec_literal_area_offset() + c.di_forkoff * 8;
    let a = c.spec_attr_fork_ofs();
    vstd::arithmetic::div_mod::lemma_fundamental_div_mod(ofs, 8);
    assert(a == 8 * (ofs / 8));
    vstd::arithmetic::div_mod::lemma_mod_multiples_basic(ofs / 8, 8);
    assert(a % 8 == 0) by {
        assert(8 * (ofs / 8) == (ofs / 8) * 8) by (nonlinear_arith);
    }
    let p = round_up8((inode_size - a) / 2 + a);
    lemma_round_up8((inode_size - a) / 2 + a);
    assert((4 + n * 8) % 8 == 4) by {
        vstd::arithmetic::div_mod::lemma_mod_multiples_vanish(n, 4, 8);
        assert(4 + n * 8 == 8 * n + 4) by (nonlinear_arith);
    }
    assert((4 + (n + 1) * 8) % 8 == 4) by {
        vstd::arithmetic::div_mod::lemma_mod_multiples_vanish(n + 1, 4, 8);
        assert(4 + (n + 1) * 8 == 8 * (n + 1) + 4) by (nonlinear_arith);
    }
    assert(round_up8(4 + n * 8) == 8 * n + 8);
    assert(round_up8(4 + (n + 1) * 8) == 8 * n + 16) by (nonlinear_arith)
        requires
            round_up8(4 + (n + 1) * 8) == 4 + (n + 1) * 8 + 8 - 4,
    ;
    let g = p - a - (8 * n + 8);
    assert(g % 8 == 0) by {
        vstd::arithmetic::div_mod::lemma_fundamental_div_mod(p, 8);
        vstd::arithmetic::div_mod::lemma_fundamental_div_mod(a, 8);
        assert(g == 8 * (p / 8 - a / 8 - n - 1)) by (nonlinear_arith)
            requires
                g == p - a - (8 * n + 8),
                p == 8 * (p / 8) + p % 8,
                a == 8 * (a / 8) + a % 8,
                p % 8 == 0,
                a % 8 == 0,
        ;
        vstd::arithmetic::div_mod::lemma_mod_multiples_basic(p / 8 - a / 8 - n - 1, 8);
        assert(8 * (p / 8 - a / 8 - n - 1) == (p / 8 - a / 8 - n - 1) * 8) by (nonlinear_arith);
    }
}

/// What stat reports of an inode read from disk is that inode's own record: its owner at byte
/// 8, its group at byte 12, its link count at byte 16, its size at byte 56, its block count at
/// byte 64, and its permission bits, the low 12 bits of its mode at byte 2; it reports the inode
/// number asked for.
pub proof fn lemma_stat_reports_inode(raw: Seq<u8>, ino: XfsIno)
    requires
        spec_dinode_core(raw) is Ok,
    ensures
        ({
            let c = spec_dinode_core(raw).unwrap();
            c.spec_stat(ino) matches Ok(st) ==> {
                &&& st.ino == ino
                &&& st.uid as int == be32(raw, 8)
                &&& st.gid as int == be32(raw, 12)
                &&& st.nlink as int == be32(raw, 16)
                &&& st.size == be64(raw, 56) as u64
                &&& st.blocks as int == be64(raw, 64)
                &&& st.perm as int == be16(raw, 2) % 0o10000
            }
        }),
{
    let c = spec_dinode_core(raw).unwrap();
    let m = c.di_mode;
    assert(m & !0o170000u16 == m % 0o10000) by (bit_vector);
    lemma_be16_bound(raw, 2);
    lemma_be32_bound(raw, 8);
    lemma_be32_bound(raw, 12);
    lemma_be32_bound(raw, 16);
    lemma_be32_bound(raw, 64);
    lemma_be32_bound(raw, 68);
    lemma_be32_bound(raw, 56);
    lemma_be32_bound(raw, 60);
    let hi = be32(raw, 64);
    let lo = be32(raw, 68);
    assert(0 <= hi * 0x1_0000_0000 + lo < 0x1_0000_0000_0000_0000) by (nonlinear_arith)
        requires
            0 <= hi < 0x1_0000_0000,
            0 <= lo < 0x1_0000_0000,
    ;
    let hs = be32(raw, 56);
    let ls = be32(raw, 60);
    assert(0 <= hs * 0x1_0000_0000 + ls < 0x1_0000_0000_0000_0000) by (nonlinear_arith)
        requires
            0 <= hs < 0x1_0000_0000,
            0 <= ls < 0x1_0000_0000,
    ;
    let x: u64 = be64(raw, 56) as u64;
    assert(((x as i64) as u64) == x) by (bit_vector);
    if c.spec_stat(ino) is Ok {
        let st = c.spec_stat(ino).unwrap();
        assert(st.ino == ino);
        assert(st.uid as int == be32(raw, 8));
        assert(st.gid as int == be32(raw, 12));
        assert(st.nlink as int == be32(raw, 16));
        assert(st.size == be64(raw, 56) as u64);
        assert(st.blocks as int == be64(raw, 64));
        assert(st.perm as int == be16(raw, 2) % 0o10000);
    }
}

/// A big-endian 16-bit field fits in 16 bits.
proof fn lemma_be16_bound(s: Seq<u8>, i: int)
    requires
        0 <= i,
        i + 2 <= s.len(),
    ensures
        0 <= be16(s, i) < 0x10000,
{
    let a = s[i] as int;
    let b = s[i + 1] as int;
    assert(0 <= a * 0x100 + b < 0x10000) by (nonlinear_arith)
        requires
            0 <= a < 256,
            0 <= b < 256,
    ;
}

/// A big-endian 32-bit field fits in 32 bits.
proof fn lemma_be32_bound(s: Seq<u8>, i: int)
    requires
        0 <= i,
        i + 4 <= s.len(),
    ensures
        0 <= be32(s, i) < 0x1_0000_0000,
{
    let a = s[i] as int;
    let b = s[i + 1] as int;
    let c = s[i + 2] as int;
    let d = s[i + 3] as int;
    assert(0 <= a * 0x100_0000 + b * 0x1_0000 + c * 0x100 + d < 0x1_0000_0000) by (nonlinear_arith)
        requires
            0 <= a < 256,
            0 <= b < 256,
            0 <= c < 256,
            0 <= d < 256,
    ;
}

} // verus!
