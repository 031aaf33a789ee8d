//! Symbolic links whose targets are stored in blocks of their own.
use vstd::prelude::*;

use crate::definitions::{XfsFsblock, XFS_SYMLINK_MAGIC};
use crate::utils::{be128, be32, be64, decode_u32, decode_u64, ParseError, Uuid};

verus! {

/// The header of a version 5 symbolic link block.
#[derive(Debug, Clone, Copy, PartialEq, Eq, Structural)]
pub struct DsymlinkHdr {
    pub sl_magic: u32,
    pub sl_offset: u32,
    pub sl_bytes: u32,
    pub sl_crc: u32,
    pub sl_uuid: Uuid,
    pub sl_owner: u64,
    pub sl_blkno: u64,
    pub sl_lsn: u64,
}

impl DsymlinkHdr {
    /// On-disk size in bytes
    pub const SIZE: usize = 56;

    /// Decode the header at the start of `raw`.  Its magic number must be that of a symbolic
    /// link block.  The target's bytes, `sl_bytes` of them, follow it after `sl_offset` bytes.
    pub fn decode(raw: &[u8]) -> (r: Result<DsymlinkHdr, ParseError>)
        ensures
            r is Ok <==> raw@.len() >= 56 && be32(raw@, 0) == XFS_SYMLINK_MAGIC,
            r matches Ok(h) ==> h.sl_magic == XFS_SYMLINK_MAGIC && h.sl_offset as int == be32(raw@, 4)
                && h.sl_bytes as int == be32(raw@, 8) && h.sl_crc as int == be32(raw@, 12)
                && h.sl_uuid.0 as int == be128(raw@, 16) && h.sl_owner as int == be64(raw@, 32)
                && h.sl_blkno as int == be64(raw@, 40) && h.sl_lsn as int == be64(raw@, 48),
    {
        if raw.len() < 56 {
            return Err(ParseError::UnexpectedEnd);
        }
        let sl_magic = match decode_u32(raw, 0) {
            Ok(v) => v,
            Err(e) => return Err(e),
        };
        if sl_magic != XFS_SYMLINK_MAGIC {
            return Err(ParseError::BadMagic);
        }
        let sl_offset = match decode_u32(raw, 4) {
            Ok(v) => v,
            Err(e) => return Err(e),
        };
        let sl_bytes = match decode_u32(raw, 8) {
            Ok(v) => v,
            Err(e) => return Err(e),
        };
        let sl_crc = match decode_u32(raw, 12) {
            Ok(v) => v,
            Err(e) => return Err(e),
        };
        let sl_uuid = match Uuid::decode(raw, 16) {
            Ok(v) => v,
            Err(e) => return Err(e),
        };
        let sl_owner = match decode_u64(raw, 32) {
            Ok(v) => v,
            Err(e) => return Err(e),
        };
        let sl_blkno = match decode_u64(raw, 40) {
            Ok(v) => v,
            Err(e) => return Err(e),
        };
        let sl_lsn = match decode_u64(raw, 48) {
            Ok(v) => v,
            Err(e) => return Err(e),
        };
        Ok(DsymlinkHdr { sl_magic, sl_offset, sl_bytes, sl_crc, sl_uuid, sl_owner, sl_blkno, sl_lsn })
    }
}

/// The index of the first NUL byte of `s` from index `k` on, if any.
pub open spec fn first_nul(s: Seq<u8>, k: int) -> Option<int>
    decreases s.len() - k,
{
    if k < 0 || k >= s.len() {
        None
    } else if s[k] == 0 {
        Some(k)
    } else {
        first_nul(s, k + 1)
    }
}

/// A symbolic link's target as read from its blocks: a version 4 file system does not record
/// its length, so the target ends at the first NUL byte, if there is one.
pub open spec fn spec_link_target(data: Seq<u8>) -> Seq<u8> {
    match first_nul(data, 0) {
        Some(p) => data.subrange(0, p),
        None => data,
    }
}

#[derive(Debug)]
pub struct SymlinkExtents;

impl SymlinkExtents {
    /// The target of a symbolic link from the bytes read from its blocks, cut at the first NUL
    /// byte.
    pub fn get_target(data: Vec<u8>) -> (r: Vec<u8>)
        ensures
            r@ == spec_link_target(data@),
    {
        let n: usize = data.len();
        let mut i: usize = 0;
        while i < n
            invariant
                0 <= i <= n,
                n == data@.len(),
                first_nul(data@, 0) == first_nul(data@, i as int),
            decreases n - i,
        {
            if data[i] == 0 {
                let mut v = data;
                v.truncate(i);
                proof {
                    assert(v@ =~= data@.subrange(0, i as int));
                }
                return v;
            }
            i = i + 1;
        }
        data
    }
}

/// Where the target's bytes lie in what was read from the start of one of a symbolic link's
/// extents, of `blocks` blocks of `1 << blocklog` bytes: after a header on a version 5 file
/// system, the whole extent on a version 4 one.
pub open spec fn spec_chunk(version: u16, raw: Seq<u8>, blocks: u64, blocklog: u8) -> Option<(int, int)> {
    if version == 5 {
        if raw.len() >= 56 && be32(raw, 0) == XFS_SYMLINK_MAGIC {
            Some((56 + be32(raw, 4), be32(raw, 8)))
        } else {
            None
        }
    } else if version == 4 {
        Some((0, (blocks << blocklog as u64) as int))
    } else {
        None
    }
}

impl SymlinkExtents {
    /// Where the target's bytes lie, from the start of an extent, as an offset and a length,
    /// given what was read there.  Only version 4 and 5 file systems are served.
    pub fn chunk(version: u16, raw: &[u8], blocks: u64, blocklog: u8) -> (r: Result<(u64, u64), ParseError>)
        requires
            blocklog < 64,
        ensures
            r is Ok <==> spec_chunk(version, raw@, blocks, blocklog) is Some,
            r matches Ok((o, n)) ==> (o as int, n as int) == spec_chunk(version, raw@, blocks, blocklog).unwrap(),
    {
        if version == 5 {
            match DsymlinkHdr::decode(raw) {
                Ok(hdr) => Ok((56 + hdr.sl_offset as u64, hdr.sl_bytes as u64)),
                Err(e) => Err(e),
            }
        } else if version == 4 {
            Ok((0, blocks << blocklog as u64))
        } else {
            Err(ParseError::InvalidValue)
        }
    }
}

/// One step of the walk over a symbolic link's extents, from data block `dblock`, given the
/// extent that holds it: the walk ends at the first hole; otherwise the target continues in
/// `blocks` blocks from file system block `fsb`, and the walk goes on at `dblock + blocks`.
pub fn symlink_step(dblock: u64, extent: (Option<XfsFsblock>, Option<u64>)) -> (r: Option<(XfsFsblock, u64, u64)>)
    requires
        extent.0 is Some ==> extent.1 is Some && dblock + extent.1.unwrap() <= u64::MAX,
    ensures
        extent.0 is None ==> r is None,
        extent matches (Some(fsb), Some(blocks)) ==> r == Some((fsb, blocks, (dblock + blocks) as u64)),
{
    match extent {
        (Some(fsb), Some(blocks)) => Some((fsb, blocks, dblock + blocks)),
        _ => None,
    }
}

} // verus!
