//! The allocation group inode header.
use vstd::prelude::*;

use crate::definitions::XFS_AGI_MAGIC;
use crate::sb::be_u32_at;
use crate::utils::{be32, ParseError};

verus! {

/// The inode header of an allocation group.
#[derive(Debug, Clone, Copy)]
pub struct Agi {
    pub agi_magicnum: u32,
    pub agi_versionnum: u32,
    pub agi_seqno: u32,
    pub agi_length: u32,
    pub agi_count: u32,
    pub agi_root: u32,
    pub agi_level: u32,
    pub agi_freecount: u32,
    pub agi_newino: u32,
    pub agi_dirino: u32,
    pub agi_unlinked: [u32; 64],
}

impl Agi {
    /// On-disk size in bytes of the fields read
    pub const SIZE: usize = 296;

    /// Decode the header at the start of `raw`: ten big-endian 32-bit fields, then the 64
    /// heads of the unlinked inode lists.  The magic number must be that of an AGI.
    pub fn from(raw: &[u8]) -> (r: Result<Agi, ParseError>)
        ensures
            raw@.len() >= 4 && be32(raw@, 0) != XFS_AGI_MAGIC ==> r == Err::<Agi, ParseError>(
                ParseError::BadMagic,
            ),
            r is Ok <==> raw@.len() >= 296 && be32(raw@, 0) == XFS_AGI_MAGIC,
            r matches Ok(a) ==> ({
                &&& a.agi_magicnum == XFS_AGI_MAGIC
                &&& a.agi_versionnum as int == be32(raw@, 4)
                &&& a.agi_seqno as int == be32(raw@, 8)
                &&& a.agi_length as int == be32(raw@, 12)
                &&& a.agi_count as int == be32(raw@, 16)
                &&& a.agi_root as int == be32(raw@, 20)
                &&& a.agi_level as int == be32(raw@, 24)
                &&& a.agi_freecount as int == be32(raw@, 28)
                &&& a.agi_newino as int == be32(raw@, 32)
                &&& a.agi_dirino as int == be32(raw@, 36)
                &&& forall|i: int| 0 <= i < 64 ==> #[trigger] a.agi_unlinked@[i] as int == be32(raw@, 40 + 4 * i)
            }),
    {
        if raw.len() < 4 {
            return Err(ParseError::UnexpectedEnd);
        }
        let agi_magicnum: u32 = be_u32_at(raw, 0);
        if agi_magicnum != XFS_AGI_MAGIC {
            return Err(ParseError::BadMagic);
        }
        if raw.len() < 296 {
            return Err(ParseError::UnexpectedEnd);
        }
        let agi_versionnum: u32 = be_u32_at(raw, 4);
        let agi_seqno: u32 = be_u32_at(raw, 8);
        let agi_length: u32 = be_u32_at(raw, 12);
        let agi_count: u32 = be_u32_at(raw, 16);
        let agi_root: u32 = be_u32_at(raw, 20);
        let agi_level: u32 = be_u32_at(raw, 24);
        let agi_freecount: u32 = be_u32_at(raw, 28);
        let agi_newino: u32 = be_u32_at(raw, 32);
        let agi_dirino: u32 = be_u32_at(raw, 36);
        let mut agi_unlinked: [u32; 64] = [0u32; 64];
        let mut i: usize = 0;
        while i < 64
            invariant
                0 <= i <= 64,
                raw@.len() >= 296,
                agi_unlinked@.len() == 64,
                forall|k: int| 0 <= k < i ==> #[trigger] agi_unlinked@[k] as int == be32(raw@, 40 + 4 * k),
            decreases 64 - i,
        {
            agi_unlinked[i] = be_u32_at(raw, 40 + 4 * i);
            i = i + 1;
        }
        Ok(
            Agi {
                agi_magicnum,
                agi_versionnum,
                agi_seqno,
                agi_length,
                agi_count,
                agi_root,
                agi_level,
                agi_freecount,
                agi_newino,
                agi_dirino,
                agi_unlinked,
            },
        )
    }
}

} // verus!
