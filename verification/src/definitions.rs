//! Magic numbers, on-disk type aliases and the errno values used by the library.
use vstd::prelude::*;

verus! {

pub const XFS_SB_MAGIC: u32 = 0x58465342;
pub const XFS_AGF_MAGIC: u32 = 0x58414746;
pub const XFS_AGI_MAGIC: u32 = 0x58414749;
pub const XFS_AGFL_MAGIC: u32 = 0x5841464c;
pub const XFS_DINODE_MAGIC: u16 = 0x494e;
pub const XFS_DQUOT_MAGIC: u16 = 0x4451;
pub const XFS_SYMLINK_MAGIC: u32 = 0x58534c4d;
pub const XFS_ABTB_CRC_MAGIC: u32 = 0x41423342;
pub const XFS_ABTC_CRC_MAGIC: u32 = 0x41423343;
pub const XFS_IBT_CRC_MAGIC: u32 = 0x49414233;
pub const XFS_FIBT_CRC_MAGIC: u32 = 0x46494233;
pub const XFS_BMAP_MAGIC: u32 = 0x424d4150;
pub const XFS_BMAP_CRC_MAGIC: u32 = 0x424d4133;
pub const XLOG_HEADER_MAGIC_NUM: u32 = 0xfeedbabe;
pub const XFS_DA_NODE_MAGIC: u16 = 0xfebe;
pub const XFS_DA3_NODE_MAGIC: u16 = 0x3ebe;
pub const XFS_DIR2_BLOCK_MAGIC: u32 = 0x58443242;
pub const XFS_DIR3_BLOCK_MAGIC: u32 = 0x58444233;
pub const XFS_DIR2_DATA_MAGIC: u32 = 0x58443244;
pub const XFS_DIR3_DATA_MAGIC: u32 = 0x58444433;
pub const XFS_DIR2_LEAF1_MAGIC: u16 = 0xd2f1;
pub const XFS_DIR3_LEAF1_MAGIC: u16 = 0x3df1;
pub const XFS_DIR2_LEAFN_MAGIC: u16 = 0xd2ff;
pub const XFS_DIR3_LEAFN_MAGIC: u16 = 0x3dff;
pub const XFS_DIR3_FREE_MAGIC: u32 = 0x58444633;
pub const XFS_ATTR_LEAF_MAGIC: u16 = 0xfbee;
pub const XFS_ATTR3_LEAF_MAGIC: u16 = 0x3bee;
pub const XFS_ATTR3_RMT_MAGIC: u32 = 0x5841524d;
pub const XFS_RMAP_CRC_MAGIC: u32 = 0x524d4233;
pub const XFS_RTRMAP_CRC_MAGIC: u32 = 0x4d415052;
pub const XFS_REFC_CRC_MAGIC: u32 = 0x52334643;
pub const XFS_MD_MAGIC: u32 = 0x5846534d;

/// absolute inode number
pub type XfsIno = u64;
/// file offset
pub type XfsOff = i64;
/// disk address (sectors)
pub type XfsDaddr = i64;
/// AG number
pub type XfsAgnumber = u32;
/// AG relative block number
pub type XfsAgblock = u32;
/// extent length in blocks
pub type XfsExtlen = u32;
/// number of extents in a data fork
pub type XfsExtnum = i32;
/// number of extents in an attribute fork
pub type XfsAextnum = i16;
/// block number for directories and extended attributes
pub type XfsDablk = u32;
/// hash of a directory file name or extended attribute name
pub type XfsDahash = u32;
/// filesystem block number combining AG number
pub type XfsFsblock = u64;
/// raw filesystem block number
pub type XfsRfsblock = u64;
/// extent number in the real-time sub-volume
pub type XfsRtblock = u64;
/// block offset into a file
pub type XfsFileoff = u64;
/// block count for a file
pub type XfsFilblks = u64;
/// byte size of a file
pub type XfsFsize = i64;

// Error numbers returned to the kernel.  The values are those of the Linux ABI.
pub const ENOENT: i32 = 2;
pub const EIO: i32 = 5;
pub const ENXIO: i32 = 6;
pub const EINVAL: i32 = 22;
pub const ERANGE: i32 = 34;
/// "No such attribute"; Linux spells it ENODATA.
pub const ENOATTR: i32 = 61;

/// `whence` values for lseek(2)
pub const SEEK_DATA: i32 = 3;
pub const SEEK_HOLE: i32 = 4;

// File mode bits
pub const S_IFMT: u16 = 0o170000;
pub const S_IFSOCK: u16 = 0o140000;
pub const S_IFLNK: u16 = 0o120000;
pub const S_IFREG: u16 = 0o100000;
pub const S_IFBLK: u16 = 0o060000;
pub const S_IFDIR: u16 = 0o040000;
pub const S_IFCHR: u16 = 0o020000;
pub const S_IFIFO: u16 = 0o010000;

} // verus!
