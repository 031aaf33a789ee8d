//! The superblock: parsing, feature flags, and block address arithmetic.
use vstd::prelude::*;

use crate::definitions::{
    XfsAgblock, XfsAgnumber, XfsDablk, XfsExtlen, XfsFsblock, XfsIno, XfsRfsblock, XFS_SB_MAGIC,
};
use crate::utils::{be128, be16, be32, be64, le32, Uuid};

verus! {

pub const XFS_SB_VERSION2_LAZYSBCOUNTBIT: u32 = 0x00000002;
pub const XFS_SB_VERSION2_ATTR2BIT: u32 = 0x00000008;
pub const XFS_SB_VERSION2_PARENTBIT: u32 = 0x00000010;
pub const XFS_SB_VERSION2_PROJID32BIT: u32 = 0x00000080;
pub const XFS_SB_VERSION2_CRCBIT: u32 = 0x00000100;
pub const XFS_SB_VERSION2_FTYPE: u32 = 0x00000200;

pub const XFS_SB_FEAT_INCOMPAT_FTYPE: u32 = 0x00000001;
pub const XFS_SB_FEAT_INCOMPAT_SPINODES: u32 = 0x00000002;
pub const XFS_SB_FEAT_INCOMPAT_META_UUID: u32 = 0x00000004;
pub const XFS_SB_FEAT_INCOMPAT_BIGTIME: u32 = 0x00000008;
pub const XFS_SB_FEAT_INCOMPAT_NEEDSREPAIR: u32 = 0x00000010;
pub const XFS_SB_FEAT_INCOMPAT_NREXT64: u32 = 0x00000020;
/// Every incompatible feature bit that this implementation knows of.
pub const XFS_SB_FEAT_INCOMPAT_KNOWN: u32 = 0x0000003f;

/// The sb_features2 field.  Every bit pattern is accepted.
#[derive(Debug, Clone, Copy, PartialEq, Eq, Structural)]
pub struct SbFeatures2 {
    pub bits: u32,
}

impl SbFeatures2 {
    /// Interpret raw bits.  Unknown bits are retained, so this never fails.
    pub fn from_bits(bits: u32) -> (r: Option<SbFeatures2>)
        ensures
            r == Some(SbFeatures2 { bits }),
    {
        Some(SbFeatures2 { bits })
    }

    pub fn attr2(&self) -> (r: bool)
        ensures
            r == (self.bits & XFS_SB_VERSION2_ATTR2BIT == XFS_SB_VERSION2_ATTR2BIT),
    {
        self.bits & XFS_SB_VERSION2_ATTR2BIT == XFS_SB_VERSION2_ATTR2BIT
    }

    pub fn crc(&self) -> (r: bool)
        ensures
            r == (self.bits & XFS_SB_VERSION2_CRCBIT == XFS_SB_VERSION2_CRCBIT),
    {
        self.bits & XFS_SB_VERSION2_CRCBIT == XFS_SB_VERSION2_CRCBIT
    }

    pub fn ftype(&self) -> (r: bool)
        ensures
            r == (self.bits & XFS_SB_VERSION2_FTYPE == XFS_SB_VERSION2_FTYPE),
    {
        self.bits & XFS_SB_VERSION2_FTYPE == XFS_SB_VERSION2_FTYPE
    }
}

/// The sb_features_incompat field.  Only the known feature bits may be set.
#[derive(Debug, Clone, Copy, PartialEq, Eq, Structural)]
pub struct SbFeaturesIncompat {
    pub bits: u32,
}

impl SbFeaturesIncompat {
    /// Interpret raw bits; `None` if any unknown bit is set.
    pub fn from_bits(bits: u32) -> (r: Option<SbFeaturesIncompat>)
        ensures
            bits & !XFS_SB_FEAT_INCOMPAT_KNOWN == 0 ==> r == Some(SbFeaturesIncompat { bits }),
            bits & !XFS_SB_FEAT_INCOMPAT_KNOWN != 0 ==> r is None,
    {
        if bits & !XFS_SB_FEAT_INCOMPAT_KNOWN == 0 {
            Some(SbFeaturesIncompat { bits })
        } else {
            None
        }
    }

    pub fn ftype(&self) -> (r: bool)
        ensures
            r == (self.bits & XFS_SB_FEAT_INCOMPAT_FTYPE == XFS_SB_FEAT_INCOMPAT_FTYPE),
    {
        self.bits & XFS_SB_FEAT_INCOMPAT_FTYPE == XFS_SB_FEAT_INCOMPAT_FTYPE
    }

    pub fn meta_uuid(&self) -> (r: bool)
        ensures
            r == (self.bits & XFS_SB_FEAT_INCOMPAT_META_UUID == XFS_SB_FEAT_INCOMPAT_META_UUID),
    {
        self.bits & XFS_SB_FEAT_INCOMPAT_META_UUID == XFS_SB_FEAT_INCOMPAT_META_UUID
    }

    pub fn needs_repair(&self) -> (r: bool)
        ensures
            r == (self.bits & XFS_SB_FEAT_INCOMPAT_NEEDSREPAIR
                == XFS_SB_FEAT_INCOMPAT_NEEDSREPAIR),
    {
        self.bits & XFS_SB_FEAT_INCOMPAT_NEEDSREPAIR == XFS_SB_FEAT_INCOMPAT_NEEDSREPAIR
    }

    pub fn large_extent_counters(&self) -> (r: bool)
        ensures
            r == (self.bits & XFS_SB_FEAT_INCOMPAT_NREXT64 == XFS_SB_FEAT_INCOMPAT_NREXT64),
    {
        self.bits & XFS_SB_FEAT_INCOMPAT_NREXT64 == XFS_SB_FEAT_INCOMPAT_NREXT64
    }
}

/// The sb_features_log_incompat field.  No bit is known, so only zero is accepted.
#[derive(Debug, Clone, Copy, PartialEq, Eq, Structural)]
pub struct SbFeaturesLogIncompat {
    pub bits: u32,
}

impl SbFeaturesLogIncompat {
    pub fn from_bits(bits: u32) -> (r: Option<SbFeaturesLogIncompat>)
        ensures
            bits == 0 ==> r == Some(SbFeaturesLogIncompat { bits }),
            bits != 0 ==> r is None,
    {
        if bits == 0 {
            Some(SbFeaturesLogIncompat { bits })
        } else {
            None
        }
    }
}

/// Why a superblock was rejected.
#[derive(Debug, Clone, Copy, PartialEq, Eq, Structural)]
pub enum SbError {
    /// The buffer is shorter than the superblock's sector.
    Truncated,
    /// "Superblock magic number is invalid"
    BadMagic,
    /// "Unknown value in sb_features_incompat"
    UnknownIncompat(u32),
    /// "Unknown value in sb_features_log_incompat"
    UnknownLogIncompat(u32),
    /// The sector size is too small to hold the superblock.
    BadSectorSize(u16),
    /// "Unsupported filesystem version number"
    UnsupportedVersion(u16),
    /// "Version 1 extended attributes are not supported"
    NoAttr2,
    /// "Version 5 file systems must set the CRC bit in sb_features2"
    V5WithoutCrc,
    /// "Crc check failed!"
    CrcMismatch,
    /// "The Metadata UUID feature is not supported"
    MetaUuid,
    /// "The NeedsRepair feature is not supported"
    NeedsRepair,
    /// "The Large Extent Counters feature is not supported"
    LargeExtentCounters,
}

/// The superblock fields that this implementation uses.
#[derive(Clone, Copy, Debug)]
pub struct Sb {
    pub sb_blocksize: u32,
    pub sb_dblocks: XfsRfsblock,
    pub sb_uuid: Uuid,
    pub sb_rootino: XfsIno,
    pub sb_agblocks: XfsAgblock,
    pub sb_agcount: XfsAgnumber,
    pub sb_logblocks: XfsExtlen,
    pub sb_versionnum: u16,
    pub sb_inodesize: u16,
    pub sb_blocklog: u8,
    pub sb_inodelog: u8,
    pub sb_inopblog: u8,
    pub sb_agblklog: u8,
    pub sb_icount: u64,
    pub sb_ifree: u64,
    pub sb_fdblocks: u64,
    pub sb_dirblklog: u8,
    pub sb_features2: SbFeatures2,
    pub sb_features_incompat: SbFeaturesIncompat,
}

/// Offset of the CRC within the superblock.
pub const SB_CRC_OFFSET: usize = 224;

/// The bytes over which the superblock CRC is computed: the first `sectsize` bytes of the
/// sector, with the CRC field itself replaced by zeros.
pub open spec fn spec_crc_input(raw: Seq<u8>, sectsize: int) -> Seq<u8> {
    raw.subrange(0, 224) + seq![0u8, 0u8, 0u8, 0u8] + raw.subrange(228, sectsize)
}

/// The superblock that `raw` (the first sector of the device) describes, or why it is rejected,
/// given the CRC32c checksum `crc` of `spec_crc_input(raw, sectsize)`.
pub open spec fn spec_sb(raw: Seq<u8>, crc: u32) -> Result<Sb, SbError> {
    if raw.len() < 228 {
        Err(SbError::Truncated)
    } else if be32(raw, 0) != XFS_SB_MAGIC {
        Err(SbError::BadMagic)
    } else if (be32(raw, 216) as u32) & !XFS_SB_FEAT_INCOMPAT_KNOWN != 0 {
        Err(SbError::UnknownIncompat(be32(raw, 216) as u32))
    } else if be32(raw, 220) != 0 {
        Err(SbError::UnknownLogIncompat(be32(raw, 220) as u32))
    } else if be16(raw, 102) < 228 {
        Err(SbError::BadSectorSize(be16(raw, 102) as u16))
    } else if raw.len() < be16(raw, 102) {
        Err(SbError::Truncated)
    } else if (be16(raw, 100) as u16) & 0xf != 4 && (be16(raw, 100) as u16) & 0xf != 5 {
        Err(SbError::UnsupportedVersion((be16(raw, 100) as u16) & 0xf))
    } else if (be32(raw, 200) as u32) & XFS_SB_VERSION2_ATTR2BIT != XFS_SB_VERSION2_ATTR2BIT {
        Err(SbError::NoAttr2)
    } else if (be16(raw, 100) as u16) & 0xf == 5 && (be32(raw, 200) as u32)
        & XFS_SB_VERSION2_CRCBIT != XFS_SB_VERSION2_CRCBIT {
        Err(SbError::V5WithoutCrc)
    } else if (be32(raw, 200) as u32) & XFS_SB_VERSION2_CRCBIT == XFS_SB_VERSION2_CRCBIT && crc
        != le32(raw, 224) {
        Err(SbError::CrcMismatch)
    } else if (be32(raw, 216) as u32) & XFS_SB_FEAT_INCOMPAT_META_UUID
        == XFS_SB_FEAT_INCOMPAT_META_UUID {
        Err(SbError::MetaUuid)
    } else if (be32(raw, 216) as u32) & XFS_SB_FEAT_INCOMPAT_NEEDSREPAIR
        == XFS_SB_FEAT_INCOMPAT_NEEDSREPAIR {
        Err(SbError::NeedsRepair)
    } else if (be32(raw, 216) as u32) & XFS_SB_FEAT_INCOMPAT_NREXT64
        == XFS_SB_FEAT_INCOMPAT_NREXT64 {
        Err(SbError::LargeExtentCounters)
    } else {
        Ok(
            Sb {
                sb_blocksize: be32(raw, 4) as u32,
                sb_dblocks: be64(raw, 8) as u64,
                sb_uuid: Uuid(be128(raw, 32) as u128),
                sb_rootino: be64(raw, 56) as u64,
                sb_agblocks: be32(raw, 84) as u32,
                sb_agcount: be32(raw, 88) as u32,
                sb_logblocks: be32(raw, 96) as u32,
                sb_versionnum: be16(raw, 100) as u16,
                sb_inodesize: be16(raw, 104) as u16,
                sb_blocklog: raw[120],
                sb_inodelog: raw[122],
                sb_inopblog: raw[123],
                sb_agblklog: raw[124],
                sb_icount: be64(raw, 128) as u64,
                sb_ifree: be64(raw, 136) as u64,
                sb_fdblocks: be64(raw, 144) as u64,
                sb_dirblklog: raw[192],
                sb_features2: SbFeatures2 { bits: be32(raw, 200) as u32 },
                sb_features_incompat: SbFeaturesIncompat { bits: be32(raw, 216) as u32 },
            },
        )
    }
}

/// The CRC32c (Castagnoli, as used by iSCSI) checksum of the given bytes.
pub uninterp spec fn spec_crc32c(data: Seq<u8>) -> u32;

/// `crc::Crc::<u32>::new(&crc::CRC_32_ISCSI).checksum(data)`: the CRC32c of `data`.
#[verifier::external_body]
fn crc32c(data: &[u8]) -> (r: u32)
    ensures
        r == spec_crc32c(data@),
{
    crc::Crc::<u32>::new(&crc::CRC_32_ISCSI).checksum(data)
}

/// `<byteorder::BigEndian as byteorder::ByteOrder>::read_u16`, which panics on fewer than 2
/// bytes and otherwise returns the big-endian value of the first 2.
#[verifier::external_body]
fn read_be_u16(buf: &[u8]) -> (r: u16)
    requires
        buf@.len() >= 2,
    ensures
        r as int == be16(buf@, 0),
{
    <byteorder::BigEndian as byteorder::ByteOrder>::read_u16(buf)
}

/// `<byteorder::BigEndian as byteorder::ByteOrder>::read_u32`, which panics on fewer than 4
/// bytes and otherwise returns the big-endian value of the first 4.
#[verifier::external_body]
fn read_be_u32(buf: &[u8]) -> (r: u32)
    requires
        buf@.len() >= 4,
    ensures
        r as int == be32(buf@, 0),
{
    <byteorder::BigEndian as byteorder::ByteOrder>::read_u32(buf)
}

/// `<byteorder::BigEndian as byteorder::ByteOrder>::read_u64`, which panics on fewer than 8
/// bytes and otherwise returns the big-endian value of the first 8.
#[verifier::external_body]
fn read_be_u64(buf: &[u8]) -> (r: u64)
    requires
        buf@.len() >= 8,
    ensures
        r as int == be64(buf@, 0),
{
    <byteorder::BigEndian as byteorder::ByteOrder>::read_u64(buf)
}

/// `<byteorder::BigEndian as byteorder::ByteOrder>::read_u128`, which panics on fewer than 16
/// bytes and otherwise returns the big-endian value of the first 16.
#[verifier::external_body]
fn read_be_u128(buf: &[u8]) -> (r: u128)
    requires
        buf@.len() >= 16,
    ensures
        r as int == be128(buf@, 0),
{
    <byteorder::BigEndian as byteorder::ByteOrder>::read_u128(buf)
}

/// `<byteorder::LittleEndian as byteorder::ByteOrder>::read_u32`, which panics on fewer than 4
/// bytes and otherwise returns the little-endian value of the first 4.
#[verifier::external_body]
fn read_le_u32(buf: &[u8]) -> (r: u32)
    requires
        buf@.len() >= 4,
    ensures
        r as int == le32(buf@, 0),
{
    <byteorder::LittleEndian as byteorder::ByteOrder>::read_u32(buf)
}

/// Big-endian u16 at `ofs`.
pub(crate) fn be_u16_at(raw: &[u8], ofs: usize) -> (r: u16)
    requires
        ofs + 2 <= raw@.len(),
    ensures
        r as int == be16(raw@, ofs as int),
{
    let n: usize = raw.len();
    assert(ofs + 2 <= n);
    read_be_u16(vstd::slice::slice_subrange(raw, ofs, ofs + 2))
}

/// Big-endian u32 at `ofs`.
pub(crate) fn be_u32_at(raw: &[u8], ofs: usize) -> (r: u32)
    requires
        ofs + 4 <= raw@.len(),
    ensures
        r as int == be32(raw@, ofs as int),
{
    let n: usize = raw.len();
    assert(ofs + 4 <= n);
    read_be_u32(vstd::slice::slice_subrange(raw, ofs, ofs + 4))
}

/// Big-endian u64 at `ofs`.
pub(crate) fn be_u64_at(raw: &[u8], ofs: usize) -> (r: u64)
    requires
        ofs + 8 <= raw@.len(),
    ensures
        r as int == be64(raw@, ofs as int),
{
    let n: usize = raw.len();
    assert(ofs + 8 <= n);
    read_be_u64(vstd::slice::slice_subrange(raw, ofs, ofs + 8))
}

/// Big-endian u128 at `ofs`.
pub(crate) fn be_u128_at(raw: &[u8], ofs: usize) -> (r: u128)
    requires
        ofs + 16 <= raw@.len(),
    ensures
        r as int == be128(raw@, ofs as int),
{
    let n: usize = raw.len();
    assert(ofs + 16 <= n);
    read_be_u128(vstd::slice::slice_subrange(raw, ofs, ofs + 16))
}

impl Sb {
    pub const BBSHIFT: u8 = 9;

    /// Parse the superblock from the first sector of the device, checking its CRC.
    pub fn from(raw: &[u8]) -> (r: Result<Sb, SbError>)
        ensures
            raw@.len() >= 228 && be16(raw@, 102) >= 228 && raw@.len() >= be16(raw@, 102) ==> r
                == spec_sb(raw@, spec_crc32c(spec_crc_input(raw@, be16(raw@, 102)))),
            !(raw@.len() >= 228 && be16(raw@, 102) >= 228 && raw@.len() >= be16(raw@, 102))
                ==> r == spec_sb(raw@, 0),
    {
        if raw.len() < 228 {
            return Sb::from_with_crc(raw, 0);
        }
        let sectsize: u16 = be_u16_at(raw, 102);
        if sectsize < 228 || raw.len() < sectsize as usize {
            return Sb::from_with_crc(raw, 0);
        }
        let data = Sb::crc_input(raw, sectsize as usize);
        let crc: u32 = crc32c(data.as_slice());
        Sb::from_with_crc(raw, crc)
    }

    /// The bytes that the superblock's CRC covers.
    pub fn crc_input(raw: &[u8], sectsize: usize) -> (r: Vec<u8>)
        requires
            228 <= sectsize <= raw@.len(),
        ensures
            r@ == spec_crc_input(raw@, sectsize as int),
    {
        let mut data: Vec<u8> = Vec::new();
        data.extend_from_slice(vstd::slice::slice_subrange(raw, 0, 224));
        data.push(0u8);
        data.push(0u8);
        data.push(0u8);
        data.push(0u8);
        data.extend_from_slice(vstd::slice::slice_subrange(raw, 228, sectsize));
        assert(data@ =~= spec_crc_input(raw@, sectsize as int));
        data
    }

    /// Parse the superblock from the first sector of the device, given the CRC32c of the bytes
    /// that its checksum covers.
    pub fn from_with_crc(raw: &[u8], crc: u32) -> (r: Result<Sb, SbError>)
        ensures
            r == spec_sb(raw@, crc),
    {
        if raw.len() < 228 {
            return Err(SbError::Truncated);
        }
        let magic: u32 = be_u32_at(raw, 0);
        if magic != XFS_SB_MAGIC {
            return Err(SbError::BadMagic);
        }
        let incompat_raw: u32 = be_u32_at(raw, 216);
        let sb_features_incompat = match SbFeaturesIncompat::from_bits(incompat_raw) {
            Some(f) => f,
            None => {
                return Err(SbError::UnknownIncompat(incompat_raw));
            },
        };
        let log_incompat_raw: u32 = be_u32_at(raw, 220);
        if SbFeaturesLogIncompat::from_bits(log_incompat_raw).is_none() {
            return Err(SbError::UnknownLogIncompat(log_incompat_raw));
        }
        let sb_sectsize: u16 = be_u16_at(raw, 102);
        if sb_sectsize < 228 {
            return Err(SbError::BadSectorSize(sb_sectsize));
        }
        if raw.len() < sb_sectsize as usize {
            return Err(SbError::Truncated);
        }
        let sb_versionnum: u16 = be_u16_at(raw, 100);
        let sb_features2 = SbFeatures2 { bits: be_u32_at(raw, 200) };
        if sb_versionnum & 0xf != 4 && sb_versionnum & 0xf != 5 {
            return Err(SbError::UnsupportedVersion(sb_versionnum & 0xf));
        }
        if !sb_features2.attr2() {
            return Err(SbError::NoAttr2);
        }
        if sb_versionnum & 0xf == 5 && !sb_features2.crc() {
            return Err(SbError::V5WithoutCrc);
        }
        let sb_crc: u32 = read_le_u32(vstd::slice::slice_subrange(raw, 224, 228));
        if sb_features2.crc() && crc != sb_crc {
            return Err(SbError::CrcMismatch);
        }
        if sb_features_incompat.meta_uuid() {
            return Err(SbError::MetaUuid);
        }
        if sb_features_incompat.needs_repair() {
            return Err(SbError::NeedsRepair);
        }
        if sb_features_incompat.large_extent_counters() {
            return Err(SbError::LargeExtentCounters);
        }
        Ok(
            Sb {
                sb_blocksize: be_u32_at(raw, 4),
                sb_dblocks: be_u64_at(raw, 8),
                sb_uuid: Uuid(be_u128_at(raw, 32)),
                sb_rootino: be_u64_at(raw, 56),
                sb_agblocks: be_u32_at(raw, 84),
                sb_agcount: be_u32_at(raw, 88),
                sb_logblocks: be_u32_at(raw, 96),
                sb_versionnum,
                sb_inodesize: be_u16_at(raw, 104),
                sb_blocklog: raw[120],
                sb_inodelog: raw[122],
                sb_inopblog: raw[123],
                sb_agblklog: raw[124],
                sb_icount: be_u64_at(raw, 128),
                sb_ifree: be_u64_at(raw, 136),
                sb_fdblocks: be_u64_at(raw, 144),
                sb_dirblklog: raw[192],
                sb_features2,
                sb_features_incompat,
            },
        )
    }

    /// The directory block number at which a directory's leaf information starts.
    pub fn get_dir3_leaf_offset(&self) -> (r: XfsDablk)
        requires
            4 <= self.sb_blocklog <= 35,
        ensures
            r == 1u32 << (35 - self.sb_blocklog) as u32,
    {
        1u32 << (35 - self.sb_blocklog) as u32
    }

    /// Get the size of an inode in bytes
    pub fn inode_size(&self) -> (r: usize)
        ensures
            r == self.sb_inodesize,
    {
        self.sb_inodesize as usize
    }

    /// Whether block addresses can be converted by `fsb_to_daddr` without overflow.
    pub open spec fn fsb_ok(&self, fsbno: XfsFsblock) -> bool {
        &&& 9 <= self.sb_blocklog < 73
        &&& self.sb_agblklog < 64
        &&& (fsbno >> self.sb_agblklog) * self.sb_agblocks + (fsbno & ((1u64 << self.sb_agblklog)
            - 1) as u64) <= u64::MAX
    }

    /// The disk address, in 512-byte units, of file system block `fsbno`.
    pub open spec fn spec_fsb_to_daddr(&self, fsbno: XfsFsblock) -> u64 {
        (((fsbno >> self.sb_agblklog) * self.sb_agblocks + (fsbno & ((1u64 << self.sb_agblklog)
            - 1) as u64)) as u64) << (self.sb_blocklog - 9) as u64
    }

    /// Whether block `fsbno` can be located on the device: `fsb_to_daddr` and `fsb_to_offset`
    /// may be asked for it.
    pub fn can_map(&self, fsbno: XfsFsblock) -> (r: bool)
        ensures
            r == (self.fsb_ok(fsbno) && self.sb_blocklog - 9 < 64),
    {
        if self.sb_blocklog < 9 || self.sb_blocklog >= 73 || self.sb_agblklog >= 64 {
            return false;
        }
        let sh: u8 = self.sb_agblklog;
        assert(1u64 << sh >= 1) by (bit_vector)
            requires
                sh < 64,
        ;
        let agno: u64 = fsbno >> self.sb_agblklog;
        let agbno: u64 = fsbno & ((1u64 << self.sb_agblklog) - 1);
        assert(agno as u128 * self.sb_agblocks as u128 <= 0xffff_ffff_ffff_ffff * 0xffff_ffff) by (nonlinear_arith)
            requires
                agno <= 0xffff_ffff_ffff_ffffu64,
                self.sb_agblocks <= 0xffff_ffffu32,
        ;
        let a: u128 = agno as u128 * self.sb_agblocks as u128;
        a + agbno as u128 <= u64::MAX as u128
    }

    /// Given a file system block number, calculate its disk address in units of 512B blocks
    pub fn fsb_to_daddr(&self, fsbno: XfsFsblock) -> (r: u64)
        requires
            self.fsb_ok(fsbno),
            self.sb_blocklog - 9 < 64,
        ensures
            r == self.spec_fsb_to_daddr(fsbno),
    {
        let blkbb_log: u8 = self.sb_blocklog - Self::BBSHIFT;
        let agno: u64 = fsbno >> self.sb_agblklog;
        let sh: u8 = self.sb_agblklog;
        assert(1u64 << sh >= 1) by (bit_vector)
            requires
                sh < 64,
        ;
        let agbno: u64 = fsbno & ((1u64 << self.sb_agblklog) - 1);
        (agno * (self.sb_agblocks as u64) + agbno) << blkbb_log
    }

    /// Given a file system block number, calculate its disk byte offset
    pub fn fsb_to_offset(&self, fsbno: XfsFsblock) -> (r: u64)
        requires
            self.fsb_ok(fsbno),
            self.sb_blocklog - 9 < 64,
        ensures
            r == self.spec_fsb_to_daddr(fsbno) << 9u64,
    {
        self.fsb_to_daddr(fsbno) << Self::BBSHIFT
    }

    /// Does this file system record file type in its directory inodes?
    pub fn has_ftype(&self) -> (r: bool)
        ensures
            r == self.spec_has_ftype(),
    {
        self.sb_features2.ftype() || self.sb_features_incompat.ftype()
    }

    pub open spec fn spec_has_ftype(&self) -> bool {
        (self.sb_features2.bits & XFS_SB_VERSION2_FTYPE == XFS_SB_VERSION2_FTYPE) || (
        self.sb_features_incompat.bits & XFS_SB_FEAT_INCOMPAT_FTYPE == XFS_SB_FEAT_INCOMPAT_FTYPE)
    }

    /// Return the file system version (usually 4 or 5)
    pub fn version(&self) -> (r: u16)
        ensures
            r == self.spec_version(),
    {
        self.sb_versionnum & 0xf
    }

    pub open spec fn spec_version(&self) -> u16 {
        self.sb_versionnum & 0xf
    }
}

} // verus!
