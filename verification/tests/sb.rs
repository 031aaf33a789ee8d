use xfs_fuse::dinode::inode_offset;
use xfs_fuse::volume::{statfs, StatFs};
use xfs_fuse::sb::{Sb, SbError, SbFeatures2, SbFeaturesIncompat, SbFeaturesLogIncompat};

/// Build the first sector of a file system with the given version number field, features2
/// field and incompat field.  The CRC field is filled in correctly.
fn sector(versionnum: u16, features2: u32, incompat: u32) -> Vec<u8> {
    let mut raw = vec![0u8; 512];
    raw[0..4].copy_from_slice(&0x58465342u32.to_be_bytes());
    raw[4..8].copy_from_slice(&4096u32.to_be_bytes());
    raw[8..16].copy_from_slice(&1000u64.to_be_bytes());
    raw[32..48].copy_from_slice(&0x0123_4567_89ab_cdef_0011_2233_4455_6677u128.to_be_bytes());
    raw[56..64].copy_from_slice(&128u64.to_be_bytes());
    raw[84..88].copy_from_slice(&250u32.to_be_bytes());
    raw[88..92].copy_from_slice(&4u32.to_be_bytes());
    raw[96..100].copy_from_slice(&100u32.to_be_bytes());
    raw[100..102].copy_from_slice(&versionnum.to_be_bytes());
    raw[102..104].copy_from_slice(&512u16.to_be_bytes());
    raw[104..106].copy_from_slice(&512u16.to_be_bytes());
    raw[120] = 12; // blocklog
    raw[122] = 9; // inodelog
    raw[123] = 3; // inopblog
    raw[124] = 8; // agblklog
    raw[128..136].copy_from_slice(&64u64.to_be_bytes());
    raw[136..144].copy_from_slice(&3u64.to_be_bytes());
    raw[144..152].copy_from_slice(&900u64.to_be_bytes());
    raw[192] = 0; // dirblklog
    raw[200..204].copy_from_slice(&features2.to_be_bytes());
    raw[216..220].copy_from_slice(&incompat.to_be_bytes());
    let mut data = raw[0..224].to_vec();
    data.extend_from_slice(&[0u8; 4]);
    data.extend_from_slice(&raw[228..512]);
    let crc = crc::Crc::<u32>::new(&crc::CRC_32_ISCSI).checksum(&data);
    raw[224..228].copy_from_slice(&crc.to_le_bytes());
    raw
}

#[test]
fn sb_v5_parses() {
    let raw = sector(0xb4a5, 0x8 | 0x100 | 0x200, 0x1);
    let sb = Sb::from(&raw).unwrap();
    assert_eq!(sb.sb_blocksize, 4096);
    assert_eq!(sb.sb_dblocks, 1000);
    assert_eq!(sb.sb_rootino, 128);
    assert_eq!(sb.sb_agblocks, 250);
    assert_eq!(sb.sb_agcount, 4);
    assert_eq!(sb.sb_blocklog, 12);
    assert_eq!(sb.sb_inodelog, 9);
    assert_eq!(sb.sb_inopblog, 3);
    assert_eq!(sb.sb_agblklog, 8);
    assert_eq!(sb.sb_icount, 64);
    assert_eq!(sb.sb_ifree, 3);
    assert_eq!(sb.sb_fdblocks, 900);
    assert_eq!(sb.sb_uuid.0, 0x0123_4567_89ab_cdef_0011_2233_4455_6677u128);
    assert_eq!(sb.version(), 5);
    assert_eq!(sb.inode_size(), 512);
    assert!(sb.has_ftype());
    // 35 - 12 = 23
    assert_eq!(sb.get_dir3_leaf_offset(), 1 << 23);
}

#[test]
fn sb_fsb_to_offset() {
    let raw = sector(0xb4a5, 0x8 | 0x100, 0x0);
    let sb = Sb::from(&raw).unwrap();
    assert!(!sb.has_ftype());
    // AG 2, block 5: (2 * 250 + 5) blocks of 4096 bytes
    let fsbno: u64 = (2 << 8) | 5;
    assert_eq!(sb.fsb_to_daddr(fsbno), 505 * 8);
    assert_eq!(sb.fsb_to_offset(fsbno), 505 * 4096);
}

#[test]
fn sb_v4_without_crc() {
    let mut raw = sector(0x34a4, 0x8, 0x0);
    // A V4 file system has no CRC; corrupt it to show that it is not checked.
    raw[224] ^= 0xff;
    let sb = Sb::from(&raw).unwrap();
    assert_eq!(sb.version(), 4);
}

#[test]
fn sb_errors() {
    let raw = sector(0xb4a5, 0x8 | 0x100, 0x0);
    let mut bad = raw.clone();
    bad[0] = 0;
    assert_eq!(Sb::from(&bad).unwrap_err(), SbError::BadMagic);
    let mut bad = raw.clone();
    bad[300] ^= 1;
    assert_eq!(Sb::from(&bad).unwrap_err(), SbError::CrcMismatch);
    assert_eq!(Sb::from(&raw[0..100]).unwrap_err(), SbError::Truncated);
    assert_eq!(Sb::from(&raw[0..400]).unwrap_err(), SbError::Truncated);
    let raw3 = sector(0xb4a3, 0x8 | 0x100, 0x0);
    assert_eq!(Sb::from(&raw3).unwrap_err(), SbError::UnsupportedVersion(3));
    let noattr2 = sector(0xb4a5, 0x100, 0x0);
    assert_eq!(Sb::from(&noattr2).unwrap_err(), SbError::NoAttr2);
    let nocrc = sector(0xb4a5, 0x8, 0x0);
    assert_eq!(Sb::from(&nocrc).unwrap_err(), SbError::V5WithoutCrc);
    let meta = sector(0xb4a5, 0x8 | 0x100, 0x4);
    assert_eq!(Sb::from(&meta).unwrap_err(), SbError::MetaUuid);
    let repair = sector(0xb4a5, 0x8 | 0x100, 0x10);
    assert_eq!(Sb::from(&repair).unwrap_err(), SbError::NeedsRepair);
    let large = sector(0xb4a5, 0x8 | 0x100, 0x20);
    assert_eq!(Sb::from(&large).unwrap_err(), SbError::LargeExtentCounters);
    let unknown = sector(0xb4a5, 0x8 | 0x100, 0x40);
    assert_eq!(Sb::from(&unknown).unwrap_err(), SbError::UnknownIncompat(0x40));
    let mut logi = raw.clone();
    logi[223] = 1;
    assert_eq!(Sb::from(&logi).unwrap_err(), SbError::UnknownLogIncompat(1));
    let mut sect = raw.clone();
    sect[102] = 0;
    sect[103] = 200;
    assert_eq!(Sb::from(&sect).unwrap_err(), SbError::BadSectorSize(200));
}

#[test]
fn sb_feature_bits() {
    let f = SbFeatures2::from_bits(0x308).unwrap();
    assert!(f.attr2() && f.crc() && f.ftype());
    let f = SbFeatures2::from_bits(0xffff_fcf7).unwrap();
    assert!(!f.attr2() && !f.crc() && !f.ftype());
    let i = SbFeaturesIncompat::from_bits(0x3f).unwrap();
    assert!(i.ftype() && i.meta_uuid() && i.needs_repair() && i.large_extent_counters());
    let i = SbFeaturesIncompat::from_bits(0x2).unwrap();
    assert!(!i.ftype() && !i.meta_uuid() && !i.needs_repair() && !i.large_extent_counters());
    assert!(SbFeaturesIncompat::from_bits(0x80).is_none());
    assert!(SbFeaturesLogIncompat::from_bits(0).is_some());
    assert!(SbFeaturesLogIncompat::from_bits(2).is_none());
}

#[test]
fn inode_locations_and_statfs() {
    let sb = Sb::from(&sector(0xb4a5, 0x8 | 0x100 | 0x200, 0x1)).unwrap();
    // Allocation group 1, block 3 of it, inode 2 of that block.
    let ino: u64 = (1 << 11) | (3 << 3) | 2;
    assert_eq!(inode_offset(&sb, ino), Some(250 * 4096 + 3 * 4096 + 2 * 512));
    assert_eq!(inode_offset(&sb, 128), Some(16 * 4096));
    assert_eq!(inode_offset(&sb, 4 << 11), None);
    assert_eq!(
        statfs(&sb),
        StatFs {
            blocks: 900,
            bfree: 900,
            bavail: 900,
            files: 64,
            ffree: 3,
            bsize: 4096,
            namelen: 255,
            frsize: 4096,
        }
    );
}
