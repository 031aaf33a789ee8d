use xfs_fuse::btree::{
    btree_root_lseek_start, file_btree_lseek_start, lseek_scan, BmbtKey, BmdrBlock, BtreeBlockHdr,
    BtreeChild, BtreeLeaf, BtreeNode, LseekStep,
};
use xfs_fuse::definitions::{ENXIO, SEEK_DATA, SEEK_HOLE};
use xfs_fuse::utils::{ParseError, Uuid};

const UUID: u128 = 0xfeed_0000_0000_0000_0000_0000_0000_beef;

fn rec(off: u64, blk: u64, cnt: u64) -> [u8; 16] {
    (((off as u128) << 73) | ((blk as u128) << 21) | cnt as u128).to_be_bytes()
}

/// A version 5 B+tree block of 512 bytes with the given level and record count.
fn block(level: u16, numrecs: u16) -> Vec<u8> {
    let mut raw = vec![0u8; 512];
    raw[0..4].copy_from_slice(&0x424d4133u32.to_be_bytes());
    raw[4..6].copy_from_slice(&level.to_be_bytes());
    raw[6..8].copy_from_slice(&numrecs.to_be_bytes());
    raw[40..56].copy_from_slice(&UUID.to_be_bytes());
    raw
}

#[test]
fn block_headers() {
    let raw = block(0, 3);
    let (h, n) = BtreeBlockHdr::decode(&raw, Uuid(UUID)).unwrap();
    assert_eq!((h.bb_level, h.bb_numrecs, n), (0, 3, 72));
    assert_eq!(BtreeBlockHdr::decode(&raw, Uuid(5)), Err(ParseError::UuidMismatch));
    let mut v4 = vec![0u8; 24];
    v4[0..4].copy_from_slice(&0x424d4150u32.to_be_bytes());
    assert_eq!(BtreeBlockHdr::decode(&v4, Uuid(5)).unwrap().1, 24);
    v4[0] = 0;
    assert_eq!(BtreeBlockHdr::decode(&v4, Uuid(5)), Err(ParseError::BadMagic));
    assert_eq!(BmdrBlock::decode(&[0, 1, 0, 2], 0), Ok(BmdrBlock { bb_level: 1, bb_numrecs: 2 }));
    assert_eq!(BmbtKey::decode(&7u64.to_be_bytes(), 0), Ok(BmbtKey { br_startoff: 7 }));
}

#[test]
fn btree_leaf_blocks() {
    let mut raw = block(0, 2);
    raw[72..88].copy_from_slice(&rec(0, 100, 4));
    raw[88..104].copy_from_slice(&rec(10, 200, 2));
    let leaf = BtreeLeaf::decode(&raw, Uuid(UUID)).unwrap();
    assert_eq!(leaf.get_extent(1), (Some(101), Some(3)));
    assert_eq!(leaf.get_extent(5), (None, Some(5)));
    assert_eq!(leaf.get_extent(12), (None, None));
    let mut unsorted = raw.clone();
    unsorted[72..88].copy_from_slice(&rec(20, 100, 4));
    // Records out of order are read as they stand, as the original's binary search reads them.
    let leaf2 = BtreeLeaf::decode(&unsorted, Uuid(UUID)).unwrap();
    assert_eq!(leaf2.bmx.len(), 2);
    assert!(BtreeLeaf::decode(&block(1, 0), Uuid(UUID)).is_err());
}

#[test]
fn intermediate_blocks() {
    let mut raw = block(1, 2);
    raw[72..80].copy_from_slice(&0u64.to_be_bytes());
    raw[80..88].copy_from_slice(&500u64.to_be_bytes());
    // The pointers start halfway through the block, after a gap of 0x20 bytes.
    raw[288..296].copy_from_slice(&11u64.to_be_bytes());
    raw[296..304].copy_from_slice(&22u64.to_be_bytes());
    let n = BtreeNode::decode_intermediate(&raw, Uuid(UUID)).unwrap();
    assert_eq!(n.level, 1);
    assert_eq!(n.child(0), (0, 11));
    assert_eq!(n.child(499), (0, 11));
    assert_eq!(n.child(500), (1, 22));
    let root = BtreeNode::new(BmdrBlock { bb_level: 2, bb_numrecs: 1 }, vec![BmbtKey { br_startoff: 0 }], vec![9]);
    assert!(matches!(root.decode_child(&raw, Uuid(UUID)), Ok(BtreeChild::Intermediate(_))));
    let low = BtreeNode::new(BmdrBlock { bb_level: 1, bb_numrecs: 1 }, vec![BmbtKey { br_startoff: 0 }], vec![9]);
    assert!(low.decode_child(&raw, Uuid(UUID)).is_err());
    assert!(BtreeNode::decode_intermediate(&block(0, 0), Uuid(UUID)).is_err());
}

#[test]
fn lseek_steps() {
    // A hole followed by 3 blocks of data.
    assert_eq!(btree_root_lseek_start((None, Some(3)), 100, SEEK_HOLE, 12), LseekStep::Offset(100));
    // In a hole, SEEK_DATA answers where the data starts.
    assert_eq!(btree_root_lseek_start((None, Some(3)), 100, SEEK_DATA, 12), LseekStep::Offset(3 * 4096));
    assert_eq!(btree_root_lseek_start((None, Some(1)), 4097, SEEK_DATA, 12), LseekStep::Offset(8192));
    assert_eq!(file_btree_lseek_start((None, Some(1)), 4097, SEEK_DATA, 12), LseekStep::Offset(8192));
    // In data: SEEK_HOLE scans on from the end of the extent.
    assert_eq!(btree_root_lseek_start((Some(7), Some(2)), 4096, SEEK_HOLE, 12), LseekStep::Scan(3));
    assert_eq!(btree_root_lseek_start((None, None), 4096, SEEK_DATA, 12), LseekStep::Error(ENXIO));
    // Regular files treat every `whence` but SEEK_DATA as SEEK_HOLE.
    assert_eq!(file_btree_lseek_start((Some(7), Some(2)), 4096, 99, 12), LseekStep::Scan(3));
    assert_eq!(btree_root_lseek_start((Some(7), Some(2)), 4096, 99, 12), LseekStep::Offset(4096));
    assert_eq!(lseek_scan((Some(8), Some(4)), 3, 12), LseekStep::Scan(7));
    assert_eq!(lseek_scan((None, Some(4)), 7, 12), LseekStep::Offset(7 * 4096));
}
