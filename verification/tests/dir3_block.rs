use xfs_fuse::da_btree::hashname;
use xfs_fuse::definitions::ENOENT;
use xfs_fuse::dir3::{XFS_DIR3_FT_DIR, XFS_DIR3_FT_REG_FILE};
use xfs_fuse::dir3_block::{Dir2Block, Dir2BlockDisk};
use xfs_fuse::utils::FileType;

fn entry(ino: u64, name: &[u8], ftype: u8, tag: u16) -> Vec<u8> {
    let len = (name.len() + 19) / 8 * 8;
    let mut e = vec![0u8; len];
    e[0..8].copy_from_slice(&ino.to_be_bytes());
    e[8] = name.len() as u8;
    e[9..9 + name.len()].copy_from_slice(name);
    e[9 + name.len()] = ftype;
    e[len - 2..].copy_from_slice(&tag.to_be_bytes());
    e
}

/// A 128-byte block directory holding ".", ".." and "hello", a free region, its leaf and tail.
fn block() -> Vec<u8> {
    let mut raw = vec![0u8; 16];
    raw[0..4].copy_from_slice(&0x58443242u32.to_be_bytes());
    raw.extend(entry(128, b".", XFS_DIR3_FT_DIR, 16));
    raw.extend(entry(64, b"..", XFS_DIR3_FT_DIR, 32));
    raw.extend(entry(131, b"hello", XFS_DIR3_FT_REG_FILE, 48));
    let mut free = vec![0u8; 24];
    free[0..2].copy_from_slice(&0xffffu16.to_be_bytes());
    free[2..4].copy_from_slice(&24u16.to_be_bytes());
    free[22..24].copy_from_slice(&72u16.to_be_bytes());
    raw.extend(free);
    let mut leaf = vec![(hashname(b"."), 2u32), (hashname(b".."), 4), (hashname(b"hello"), 6)];
    leaf.sort();
    for (h, a) in leaf {
        raw.extend_from_slice(&h.to_be_bytes());
        raw.extend_from_slice(&a.to_be_bytes());
    }
    raw.extend_from_slice(&3u32.to_be_bytes());
    raw.extend_from_slice(&0u32.to_be_bytes());
    assert_eq!(raw.len(), 128);
    raw
}

#[test]
fn block_disk_parses() {
    let d = Dir2BlockDisk::new(block()).unwrap();
    assert_eq!(d.data_offset, 16);
    assert_eq!(d.tail.count, 3);
    assert_eq!(d.leaf.len(), 3);
    assert_eq!(d.get_data_len(128), 96);
    let mut bad = block();
    bad[0] = 0;
    assert!(Dir2BlockDisk::new(bad).is_err());
    let mut too_many = block();
    too_many[120..124].copy_from_slice(&100u32.to_be_bytes());
    assert!(Dir2BlockDisk::new(too_many).is_err());
}

#[test]
fn block_lookup() {
    let b = Dir2Block::new(block()).unwrap();
    assert_eq!(b.raw.len(), 96);
    assert_eq!(b.lookup(b"hello", hashname(b"hello"), true), Ok(131));
    assert_eq!(b.lookup(b"..", hashname(b".."), true), Ok(64));
    assert_eq!(b.lookup(b"nope", hashname(b"nope"), true), Err(ENOENT));
    assert_eq!(b.get_addresses(hashname(b"hello")), vec![48]);
}

#[test]
fn block_next() {
    let b = Dir2Block::new(block()).unwrap();
    let (ino, off, kind, name) = b.next(0, true).unwrap();
    assert_eq!((ino, off, kind, name), (128, 16, Some(FileType::Directory), b".".to_vec()));
    let (ino, off, _, name) = b.next(16, true).unwrap();
    assert_eq!((ino, off, name), (64, 32, b"..".to_vec()));
    let (ino, off, kind, _) = b.next(32, true).unwrap();
    assert_eq!((ino, off, kind), (131, 48, Some(FileType::RegularFile)));
    assert_eq!(b.next(48, true), Err(ENOENT));
}
