use xfs_fuse::definitions::{EIO, ENOENT};
use xfs_fuse::dir3::{
    address_to_dblock, bytes_eq, data_start, dir3_next_in_block, dir_block_position, hash_range,
    lookup_entry, scan_block, Dir2DataEntry, Dir2LeafEntry, Dir2LeafNDisk, DirNext, Leaf,
    XFS_DIR3_FT_DIR, XFS_DIR3_FT_REG_FILE,
};
use xfs_fuse::utils::{FileType, Uuid};

/// An entry of a file system that records file types: inode, name length, name, file type,
/// padding, tag.
fn entry(ino: u64, name: &[u8], ftype: u8, tag: u16) -> Vec<u8> {
    let len = (name.len() + 19) / 8 * 8;
    let mut e = vec![0u8; len];
    e[0..8].copy_from_slice(&ino.to_be_bytes());
    e[8] = name.len() as u8;
    e[9..9 + name.len()].copy_from_slice(name);
    e[9 + name.len()] = ftype;
    e[len - 2..].copy_from_slice(&tag.to_be_bytes());
    e
}

fn unused(ofs: u16, len: u16) -> Vec<u8> {
    let mut u = vec![0u8; len as usize];
    u[0..2].copy_from_slice(&0xffffu16.to_be_bytes());
    u[2..4].copy_from_slice(&len.to_be_bytes());
    u[len as usize - 2..].copy_from_slice(&ofs.to_be_bytes());
    u
}

/// A 128-byte version 4 data block: ".", "..", "hello", then free space.
fn data_block() -> Vec<u8> {
    let mut raw = vec![0u8; 16];
    raw[0..4].copy_from_slice(&0x58443244u32.to_be_bytes());
    raw.extend(entry(128, b".", XFS_DIR3_FT_DIR, 16));
    raw.extend(entry(64, b"..", XFS_DIR3_FT_DIR, 32));
    raw.extend(entry(131, b"hello", XFS_DIR3_FT_REG_FILE, 48));
    raw.extend(unused(72, 56));
    assert_eq!(raw.len(), 128);
    raw
}

#[test]
fn data_entry_decode() {
    let raw = data_block();
    let (e, n) = Dir2DataEntry::decode(&raw, 48, true).unwrap();
    assert_eq!(e.inumber, 131);
    assert_eq!(e.name, b"hello".to_vec());
    assert_eq!(e.ftype, Some(XFS_DIR3_FT_REG_FILE));
    assert_eq!(e.tag, 48);
    assert_eq!(n, 24);
    assert_eq!(Dir2DataEntry::get_length(true, &raw[48..]), 24);
    assert_eq!(Dir2DataEntry::get_length(false, &raw[48..]), 16);
    assert!(Dir2DataEntry::decode(&raw[..60], 48, true).is_err());
}

#[test]
fn scan_finds_entries_in_order() {
    let raw = data_block();
    match scan_block(&raw, 128, 16, 16, 0, true, true) {
        Ok(DirNext::Entry(ino, off, kind, name)) => {
            assert_eq!((ino, off, kind, name), (128, 16, Some(FileType::Directory), b".".to_vec()));
        }
        other => panic!("unexpected {:?}", other),
    }
    match scan_block(&raw, 128, 16, 16, 0, false, true) {
        Ok(DirNext::Entry(ino, off, _, name)) => assert_eq!((ino, off, name), (64, 32, b"..".to_vec())),
        other => panic!("unexpected {:?}", other),
    }
    match scan_block(&raw, 128, 48, 48, 0, false, true) {
        Ok(DirNext::EndOfBlock(off, next)) => assert_eq!((off, next), (128, true)),
        other => panic!("unexpected {:?}", other),
    }
    // The buffer ends before the block does.
    assert!(matches!(scan_block(&raw, 256, 48, 48, 0, false, true), Err(ENOENT)));
}

#[test]
fn scan_rejects_bad_blocks() {
    let mut raw = data_block();
    // An unused region too short to be one.
    raw[74..76].copy_from_slice(&2u16.to_be_bytes());
    assert!(matches!(scan_block(&raw, 128, 48, 48, 0, false, true), Err(EIO)));
    // An entry of an unknown file type.
    let mut raw = data_block();
    raw[48 + 9 + 5] = 9;
    assert!(matches!(scan_block(&raw, 128, 48, 48, 0, true, true), Err(ENOENT)));
}

#[test]
fn next_in_block_by_offset() {
    let raw = data_block();
    // Offset 0: the first entry, after the header.
    match dir3_next_in_block(&raw, 7, 0, 0, true, true) {
        Ok(DirNext::Entry(ino, off, _, _)) => assert_eq!((ino, off), (128, 16)),
        other => panic!("unexpected {:?}", other),
    }
    // The entry after "..", whose offset is 32.
    match dir3_next_in_block(&raw, 7, 0, 32, false, true) {
        Ok(DirNext::Entry(ino, off, kind, name)) => {
            assert_eq!((ino, off, kind, name), (131, 48, Some(FileType::RegularFile), b"hello".to_vec()))
        }
        other => panic!("unexpected {:?}", other),
    }
    let mut bad = raw.clone();
    bad[0] = 0;
    assert!(matches!(dir3_next_in_block(&bad, 7, 0, 0, true, true), Err(EIO)));
}

#[test]
fn positions_and_addresses() {
    assert_eq!(data_start(&data_block(), 0), Ok(16));
    assert_eq!(data_start(&data_block(), 40), Ok(40));
    assert_eq!(dir_block_position(12, 0, 0x1234), (1, 0x1000, 0x234));
    assert_eq!(dir_block_position(12, 2, 0x5234), (4, 0x4000, 0x1234));
    assert_eq!(address_to_dblock(12, 0, 0x1230), (1, 0x230));
    let raw = data_block();
    assert_eq!(lookup_entry(&raw, 48, true, b"hello"), Ok(Some(131)));
    assert_eq!(lookup_entry(&raw, 48, true, b"world"), Ok(None));
    assert!(bytes_eq(b"abc", b"abc"));
    assert!(!bytes_eq(b"abc", b"abd"));
}

fn le(hashval: u32, address: u32) -> Dir2LeafEntry {
    Dir2LeafEntry { hashval, address }
}

#[test]
fn hash_range_finds_exactly_the_hash() {
    let ents = [le(1, 10), le(5, 11), le(5, 12), le(9, 13)];
    assert_eq!(hash_range(&ents, 5), 1..3);
    assert_eq!(hash_range(&ents, 4), 1..1);
    assert_eq!(hash_range(&ents, 10), 4..4);
}

/// A version 4 "leafn" block with the given forward pointer and entries.
fn leafn(forw: u32, ents: &[(u32, u32)]) -> Vec<u8> {
    let mut raw = vec![0u8; 16];
    raw[0..4].copy_from_slice(&forw.to_be_bytes());
    raw[8..10].copy_from_slice(&0xd2ffu16.to_be_bytes());
    raw[12..14].copy_from_slice(&(ents.len() as u16).to_be_bytes());
    for (h, a) in ents {
        raw.extend_from_slice(&h.to_be_bytes());
        raw.extend_from_slice(&a.to_be_bytes());
    }
    raw
}

#[test]
fn leaf_blocks() {
    let raw = leafn(7, &[(3, 2), (8, 6), (8, 9)]);
    let l = Dir2LeafNDisk::decode(&raw, Uuid(0), false).unwrap();
    assert_eq!(l.forw, 7);
    assert_eq!(l.get_address_range(8), 1..3);
    match Leaf::open(&raw, Uuid(0)) {
        Ok(Leaf::LeafN(l)) => assert_eq!(l.ents.len(), 3),
        other => panic!("unexpected {:?}", other),
    }
    let unsorted = leafn(0, &[(8, 2), (3, 6)]);
    // Entries out of order are read as they stand; the hash search over them is unspecified.
    let l = Dir2LeafNDisk::decode(&unsorted, Uuid(0), false).unwrap();
    assert_eq!(l.ents.len(), 2);
    let r = l.get_address_range(8);
    assert!(r.start <= r.end && r.end <= 2);
    let mut bad = raw.clone();
    bad[8] = 0;
    assert!(Leaf::open(&bad, Uuid(0)).is_err());
}
