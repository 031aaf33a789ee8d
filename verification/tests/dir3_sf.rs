use xfs_fuse::definitions::ENOENT;
use xfs_fuse::dir2_sf::{Dir2SfEntry, Dir2SfHdr as Dir2SfHdrV4, XfsDir2Inou};
use xfs_fuse::dir3_sf::{Dir2Sf, Dir2SfEntry64, Dir2SfHdr};
use xfs_fuse::utils::FileType;

/// A short form directory with 4-byte inode numbers: parent 128, "foo" (a file) and "bar" (a
/// directory).
fn sf() -> Vec<u8> {
    let mut raw = vec![2u8, 0];
    raw.extend_from_slice(&128u32.to_be_bytes());
    for (name, off, ft, ino) in [(&b"foo"[..], 0x60u16, 1u8, 200u32), (&b"bar"[..], 0x70, 2, 201)] {
        raw.push(name.len() as u8);
        raw.extend_from_slice(&off.to_be_bytes());
        raw.extend_from_slice(name);
        raw.push(ft);
        raw.extend_from_slice(&ino.to_be_bytes());
    }
    raw
}

#[test]
fn sf_decode() {
    let d = Dir2Sf::decode(&sf()).unwrap();
    assert_eq!(d.hdr, Dir2SfHdr { count: 2, i8count: 0, parent: 128 });
    assert_eq!(d.list.len(), 4);
    assert_eq!(d.list[0].name, b".".to_vec());
    assert_eq!(d.list[1].inumber, 128);
    assert_eq!(d.list[3].inumber, 201);
    assert!(Dir2Sf::decode(&sf()[..20]).is_err());
    let (h, n) = Dir2SfHdr::decode(&sf()).unwrap();
    assert_eq!((h.parent, n), (128, 6));
}

#[test]
fn sf_lookup_and_dots() {
    let mut d = Dir2Sf::decode(&sf()).unwrap();
    d.set_ino(100);
    assert_eq!(d.lookup(b"."), Ok(100));
    assert_eq!(d.lookup(b".."), Ok(128));
    assert_eq!(d.lookup(b"foo"), Ok(200));
    assert_eq!(d.lookup(b"baz"), Err(ENOENT));
    let c = d.duplicate();
    assert_eq!(c.lookup(b"bar"), Ok(201));
}

#[test]
fn sf_next_advances() {
    let mut d = Dir2Sf::decode(&sf()).unwrap();
    d.set_ino(100);
    let (ino, off, kind, name) = d.next(0).unwrap();
    assert_eq!((ino, off, kind, name), (100, 1, Some(FileType::Directory), b".".to_vec()));
    let (ino, off, _, _) = d.next(1).unwrap();
    assert_eq!((ino, off), (128, 2));
    let (ino, off, kind, name) = d.next(2).unwrap();
    assert_eq!((ino, off, kind, name), (200, 0x60, Some(FileType::RegularFile), b"foo".to_vec()));
    let (ino, _, _, _) = d.next(0x60).unwrap();
    assert_eq!(ino, 201);
    assert_eq!(d.next(0x70), Err(-1));
}

#[test]
fn sf_wide_entries() {
    let mut raw = vec![1u8, 1];
    raw.extend_from_slice(&0x1_0000_0000u64.to_be_bytes());
    raw.push(1);
    raw.extend_from_slice(&0x50u16.to_be_bytes());
    raw.push(b'x');
    raw.push(1);
    raw.extend_from_slice(&0x2_0000_0000u64.to_be_bytes());
    let d = Dir2Sf::decode(&raw).unwrap();
    assert_eq!(d.hdr.parent, 0x1_0000_0000);
    assert_eq!(d.lookup(b"x"), Ok(0x2_0000_0000));
    let (e, n) = Dir2SfEntry64::decode(&raw, 10).unwrap();
    assert_eq!((e.inumber, n), (0x2_0000_0000, 13));
    let (h, n) = Dir2SfHdrV4::from(&raw).unwrap();
    assert_eq!((h.parent, n), (XfsDir2Inou::XfsDir2Ino8(0x1_0000_0000), 10));
    let (e, n) = Dir2SfEntry::from(&raw, 10, 1).unwrap();
    assert_eq!((e.inumber, n, e.name), (XfsDir2Inou::XfsDir2Ino8(0x2_0000_0000), 13, b"x".to_vec()));
}

#[test]
fn sf_every_entry_read_can_be_looked_up() {
    let mut d = Dir2Sf::decode(&sf()).unwrap();
    d.set_ino(100);
    let mut off = 0i64;
    let mut seen = 0;
    while let Ok((ino, next_off, _, name)) = d.next(off) {
        assert!(next_off > off);
        assert_eq!(d.lookup(&name), Ok(ino));
        off = next_off;
        seen += 1;
    }
    assert_eq!(seen, 4);
}
