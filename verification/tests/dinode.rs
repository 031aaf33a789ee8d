use xfs_fuse::utils::FileType;
use xfs_fuse::attr::Attributes;
use xfs_fuse::bmbt_rec::BmbtRec;
use xfs_fuse::dinode::{AttrOpen, DiA, DiU, DirOpen, Dinode, LinkData, ReadSectors};
use xfs_fuse::dir3::Directory;
use xfs_fuse::file::FileMetadata;

fn inode(mode: u16, format: u8, size: i64, nextents: u32) -> Vec<u8> {
    let mut raw = vec![0u8; 512];
    raw[0..2].copy_from_slice(&0x494eu16.to_be_bytes());
    raw[2..4].copy_from_slice(&mode.to_be_bytes());
    raw[4] = 3;
    raw[5] = format;
    raw[56..64].copy_from_slice(&size.to_be_bytes());
    raw[76..80].copy_from_slice(&nextents.to_be_bytes());
    raw[83] = 2;
    raw
}

fn rec(off: u64, blk: u64, cnt: u64) -> [u8; 16] {
    (((off as u128) << 73) | ((blk as u128) << 21) | cnt as u128).to_be_bytes()
}

#[test]
fn regular_file_extents() {
    let mut raw = inode(0o100644, 2, 10000, 2);
    raw[176..192].copy_from_slice(&rec(0, 100, 2));
    raw[192..208].copy_from_slice(&rec(4, 200, 1));
    let d = Dinode::from(&raw, 131).unwrap();
    match &d.di_u {
        DiU::Bmx(v) => {
            assert_eq!(v.len(), 2);
            assert_eq!(v[1], BmbtRec { br_startoff: 4, br_startblock: 200, br_blockcount: 1, br_flag: false });
        }
        other => panic!("unexpected {:?}", other),
    }
    assert!(d.di_a.is_none());
    match d.get_file().unwrap() {
        FileMetadata::Bmx(f) => {
            assert_eq!(f.size(), 10000);
            assert_eq!(f.get_extent(0, 4096), (Some(100), 2));
            assert_eq!(f.get_extent(2, 4096), (None, 2));
            // A hole that reaches the end of the extents runs to the end of the file.
            assert_eq!(f.get_extent(5, 1024), (None, 5));
            assert_eq!(f.lseek(0, xfs_fuse::definitions::SEEK_HOLE, 12), Ok(2 * 4096));
        }
        other => panic!("unexpected {:?}", other),
    }
    // Opening the fork as a directory goes by the fork alone.
    assert!(matches!(d.get_dir(), Ok(DirOpen::Dir(Directory::Lf(_)))));
    assert!(d.get_link_data().is_ok());
    assert!(Dinode::from(&raw[..200], 131).is_err());
}

#[test]
fn short_form_directory_inode() {
    let mut raw = inode(0o040755, 1, 0, 0);
    let sf = [1u8, 0, 0, 0, 0, 128, 1, 0, 0x60, b'x', 1, 0, 0, 0, 200];
    raw[176..176 + sf.len()].copy_from_slice(&sf);
    let d = Dinode::from(&raw, 131).unwrap();
    match d.get_dir().unwrap() {
        DirOpen::Dir(Directory::Sf(dir)) => {
            assert_eq!(dir.lookup(b"."), Ok(131));
            assert_eq!(dir.lookup(b".."), Ok(128));
            assert_eq!(dir.lookup(b"x"), Ok(200));
        }
        other => panic!("unexpected {:?}", other),
    }
}

#[test]
fn directory_blocks() {
    let mut raw = inode(0o040755, 2, 4096, 1);
    raw[176..192].copy_from_slice(&rec(0, 77, 1));
    let d = Dinode::from(&raw, 131).unwrap();
    assert!(matches!(d.get_dir(), Ok(DirOpen::ReadBlock(77))));
    let mut raw = inode(0o040755, 2, 8192, 2);
    raw[176..192].copy_from_slice(&rec(0, 77, 1));
    raw[192..208].copy_from_slice(&rec(1 << 23, 90, 1));
    let d = Dinode::from(&raw, 131).unwrap();
    assert!(matches!(d.get_dir(), Ok(DirOpen::Dir(Directory::Lf(_)))));
    // Extents out of order are taken as they stand.
    let mut raw = inode(0o040755, 2, 8192, 2);
    raw[176..192].copy_from_slice(&rec(5, 77, 1));
    raw[192..208].copy_from_slice(&rec(1, 90, 1));
    let d = Dinode::from(&raw, 131).unwrap();
    assert!(matches!(d.get_dir(), Ok(DirOpen::Dir(Directory::Lf(_)))));
}

#[test]
fn btree_root_in_inode() {
    // A B+tree root with two keys; the data fork spans the whole literal area.
    let mut raw = inode(0o100644, 3, 1 << 30, 0);
    raw[176..178].copy_from_slice(&1u16.to_be_bytes());
    raw[178..180].copy_from_slice(&2u16.to_be_bytes());
    raw[180..188].copy_from_slice(&0u64.to_be_bytes());
    raw[188..196].copy_from_slice(&1000u64.to_be_bytes());
    // (512 - 176) / 2 = 168 bytes for header and keys: the gap is 168 - 4 - 16 = 148, rounded
    // down to 144.
    let ptrs = 176 + 4 + 16 + 144;
    raw[ptrs..ptrs + 8].copy_from_slice(&55u64.to_be_bytes());
    raw[ptrs + 8..ptrs + 16].copy_from_slice(&66u64.to_be_bytes());
    let d = Dinode::from(&raw, 131).unwrap();
    match &d.di_u {
        DiU::Bmbt((bmdr, keys, ptrs)) => {
            assert_eq!((bmdr.bb_level, bmdr.bb_numrecs), (1, 2));
            assert_eq!(keys[1].br_startoff, 1000);
            assert_eq!(ptrs.clone(), vec![55, 66]);
        }
        other => panic!("unexpected {:?}", other),
    }
    match d.get_file().unwrap() {
        FileMetadata::Btree(f) => {
            assert_eq!(f.btree.child(999), (0, 55));
            assert_eq!(f.btree.child(1000), (1, 66));
            assert_eq!(f.get_extent(0, (None, None), 4096), (None, 1 << 18));
            // A hole to the end of the file runs from the block asked for.
            assert_eq!(f.get_extent(2, (None, None), 4096), (None, (1 << 18) - 2));
            assert_eq!(f.get_extent(2, (Some(9), Some(5)), 4096), (Some(9), 5));
        }
        other => panic!("unexpected {:?}", other),
    }
}

#[test]
fn symlinks() {
    let mut raw = inode(0o120777, 1, 4, 0);
    raw[176..180].copy_from_slice(b"/tmp");
    let d = Dinode::from(&raw, 131).unwrap();
    match d.get_link_data().unwrap() {
        LinkData::Local(v) => assert_eq!(v, b"/tmp".to_vec()),
        other => panic!("unexpected {:?}", other),
    }
    raw[177] = 0;
    let d = Dinode::from(&raw, 131).unwrap();
    assert!(d.get_link_data().is_err());
    let mut raw = inode(0o120777, 1, 600, 0);
    raw[176] = b'x';
    assert!(Dinode::from(&raw, 131).is_err());
}

#[test]
fn attribute_fork_in_inode() {
    let mut raw = inode(0o100644, 2, 0, 0);
    raw[82] = 30; // the attribute fork starts 240 bytes into the literal area
    raw[83] = 1; // local
    let ofs = 176 + 240;
    let sf = [0u8, 0, 1, 0, 3, 1, 0, b'a', b'b', b'c', b'v'];
    raw[ofs..ofs + sf.len()].copy_from_slice(&sf);
    let d = Dinode::from(&raw, 131).unwrap();
    assert!(matches!(d.di_a, Some(DiA::Attrsf(_))));
    match d.get_attrs().unwrap() {
        Some(AttrOpen::Ready(Attributes::Sf(a))) => {
            assert_eq!(a.get(b"abc"), Ok(b"v".to_vec()));
            assert_eq!(a.list(), b"user.abc\0".to_vec());
        }
        other => panic!("unexpected {:?}", other),
    }
    raw[83] = 2; // extents, but none recorded
    let d = Dinode::from(&raw, 131).unwrap();
    assert!(matches!(d.get_attrs(), Ok(None)));
}

#[test]
fn read_windows() {
    let raw = inode(0o100644, 2, 10000, 0);
    let d = Dinode::from(&raw, 131).unwrap();
    let w = d.read_window(5000, 100, 12, 4096);
    assert_eq!((w.offset, w.size, w.len, w.skip), (4096, 4096, 1004, 904));
    // Cut at the end of the file.
    let w = d.read_window(8000, 4096, 12, 4096);
    assert_eq!((w.offset, w.size, w.len, w.skip), (4096, 8192, 5904, 3904));
    // A read past the end of the file reads nothing and keeps nothing.
    let w = d.read_window(10001, 1, 12, 4096);
    assert_eq!((w.size, w.len - w.skip), (0, 0));
    let w = d.read_window(10000, 100, 12, 4096);
    assert_eq!(w.len - w.skip, 0);
    let mut rs = ReadSectors::new(4096, 3 * 4096, 12);
    assert_eq!(rs.logical_block, 1);
    assert_eq!(rs.step((Some(50), 2), 12), (Some(50), 8192));
    assert_eq!(rs.step((None, 5), 12), (None, 4096));
    assert_eq!((rs.logical_block, rs.remaining), (8, 0));
}

#[test]
fn devices_stat_with_their_kind() {
    for (mode, kind) in [
        (0o060644u16, FileType::BlockDevice),
        (0o020644, FileType::CharDevice),
        (0o010644, FileType::NamedPipe),
        (0o140644, FileType::Socket),
    ] {
        let mut raw = inode(mode, 0, 0, 0);
        raw[152..160].copy_from_slice(&131u64.to_be_bytes());
        let d = Dinode::from(&raw, 131).unwrap();
        let st = d.di_core.stat(131).unwrap();
        assert_eq!(st.kind, kind);
        assert_eq!(st.perm, 0o644);
    }
}
