use xfs_fuse::dinode_core::{DinodeCore, XfsDinodeFmt, XfsTimestamp};

fn mk_core(di_forkoff: u8, di_version: i8, fmt: XfsDinodeFmt) -> DinodeCore {
    let ts = XfsTimestamp { t_sec: 0, t_nsec: 0 };
    DinodeCore {
        di_mode: 0o100644,
        di_version,
        di_format: fmt,
        di_uid: 0,
        di_gid: 0,
        di_nlink: 1,
        di_atime: ts,
        di_mtime: ts,
        di_ctime: ts,
        di_size: 0,
        di_nblocks: 0,
        di_nextents: 0,
        di_anextents: 0,
        di_forkoff,
        di_aformat: fmt,
        di_gen: 0,
        di_flags2: 0,
        di_crtime: ts,
        di_ino: 0,
    }
}

/// Test the afork_btree_ptr_gap function against data from real live file systems.
#[test]
fn afork_btree_ptr_gap() {
    for (inode_size, di_forkoff, di_version, bb_numrecs, gap) in
        [(512usize, 24u8, 3i8, 1u16, 56usize), (512, 24, 3, 5, 24), (256, 15, 2, 1, 8)]
    {
        let dic = mk_core(di_forkoff, di_version, XfsDinodeFmt::Btree);
        assert_eq!(dic.afork_btree_ptr_gap(inode_size, bb_numrecs), gap);
    }
}

/// Test the dfork_btree_ptr_gap function against data from real live file systems.
#[test]
fn dfork_btree_ptr_gap() {
    for (inode_size, di_forkoff, di_version, bb_numrecs, gap) in [
        (512usize, 0u8, 3i8, 1u16, 152usize),
        (512, 0, 3, 3, 136),
        (512, 24, 3, 1, 80),
        (512, 0, 3, 2, 144),
        (512, 24, 3, 9, 16),
        (512, 37, 3, 2, 128),
        (256, 0, 2, 2, 56),
        (256, 0, 2, 1, 64),
        (256, 15, 2, 1, 48),
        (2048, 0, 3, 1, 920),
        (2048, 0, 3, 3, 904),
        (1024, 0, 3, 7, 360),
    ] {
        let dic = mk_core(di_forkoff, di_version, XfsDinodeFmt::Btree);
        assert_eq!(dic.dfork_btree_ptr_gap(inode_size, bb_numrecs), gap);
    }
}

#[test]
fn literal_area_offset_by_version() {
    assert_eq!(mk_core(0, 2, XfsDinodeFmt::Extents).literal_area_offset(), 0x64);
    assert_eq!(mk_core(0, 3, XfsDinodeFmt::Extents).literal_area_offset(), 0xb0);
}

#[test]
fn timestamps() {
    let mut c = mk_core(0, 3, XfsDinodeFmt::Extents);
    let ts = XfsTimestamp { t_sec: 100, t_nsec: 2_500_000_000 };
    let t = c.timestamp(&ts);
    assert_eq!((t.sec, t.nsec), (102, 500_000_000));
    // Times before the epoch count back from it.
    let ts = XfsTimestamp { t_sec: -1613800129, t_nsec: 5 };
    let t = c.timestamp(&ts);
    assert_eq!((t.sec, t.nsec), (-1613800129, 5));
    c.di_mtime = ts;
    let st = c.stat(c.di_ino).unwrap();
    assert_eq!(st.mtime.sec, -1613800129);
    c.di_flags2 = 1 << 3;
    // Big time: (2^31 + 5) seconds after the classic epoch is 5 seconds after the Unix epoch.
    let n: u64 = (0x8000_0000u64 + 5) * 1_000_000_000 + 7;
    let ts = XfsTimestamp { t_sec: (n >> 32) as u32 as i32, t_nsec: (n & 0xffff_ffff) as u32 };
    let t = c.timestamp(&ts);
    assert_eq!((t.sec, t.nsec), (5, 7));
}

#[test]
fn dinode_core_decode() {
    let mut raw = vec![0u8; 176];
    raw[0..2].copy_from_slice(&0x494eu16.to_be_bytes());
    raw[2..4].copy_from_slice(&0o040755u16.to_be_bytes());
    raw[4] = 3;
    raw[5] = 1; // local
    raw[8..12].copy_from_slice(&1000u32.to_be_bytes());
    raw[16..20].copy_from_slice(&2u32.to_be_bytes());
    raw[32..36].copy_from_slice(&1234u32.to_be_bytes());
    raw[56..64].copy_from_slice(&6u64.to_be_bytes());
    raw[82] = 15;
    raw[83] = 2; // extents
    raw[92..96].copy_from_slice(&9u32.to_be_bytes());
    raw[152..160].copy_from_slice(&128u64.to_be_bytes());
    let (c, n) = DinodeCore::decode(&raw).unwrap();
    assert_eq!(n, 0xb0);
    assert_eq!(c.di_mode, 0o040755);
    assert_eq!(c.di_format, XfsDinodeFmt::Local);
    assert_eq!(c.di_aformat, XfsDinodeFmt::Extents);
    assert_eq!(c.di_uid, 1000);
    assert_eq!(c.di_nlink, 2);
    assert_eq!(c.di_atime.t_sec, 1234);
    assert_eq!(c.di_size, 6);
    assert_eq!(c.di_forkoff, 15);
    assert_eq!(c.di_gen, 9);
    assert_eq!(c.di_ino, 128);
    let st = c.stat(128).unwrap();
    assert_eq!(st.kind, xfs_fuse::utils::FileType::Directory);
    assert_eq!(st.perm, 0o755);
    assert_eq!(st.atime.sec, 1234);
    let mut bad = raw.clone();
    bad[4] = 1;
    assert!(DinodeCore::decode(&bad).is_err());
    let mut bad = raw.clone();
    bad[5] = 9;
    assert!(DinodeCore::decode(&bad).is_err());
    assert!(DinodeCore::decode(&raw[..150]).is_err());
    let mut v2 = raw[..100].to_vec();
    v2[4] = 2;
    let (c2, n2) = DinodeCore::decode(&v2).unwrap();
    assert_eq!(n2, 0x64);
    assert_eq!(c2.di_ino, 0);
}
