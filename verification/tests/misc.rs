use xfs_fuse::agi::Agi;
use xfs_fuse::block_reader::{seek_current_plan, seek_start_plan, BlockBuf, SeekCurrent};
use xfs_fuse::bmbt_rec::{BmbtRec, Bmx};
use xfs_fuse::da_btree::hashname;
use xfs_fuse::definitions::{ENOENT, ENXIO, EIO};
use xfs_fuse::dir3::{AddressStep, Dir2LeafNDisk, NodeLikeAddressIterator, DirNext};
use xfs_fuse::dir3_leaf::Dir2Leaf;
use xfs_fuse::dir3_lf::{extent_fsblock, lf_next_in_block, lf_seek_check, Dir2Lf, Dfork};
use xfs_fuse::dir3_node::Dir2Node;
use xfs_fuse::file_extent_list::div_ceil;
use xfs_fuse::symlink_extent::{symlink_step, DsymlinkHdr, SymlinkExtents};
use xfs_fuse::utils::{ParseError, Uuid};

const UUID: u128 = 0x11;

#[test]
fn agi_header() {
    let mut raw = vec![0u8; 296];
    raw[0..4].copy_from_slice(&0x58414749u32.to_be_bytes());
    raw[4..8].copy_from_slice(&1u32.to_be_bytes());
    raw[36..40].copy_from_slice(&77u32.to_be_bytes());
    raw[40..44].copy_from_slice(&0xffff_ffffu32.to_be_bytes());
    let agi = Agi::from(&raw).unwrap();
    assert_eq!(agi.agi_versionnum, 1);
    assert_eq!(agi.agi_dirino, 77);
    assert_eq!(agi.agi_unlinked[0], 0xffff_ffff);
    assert_eq!(agi.agi_unlinked[63], 0);
    assert!(Agi::from(&raw[..100]).is_err());
    raw[0] = 0;
    assert!(matches!(Agi::from(&raw), Err(ParseError::BadMagic)));
}

#[test]
fn symlink_blocks() {
    let mut raw = vec![0u8; 70];
    raw[0..4].copy_from_slice(&0x58534c4du32.to_be_bytes());
    raw[8..12].copy_from_slice(&5u32.to_be_bytes());
    let h = DsymlinkHdr::decode(&raw).unwrap();
    assert_eq!(h.sl_bytes, 5);
    assert_eq!(SymlinkExtents::chunk(5, &raw, 1, 12), Ok((56, 5)));
    assert_eq!(SymlinkExtents::chunk(4, &raw, 2, 12), Ok((0, 8192)));
    assert!(SymlinkExtents::chunk(3, &raw, 2, 12).is_err());
    raw[0] = 0;
    assert!(DsymlinkHdr::decode(&raw).is_err());
    assert_eq!(SymlinkExtents::get_target(b"abc\0\0\0".to_vec()), b"abc".to_vec());
    assert_eq!(SymlinkExtents::get_target(b"abc".to_vec()), b"abc".to_vec());
}

#[test]
fn rounding_up() {
    assert_eq!(div_ceil(10, 4), 3);
    assert_eq!(div_ceil(8, 4), 2);
    assert_eq!(div_ceil(0, 4), 0);
}

fn rec(br_startoff: u64, br_startblock: u64, br_blockcount: u64) -> BmbtRec {
    BmbtRec { br_startoff, br_startblock, br_blockcount, br_flag: false }
}

/// A version 5 single-leaf block with the given entries.
fn leaf1(ents: &[(u32, u32)]) -> Vec<u8> {
    let mut raw = vec![0u8; 64];
    raw[8..10].copy_from_slice(&0x3df1u16.to_be_bytes());
    raw[32..48].copy_from_slice(&UUID.to_be_bytes());
    raw[56..58].copy_from_slice(&(ents.len() as u16).to_be_bytes());
    for (h, a) in ents {
        raw.extend_from_slice(&h.to_be_bytes());
        raw.extend_from_slice(&a.to_be_bytes());
    }
    raw
}

#[test]
fn leaf_directory() {
    let bmx = [rec(0, 100, 2), rec(1 << 23, 300, 1)];
    assert_eq!(Dir2Leaf::leaf_window(&bmx, 4096), (300, 4096));
    let d = Dir2Leaf::from(&bmx, &leaf1(&[(5, 2), (9, 6), (9, 10)]), Uuid(UUID)).unwrap();
    assert_eq!(d.map_dblock(1), Ok(101));
    assert_eq!(d.map_dblock(2), Err(ENOENT));
    assert_eq!(d.get_addresses(9), vec![48, 80]);
    // Leaf entries out of order are read as they stand.
    assert!(Dir2Leaf::from(&bmx, &leaf1(&[(9, 2), (5, 6)]), Uuid(UUID)).is_ok());
    assert!(Dir2Leaf::from(&bmx, &leaf1(&[]), Uuid(3)).is_err());
}

#[test]
fn node_and_long_form_directories() {
    let n = Dir2Node::from(Bmx::new(&[rec(0, 100, 2), rec(4, 500, 1)]));
    assert_eq!(n.map_dblock(4), Ok(500));
    assert_eq!(n.map_dblock(3), Err(ENOENT));
    let lf = Dir2Lf::from_bmx(Bmx::new(&[rec(0, 100, 2)]));
    assert!(matches!(lf.dfork, Dfork::Bmx(_)));
    assert_eq!(extent_fsblock((Some(5), Some(1))), Ok(5));
    assert_eq!(extent_fsblock((None, Some(1))), Err(ENOENT));
    assert_eq!(lf_seek_check(Err(ENXIO), 1 << 23, 12), Err(ENOENT));
    assert_eq!(lf_seek_check(Err(EIO), 1 << 23, 12), Err(EIO));
    assert_eq!(lf_seek_check(Ok(4096), 1 << 23, 12), Ok(4096));
    assert_eq!(lf_seek_check(Ok(1 << 35), 1 << 23, 12), Err(ENOENT));
}

#[test]
fn long_form_block_scan() {
    // A 64-byte version 5 data block holding one entry, then free space.
    let mut raw = vec![0u8; 96];
    raw[0..4].copy_from_slice(&0x58444433u32.to_be_bytes());
    raw[64..72].copy_from_slice(&200u64.to_be_bytes());
    raw[72] = 1;
    raw[73] = b'z';
    raw[74] = 1;
    raw[78..80].copy_from_slice(&64u16.to_be_bytes());
    raw[80..82].copy_from_slice(&0xffffu16.to_be_bytes());
    raw[82..84].copy_from_slice(&16u16.to_be_bytes());
    match lf_next_in_block(&raw, 12, 0, 4096, true, true) {
        Ok(DirNext::Entry(ino, off, _, name)) => assert_eq!((ino, off, name), (200, 4096 + 64, b"z".to_vec())),
        other => panic!("unexpected {:?}", other),
    }
    match lf_next_in_block(&raw, 12, 0, 4096 + 64, false, true) {
        Ok(DirNext::EndOfBlock(off, next)) => assert_eq!((off, next), (4096 + 96, true)),
        other => panic!("unexpected {:?}", other),
    }
}

#[test]
fn address_iterator_follows_collisions() {
    let mut raw = vec![0u8; 16];
    raw[0..4].copy_from_slice(&9u32.to_be_bytes());
    raw[8..10].copy_from_slice(&0xd2ffu16.to_be_bytes());
    raw[12..14].copy_from_slice(&2u16.to_be_bytes());
    for (h, a) in [(1u32, 2u32), (hashname(b"x"), 6)] {
        raw.extend_from_slice(&h.to_be_bytes());
        raw.extend_from_slice(&a.to_be_bytes());
    }
    let leaf = Dir2LeafNDisk::decode(&raw, Uuid(0), false).unwrap();
    let mut it = NodeLikeAddressIterator::new(leaf, hashname(b"x"));
    assert_eq!(it.next(), AddressStep::Address(48));
    // The last entry has the hash: the next leaf block may hold more.
    assert_eq!(it.next(), AddressStep::Forward(9));
    let mut raw2 = raw.clone();
    raw2[0..4].copy_from_slice(&0u32.to_be_bytes());
    raw2[20..24].copy_from_slice(&0u32.to_be_bytes());
    raw2[16..20].copy_from_slice(&hashname(b"x").to_be_bytes());
    raw2[24..28].copy_from_slice(&(hashname(b"x") + 1).to_be_bytes());
    it.follow(Dir2LeafNDisk::decode(&raw2, Uuid(0), false).unwrap());
    assert_eq!(it.next(), AddressStep::Address(0));
    assert_eq!(it.next(), AddressStep::Done);
}

#[test]
fn uuid_text_form() {
    assert_eq!(
        Uuid::parse_str("01234567-89ab-cdef-0011-223344556677"),
        Ok(Uuid(0x0123_4567_89ab_cdef_0011_2233_4455_6677))
    );
    assert_eq!(Uuid::parse_str("0123456789abcdef0011223344556677"), Ok(Uuid(0x0123_4567_89ab_cdef_0011_2233_4455_6677)));
    assert_eq!(Uuid::parse_str("not a uuid"), Err(ParseError::InvalidValue));
    assert_eq!(Uuid::nil(), Uuid(0));
    assert_eq!(Uuid::from_u128(5).0, 5);
}

#[test]
fn sector_buffer() {
    use_block_buf();
}

fn use_block_buf() {
    let mut b = BlockBuf::new(512);
    assert_eq!((b.bufsize(), b.buffered()), (512, 0));
    b.set_bufsize(1000);
    assert_eq!((b.bufsize(), b.buffered()), (1024, 0));
    b.refill((0..1024u32).map(|x| x as u8).collect());
    assert_eq!(b.read(3), vec![0, 1, 2]);
    b.consume(2);
    assert_eq!(b.peek_read(2), Some(&[5u8, 6][..]));
    assert_eq!(b.peek_read(2000), None);
    assert_eq!(b.read(5000).len(), 1019);
    assert_eq!(b.buffered(), 0);
    assert_eq!(seek_start_plan(5000, 1024), (4096, 904));
    // Within the buffer: the device was read up to 8192 into a 1024-byte buffer.
    assert_eq!(seek_current_plan(8192, 1024, 100, 10), SeekCurrent::InBuffer(110, 7168 + 110));
    assert_eq!(seek_current_plan(8192, 1024, 100, -200), SeekCurrent::Absolute(7068));
    assert_eq!(seek_current_plan(1024, 1024, 100, -200), SeekCurrent::Error(xfs_fuse::definitions::EINVAL));
}

#[test]
fn symlink_extent_walk() {
    use_symlink_step();
}

fn use_symlink_step() {
    assert_eq!(symlink_step(0, (Some(40), Some(2))), Some((40, 2, 2)));
    assert_eq!(symlink_step(2, (None, Some(3))), None);
    assert_eq!(symlink_step(2, (None, None)), None);
}
