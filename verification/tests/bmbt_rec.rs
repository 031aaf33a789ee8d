use xfs_fuse::bmbt_rec::{BmbtRec, Bmx, XfsExntst};
use xfs_fuse::definitions::{ENXIO, SEEK_DATA, SEEK_HOLE};

fn rec(br_startoff: u64, br_startblock: u64, br_blockcount: u64, br_flag: bool) -> BmbtRec {
    BmbtRec { br_startoff, br_startblock, br_blockcount, br_flag }
}

#[test]
fn map_dblock() {
    let bmx = Bmx::new(&[
        BmbtRec { br_startoff: 0, br_startblock: 20, br_blockcount: 2, br_flag: false },
        BmbtRec { br_startoff: 2, br_startblock: 30, br_blockcount: 3, br_flag: false },
        BmbtRec { br_startoff: 5, br_startblock: 40, br_blockcount: 2, br_flag: false },
    ]);

    assert_eq!(bmx.map_dblock(6), Some(41));
}

#[test]
fn map_dblock_hole() {
    let bmx = Bmx::new(&[rec(0, 20, 2, false), rec(5, 40, 2, false)]);
    assert_eq!(bmx.map_dblock(0), Some(20));
    assert_eq!(bmx.map_dblock(3), None);
    assert_eq!(bmx.map_dblock(7), None);
}

#[test]
fn bmx_new_drops_unwritten() {
    let bmx = Bmx::new(&[rec(0, 20, 2, false), rec(2, 30, 3, true), rec(5, 40, 2, false)]);
    assert_eq!(bmx.len(), 2);
    assert_eq!(bmx.get(1), rec(5, 40, 2, false));
    assert_eq!(bmx.first(), Some(&rec(0, 20, 2, false)));
    let empty = Bmx::new(&[]);
    assert_eq!(empty.first(), None);
    let v = vec![rec(1, 7, 1, true)];
    assert_eq!(Bmx::from_vec(v).len(), 0);
}

#[test]
fn bmx_get_extent() {
    let bmx = Bmx::new(&[rec(2, 20, 3, false), rec(8, 40, 2, false)]);
    // A hole at the beginning of the file
    assert_eq!(bmx.get_extent(0), (None, Some(2)));
    // Inside the first extent
    assert_eq!(bmx.get_extent(3), (Some(21), Some(2)));
    // In the hole between extents
    assert_eq!(bmx.get_extent(5), (None, Some(3)));
    // Inside the last extent
    assert_eq!(bmx.get_extent(9), (Some(41), Some(1)));
    // A hole that extends to EoF
    assert_eq!(bmx.get_extent(10), (None, None));
    let empty = Bmx::new(&[]);
    assert_eq!(empty.get_extent(4), (None, None));
}

#[test]
fn bmx_lseek() {
    // Blocks of 512 bytes: data in blocks 2..5 and 5..6 (contiguous) and 8..10.
    let bmx = Bmx::new(&[rec(2, 20, 3, false), rec(5, 30, 1, false), rec(8, 40, 2, false)]);
    // A hole at the beginning of the file
    assert_eq!(bmx.lseek(100, SEEK_HOLE, 9), Ok(100));
    assert_eq!(bmx.lseek(100, SEEK_DATA, 9), Ok(2 * 512));
    // In data: the next hole is after the two contiguous extents
    assert_eq!(bmx.lseek(2 * 512 + 7, SEEK_HOLE, 9), Ok(6 * 512));
    assert_eq!(bmx.lseek(2 * 512 + 7, SEEK_DATA, 9), Ok(2 * 512 + 7));
    // In a hole between extents
    assert_eq!(bmx.lseek(7 * 512, SEEK_HOLE, 9), Ok(7 * 512));
    assert_eq!(bmx.lseek(7 * 512, SEEK_DATA, 9), Ok(8 * 512));
    // In the last extent: the virtual hole at EoF
    assert_eq!(bmx.lseek(9 * 512, SEEK_HOLE, 9), Ok(10 * 512));
    // Past the last extent
    assert_eq!(bmx.lseek(11 * 512, SEEK_DATA, 9), Err(ENXIO));
    assert_eq!(bmx.lseek(11 * 512, SEEK_HOLE, 9), Ok(11 * 512));
    let empty = Bmx::new(&[]);
    assert_eq!(empty.lseek(0, SEEK_DATA, 9), Err(ENXIO));
}

#[test]
fn bmbt_rec_decode() {
    // flag 1, startoff 5, startblock 0x1234, blockcount 7
    let v: u128 = (1u128 << 127) | (5u128 << 73) | (0x1234u128 << 21) | 7;
    let raw = v.to_be_bytes();
    let r = BmbtRec::decode(&raw, 0).unwrap();
    assert_eq!(r, rec(5, 0x1234, 7, true));
    assert_eq!(BmbtRec::from_u128(v & !(1u128 << 127)), rec(5, 0x1234, 7, false));
    assert!(BmbtRec::decode(&raw[..15], 0).is_err());
    assert_eq!(XfsExntst::from_u8(1), Some(XfsExntst::Unwritten));
    assert_eq!(XfsExntst::from_u8(3), None);
}

#[test]
fn lseek_never_moves_backwards() {
    let bmx = Bmx::new(&[rec(2, 20, 2, false), rec(4, 30, 1, false), rec(9, 40, 3, false)]);
    for offset in (0u64..16 * 4096).step_by(1000) {
        for whence in [SEEK_DATA, SEEK_HOLE] {
            if let Ok(r) = bmx.lseek(offset, whence, 12) {
                assert!(r >= offset, "lseek({offset}, {whence}) = {r}");
            }
        }
    }
    // From inside the first data region, the next hole is where the contiguous extents end.
    assert_eq!(bmx.lseek(2 * 4096 + 5, SEEK_HOLE, 12), Ok(5 * 4096));
    assert_eq!(bmx.lseek(6 * 4096, SEEK_DATA, 12), Ok(9 * 4096));
    assert_eq!(bmx.lseek(13 * 4096, SEEK_DATA, 12), Err(ENXIO));
}

#[test]
fn map_dblock_agrees_with_get_extent() {
    let bmx = Bmx::new(&[rec(0, 20, 2, false), rec(5, 40, 2, false)]);
    for d in 0u32..8 {
        assert_eq!(bmx.map_dblock(d), bmx.get_extent(d as u64).0);
    }
}

#[test]
fn first_is_first_written() {
    let bmx = Bmx::new(&[rec(0, 20, 2, true), rec(3, 30, 1, false), rec(5, 40, 1, false)]);
    assert_eq!(bmx.first(), Some(&rec(3, 30, 1, false)));
    // A hole's length runs to the next extent's start.
    assert_eq!(bmx.get_extent(0), (None, Some(3)));
    assert_eq!(bmx.get_extent(4), (None, Some(1)));
    assert_eq!(bmx.get_extent(6), (None, None));
}
