use xfs_fuse::attr::leaves_total_size;
use xfs_fuse::attr_bptree::AttrBtree;
use xfs_fuse::btree::{BmbtKey, BmdrBlock, BtreeNode};
use xfs_fuse::attr::{
    get_namespace_from_flags, get_namespace_size_from_flags, open, remote_value_bytes,
    attr_lookup_error, AttrLeafblock, AttrRmtHdr, AttrValue, Attributes, XFS_ATTR_LOCAL,
    XFS_ATTR_ROOT, XFS_ATTR_SECURE,
};
use xfs_fuse::attr_leaf::AttrLeaf;
use xfs_fuse::attr_shortform::AttrShortform;
use xfs_fuse::bmbt_rec::{BmbtRec, Bmx};
use xfs_fuse::da_btree::hashname;
use xfs_fuse::definitions::{ENOATTR, ENOENT, EIO};
use xfs_fuse::utils::Uuid;

const UUID: u128 = 0x0123_4567_89ab_cdef_0011_2233_4455_6677;

#[test]
fn namespaces() {
    assert_eq!(get_namespace_from_flags(0), b"user.".to_vec());
    assert_eq!(get_namespace_from_flags(XFS_ATTR_ROOT), b"trusted.".to_vec());
    assert_eq!(get_namespace_from_flags(XFS_ATTR_SECURE | XFS_ATTR_ROOT), b"secure.".to_vec());
    assert_eq!(get_namespace_size_from_flags(XFS_ATTR_LOCAL), 5);
    assert_eq!(get_namespace_size_from_flags(XFS_ATTR_ROOT), 8);
    assert_eq!(attr_lookup_error(ENOENT), ENOATTR);
    assert_eq!(attr_lookup_error(EIO), EIO);
}

fn shortform() -> Vec<u8> {
    let mut raw = vec![0u8, 0, 2, 0];
    raw.extend_from_slice(&[3, 2, 0]);
    raw.extend_from_slice(b"fooab");
    raw.extend_from_slice(&[4, 1, XFS_ATTR_SECURE]);
    raw.extend_from_slice(b"keyxz");
    raw
}

#[test]
fn shortform_list_size_and_get() {
    let sf = AttrShortform::decode(&shortform()).unwrap();
    assert_eq!(sf.get_total_size(), 21);
    let list = sf.list();
    assert_eq!(list, b"user.foo\0secure.keyx\0".to_vec());
    assert_eq!(list.len() as u32, sf.get_total_size());
    assert_eq!(sf.get(b"foo"), Ok(b"ab".to_vec()));
    assert_eq!(sf.get(b"keyx"), Ok(b"z".to_vec()));
    assert_eq!(sf.get(b"key"), Err(ENOATTR));
    assert_eq!(sf.duplicate().list(), list);
    let mut bad = shortform();
    bad[4] = 250;
    bad[5] = 10;
    assert!(AttrShortform::decode(&bad).is_err());
    assert!(AttrShortform::decode(&shortform()[..10]).is_err());
}

/// A 256-byte attribute leaf block holding a local "a" = "1" and a remote "bb".
fn leaf_block() -> Vec<u8> {
    let mut raw = vec![0u8; 256];
    raw[8..10].copy_from_slice(&0x3beeu16.to_be_bytes());
    raw[32..48].copy_from_slice(&UUID.to_be_bytes());
    raw[56..58].copy_from_slice(&2u16.to_be_bytes());
    let mut ents = vec![(hashname(b"a"), 200u16, XFS_ATTR_LOCAL), (hashname(b"bb"), 220u16, 0u8)];
    ents.sort();
    for (i, (h, idx, flags)) in ents.iter().enumerate() {
        let o = 80 + 8 * i;
        raw[o..o + 4].copy_from_slice(&h.to_be_bytes());
        raw[o + 4..o + 6].copy_from_slice(&idx.to_be_bytes());
        raw[o + 6] = *flags;
    }
    // local: value length, name length, name, value
    raw[200..202].copy_from_slice(&1u16.to_be_bytes());
    raw[202] = 1;
    raw[203] = b'a';
    raw[204] = b'1';
    // remote: value block, value length, name length, name
    raw[220..224].copy_from_slice(&9u32.to_be_bytes());
    raw[224..228].copy_from_slice(&5000u32.to_be_bytes());
    raw[228] = 2;
    raw[229..231].copy_from_slice(b"bb");
    raw
}

#[test]
fn leaf_block_get_and_list() {
    let leaf = AttrLeafblock::decode(&leaf_block(), Uuid(UUID)).unwrap();
    assert_eq!(leaf.hdr.count, 2);
    assert_eq!(leaf.get_total_size(), 7 + 8);
    let mut list = Vec::new();
    leaf.list(&mut list);
    assert_eq!(list.len(), 15);
    match leaf.get(hashname(b"a")) {
        Ok(AttrValue::Local(v)) => assert_eq!(v, b"1".to_vec()),
        other => panic!("unexpected {:?}", other),
    }
    match leaf.get(hashname(b"bb")) {
        Ok(AttrValue::Remote(blk, len)) => assert_eq!((blk, len), (9, 5000)),
        other => panic!("unexpected {:?}", other),
    }
    assert!(matches!(leaf.get(hashname(b"zz")), Err(ENOATTR)));
    assert!(AttrLeafblock::decode(&leaf_block(), Uuid(1)).is_err());
}

#[test]
fn attr_leaf_caches_size() {
    let leaf = AttrLeafblock::decode(&leaf_block(), Uuid(UUID)).unwrap();
    let bmx = Bmx::new(&[BmbtRec { br_startoff: 0, br_startblock: 50, br_blockcount: 1, br_flag: false }]);
    let mut al = AttrLeaf { bmx, leaf, total_size: -1 };
    assert_eq!(al.get_total_size(), 15);
    assert_eq!(al.total_size, 15);
    assert_eq!(al.list().len(), 15);
    assert!(matches!(al.get(b"a"), Ok(AttrValue::Local(_))));
    assert!(matches!(al.get(b"c"), Err(ENOATTR)));
}

#[test]
fn open_attribute_fork() {
    let bmx = Bmx::new(&[BmbtRec { br_startoff: 0, br_startblock: 50, br_blockcount: 1, br_flag: false }]);
    match open(bmx, &leaf_block(), Uuid(UUID)) {
        Ok(Attributes::Leaf(l)) => assert_eq!(l.total_size, -1),
        other => panic!("unexpected {:?}", other),
    }
    let bmx = Bmx::new(&[BmbtRec { br_startoff: 0, br_startblock: 50, br_blockcount: 1, br_flag: false }]);
    let mut bad = leaf_block();
    bad[8] = 0;
    assert!(open(bmx, &bad, Uuid(UUID)).is_err());
}

#[test]
fn remote_value_block() {
    let mut raw = vec![0u8; 64];
    raw[8..12].copy_from_slice(&3u32.to_be_bytes());
    raw[56..59].copy_from_slice(b"xyz");
    let h = AttrRmtHdr::decode(&raw).unwrap();
    assert_eq!(h.rm_bytes, 3);
    assert_eq!(remote_value_bytes(&raw), Ok(b"xyz".to_vec()));
    raw[8..12].copy_from_slice(&30u32.to_be_bytes());
    assert!(remote_value_bytes(&raw).is_err());
}

#[test]
fn tree_attribute_sizes_are_summed_once() {
    let leaf = || AttrLeafblock::decode(&leaf_block(), Uuid(UUID)).unwrap();
    let leaves = vec![leaf(), leaf()];
    assert_eq!(leaves_total_size(&leaves), Some(30));
    let root = BtreeNode::new(BmdrBlock { bb_level: 1, bb_numrecs: 1 }, vec![BmbtKey { br_startoff: 0 }], vec![9]);
    let mut t = AttrBtree::new(root);
    assert_eq!(t.get_total_size(&leaves), Some(30));
    assert_eq!(t.total_size, 30);
    // Once computed, the size is kept.
    assert_eq!(t.get_total_size(&[]), Some(30));
}
