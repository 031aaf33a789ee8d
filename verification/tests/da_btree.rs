use xfs_fuse::da_btree::{hashname, DaStep, XfsDa3Intnode};
use xfs_fuse::definitions::ENOENT;
use xfs_fuse::utils::Uuid;

#[test]
fn hashname_values() {
    assert_eq!(hashname(b""), 0);
    assert_eq!(hashname(b"a"), 0x61);
    assert_eq!(hashname(b"ab"), 0x30e2);
    assert_eq!(hashname(b"abc"), 0x187163);
    assert_eq!(hashname(b"abcd"), 0xc38b1e4);
    assert_eq!(hashname(b"hello.txt"), 0x9d168f12);
    assert_eq!(hashname(b"lost+found"), 0x21aa60c);
}

fn v4_node(level: u16, ents: &[(u32, u32)]) -> Vec<u8> {
    let mut raw = vec![0u8; 16];
    raw[8..10].copy_from_slice(&0xfebeu16.to_be_bytes());
    raw[12..14].copy_from_slice(&(ents.len() as u16).to_be_bytes());
    raw[14..16].copy_from_slice(&level.to_be_bytes());
    for (h, b) in ents {
        raw.extend_from_slice(&h.to_be_bytes());
        raw.extend_from_slice(&b.to_be_bytes());
    }
    raw
}

#[test]
fn intnode_lookup() {
    let raw = v4_node(1, &[(10, 100), (20, 200), (30, 300)]);
    let node = XfsDa3Intnode::decode(&raw, Uuid(0)).unwrap();
    assert_eq!(node.btree.len(), 3);
    assert_eq!(node.lookup(5), Ok(DaStep::Found(100)));
    assert_eq!(node.lookup(20), Ok(DaStep::Found(200)));
    assert_eq!(node.lookup(21), Ok(DaStep::Found(300)));
    assert_eq!(node.lookup(31), Err(ENOENT));
    assert_eq!(node.first_block(), DaStep::Found(100));
    let raw2 = v4_node(2, &[(10, 100)]);
    let node2 = XfsDa3Intnode::decode(&raw2, Uuid(0)).unwrap();
    assert_eq!(node2.lookup(3), Ok(DaStep::Descend(100)));
    assert_eq!(node2.first_block(), DaStep::Descend(100));
}

#[test]
fn intnode_rejects() {
    let mut raw = v4_node(1, &[(10, 100)]);
    raw[8] = 0;
    assert!(XfsDa3Intnode::decode(&raw, Uuid(0)).is_err());
    let unsorted = v4_node(1, &[(30, 100), (10, 200)]);
    // Entries out of order are read as they stand.
    let node = XfsDa3Intnode::decode(&unsorted, Uuid(0)).unwrap();
    assert_eq!(node.btree.len(), 2);
}
