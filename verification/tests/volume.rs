use xfs_fuse::definitions::{EINVAL, ENXIO, ERANGE};
use xfs_fuse::volume::{
    forget_step, fuse_ino, lseek_check, split_xattr_name, xattr_reply, xfs_ino, ForgetAction,
    XattrReply, FUSE_ROOT_ID,
};

#[test]
fn root_inode_numbers() {
    assert_eq!(fuse_ino(128, 128), FUSE_ROOT_ID);
    assert_eq!(fuse_ino(131, 128), 131);
    assert_eq!(xfs_ino(FUSE_ROOT_ID, 128), 128);
    assert_eq!(xfs_ino(131, 128), 131);
    assert_eq!(xfs_ino(fuse_ino(131, 128), 128), 131);
}

#[test]
fn xattr_names_and_replies() {
    assert_eq!(split_xattr_name(b"user.foo.bar"), Some((b"user".to_vec(), b"foo.bar".to_vec())));
    assert_eq!(split_xattr_name(b"nodot"), None);
    assert_eq!(xattr_reply(10, 0), XattrReply::Size(10));
    assert_eq!(xattr_reply(10, 5), XattrReply::Error(ERANGE));
    assert_eq!(xattr_reply(10, 10), XattrReply::Data);
}

#[test]
fn seeks_and_forgets() {
    assert_eq!(lseek_check(-1, 10), Err(EINVAL));
    assert_eq!(lseek_check(11, 10), Err(ENXIO));
    assert_eq!(lseek_check(10, 10), Ok(10));
    assert_eq!(forget_step(FUSE_ROOT_ID, Some(1), 1), ForgetAction::Ignore);
    assert_eq!(forget_step(5, None, 1), ForgetAction::Ignore);
    assert_eq!(forget_step(5, Some(2), 2), ForgetAction::Remove);
    assert_eq!(forget_step(5, Some(3), 2), ForgetAction::Keep(1));
}
