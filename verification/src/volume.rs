//! The decisions of the file system's requests that do not depend on reading the device: inode
//! numbers as FUSE sees them, statfs, lookup counts, seeks and extended attribute replies.
use vstd::prelude::*;

use crate::definitions::{XfsIno, EINVAL, ENXIO, ERANGE};
use crate::sb::Sb;

verus! {

/// The inode number by which FUSE knows the root directory.
pub const FUSE_ROOT_ID: u64 = 1;

/// The inode number that FUSE is given for the inode numbered `ino`: the root directory has a
/// fixed one.
pub open spec fn spec_fuse_ino(ino: XfsIno, rootino: XfsIno) -> u64 {
    if ino == rootino {
        FUSE_ROOT_ID
    } else {
        ino
    }
}

/// The inode number of the inode that FUSE knows as `ino`.
pub open spec fn spec_xfs_ino(ino: u64, rootino: XfsIno) -> XfsIno {
    if ino == FUSE_ROOT_ID {
        rootino
    } else {
        ino
    }
}

pub fn fuse_ino(ino: XfsIno, rootino: XfsIno) -> (r: u64)
    ensures
        r == spec_fuse_ino(ino, rootino),
{
    if ino == rootino {
        FUSE_ROOT_ID
    } else {
        ino
    }
}

pub fn xfs_ino(ino: u64, rootino: XfsIno) -> (r: XfsIno)
    ensures
        r == spec_xfs_ino(ino, rootino),
{
    if ino == FUSE_ROOT_ID {
        rootino
    } else {
        ino
    }
}

/// An inode number given to FUSE leads back to the same inode, unless it is the number that
/// FUSE reserves for the root while it is not the root.
pub proof fn lemma_ino_round_trip(ino: XfsIno, rootino: XfsIno)
    requires
        ino != FUSE_ROOT_ID || ino == rootino,
    ensures
        spec_xfs_ino(spec_fuse_ino(ino, rootino), rootino) == ino,
{
}

/// File system statistics, as statfs(2) reports them.
#[derive(Debug, Clone, Copy, PartialEq, Eq, Structural)]
pub struct StatFs {
    pub blocks: u64,
    pub bfree: u64,
    pub bavail: u64,
    pub files: u64,
    pub ffree: u64,
    pub bsize: u32,
    pub namelen: u32,
    pub frsize: u32,
}

/// The statistics of the file system: its blocks, less those of the log; its free blocks, all
/// available; its inodes and free inodes; names of up to 255 bytes.
pub fn statfs(sb: &Sb) -> (r: StatFs)
    requires
        sb.sb_dblocks >= sb.sb_logblocks,
    ensures
        r == (StatFs {
            blocks: (sb.sb_dblocks - sb.sb_logblocks) as u64,
            bfree: sb.sb_fdblocks,
            bavail: sb.sb_fdblocks,
            files: sb.sb_icount,
            ffree: sb.sb_ifree,
            bsize: sb.sb_blocksize,
            namelen: 255,
            frsize: sb.sb_blocksize,
        }),
{
    StatFs {
        blocks: sb.sb_dblocks - sb.sb_logblocks as u64,
        bfree: sb.sb_fdblocks,
        bavail: sb.sb_fdblocks,
        files: sb.sb_icount,
        ffree: sb.sb_ifree,
        bsize: sb.sb_blocksize,
        namelen: 255,
        frsize: sb.sb_blocksize,
    }
}

/// The index of the first `.` in `s`, if any.
pub open spec fn first_dot(s: Seq<u8>, k: int) -> Option<int>
    decreases s.len() - k,
{
    if k < 0 || k >= s.len() {
        None
    } else if s[k] == 46 {
        Some(k)
    } else {
        first_dot(s, k + 1)
    }
}

/// Split an extended attribute's full name at its first `.`: the name space, and the name
/// within it.  A name with no `.` has no name space.
pub fn split_xattr_name(name: &[u8]) -> (r: Option<(Vec<u8>, Vec<u8>)>)
    ensures
        match first_dot(name@, 0) {
            None => r is None,
            Some(p) => r matches Some((ns, rest)) && ns@ == name@.subrange(0, p) && rest@
                == name@.subrange(p + 1, name@.len() as int),
        },
{
    let n: usize = name.len();
    let mut i: usize = 0;
    while i < n
        invariant
            0 <= i <= n,
            n == name@.len(),
            first_dot(name@, 0) == first_dot(name@, i as int),
        decreases n - i,
    {
        if name[i] == 46u8 {
            let ns = vstd::slice::slice_to_vec(vstd::slice::slice_subrange(name, 0, i));
            let rest = vstd::slice::slice_to_vec(vstd::slice::slice_subrange(name, i + 1, n));
            return Some((ns, rest));
        }
        i = i + 1;
    }
    None
}

/// How to answer a request for an extended attribute's value, or for the list of attributes,
/// into a buffer of `size` bytes.
#[derive(Debug, Clone, Copy, PartialEq, Eq, Structural)]
pub enum XattrReply {
    /// Report the size needed.
    Size(u32),
    /// Fail with this error.
    Error(i32),
    /// Send the data.
    Data,
}

/// The answer for data of `len` bytes and a buffer of `size` bytes: a zero size asks for the
/// size; a buffer too small is ERANGE.
pub fn xattr_reply(len: u32, size: u32) -> (r: XattrReply)
    ensures
        size == 0 ==> r == XattrReply::Size(len),
        size != 0 && len > size ==> r == XattrReply::Error(ERANGE),
        size != 0 && len <= size ==> r == XattrReply::Data,
{
    if size == 0 {
        XattrReply::Size(len)
    } else if len > size {
        XattrReply::Error(ERANGE)
    } else {
        XattrReply::Data
    }
}

/// The checks before seeking in a file of `file_size` bytes: a negative offset is EINVAL, and
/// one past the end of the file ENXIO.
pub fn lseek_check(offset: i64, file_size: i64) -> (r: Result<u64, i32>)
    ensures
        offset < 0 ==> r == Err::<u64, i32>(EINVAL),
        offset >= 0 && offset > file_size ==> r == Err::<u64, i32>(ENXIO),
        0 <= offset <= file_size ==> r == Ok::<u64, i32>(offset as u64),
{
    if offset < 0 {
        Err(EINVAL)
    } else if offset > file_size {
        Err(ENXIO)
    } else {
        Ok(offset as u64)
    }
}

/// What to do with an open inode when the kernel forgets `nlookup` lookups of it.
#[derive(Debug, Clone, Copy, PartialEq, Eq, Structural)]
pub enum ForgetAction {
    /// Nothing: the root, whose forgets may be unmatched, or an inode not open.
    Ignore,
    /// Close the inode: no lookups remain.
    Remove,
    /// Keep the inode open with this many lookups.
    Keep(u64),
}

/// The forget of `nlookup` lookups of the inode that FUSE knows as `ino`, which is open with
/// `count` lookups (`None` if it is not open).
pub fn forget_step(ino: u64, count: Option<u64>, nlookup: u64) -> (r: ForgetAction)
    requires
        ino != FUSE_ROOT_ID && count is Some ==> count.unwrap() >= nlookup,
    ensures
        ino == FUSE_ROOT_ID ==> r == ForgetAction::Ignore,
        ino != FUSE_ROOT_ID ==> match count {
            None => r == ForgetAction::Ignore,
            Some(c) => if c == nlookup {
                r == ForgetAction::Remove
            } else {
                r == ForgetAction::Keep((c - nlookup) as u64)
            },
        },
{
    if ino == FUSE_ROOT_ID {
        return ForgetAction::Ignore;
    }
    match count {
        None => ForgetAction::Ignore,
        Some(c) => {
            let left: u64 = c - nlookup;
            if left == 0 {
                ForgetAction::Remove
            } else {
                ForgetAction::Keep(left)
            }
        },
    }
}

} // verus!
