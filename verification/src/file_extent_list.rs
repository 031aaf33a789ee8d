//! Regular files whose blocks are mapped by an extent list in the inode.
use vstd::prelude::*;

use crate::bmbt_rec::{extents_sorted, spec_get_extent, spec_lseek, Bmx};
use crate::definitions::{XfsFileoff, XfsFsblock, XfsFsize};

verus! {

/// `a / b`, rounded up.
pub open spec fn spec_div_ceil(a: int, b: int) -> int {
    if a % b == 0 {
        a / b
    } else {
        a / b + 1
    }
}

/// `a / b`, rounded up.
pub fn div_ceil(a: u64, b: u64) -> (r: u64)
    requires
        b > 0,
    ensures
        r == spec_div_ceil(a as int, b as int),
{
    let q: u64 = a / b;
    if a % b == 0 {
        q
    } else {
        assert(q < u64::MAX) by (nonlinear_arith)
            requires
                q == a / b,
                a % b != 0,
                b > 0,
        ;
        q + 1
    }
}

/// The number of `blocksize`-byte blocks that a file of `size` bytes spans.
pub open spec fn file_blocks(size: XfsFsize, blocksize: u32) -> int {
    spec_div_ceil((size as u64) as int, blocksize as int)
}

/// A regular file mapped by an extent list, and its size in bytes.
#[derive(Debug)]
pub struct FileExtentList {
    pub bmx: Bmx,
    pub size: XfsFsize,
}

impl FileExtentList {
    /// Return the extent, if any, that contains the given data block within the file, as its
    /// file system block and its length in blocks.  A hole that reaches the end of the extents
    /// is taken to run to the end of the file.  Records that are out of order give an
    /// unspecified answer.
    pub fn get_extent(&self, block: XfsFileoff, blocksize: u32) -> (r: (Option<XfsFsblock>, u64))
        requires
            blocksize > 0,
            extents_sorted(self.bmx@) && spec_get_extent(self.bmx@, block).1 is None ==> block
                <= file_blocks(self.size, blocksize),
        ensures
            extents_sorted(self.bmx@) ==> r.0 == spec_get_extent(self.bmx@, block).0,
            extents_sorted(self.bmx@) ==> r.1 == match spec_get_extent(self.bmx@, block).1 {
                Some(l) => l as int,
                None => file_blocks(self.size, blocksize) - block,
            },
    {
        let (start, len) = self.bmx.get_extent(block);
        let len: u64 = match len {
            Some(l) => l,
            None => {
                let n: u64 = div_ceil(self.size as u64, blocksize as u64);
                if n >= block {
                    n - block
                } else {
                    0
                }
            },
        };
        (start, len)
    }

    /// Like lseek(2), but only works for SEEK_HOLE and SEEK_DATA
    pub fn lseek(&self, offset: u64, whence: i32, blocklog: u8) -> (r: Result<u64, i32>)
        requires
            blocklog < 64,
        ensures
            extents_sorted(self.bmx@) ==> r == spec_lseek(self.bmx@, offset, whence, blocklog),
    {
        self.bmx.lseek(offset, whence, blocklog)
    }

    pub fn size(&self) -> (r: XfsFsize)
        ensures
            r == self.size,
    {
        self.size
    }
}

} // verus!
