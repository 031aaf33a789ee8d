//! The block maps of regular files.
use vstd::prelude::*;

use crate::definitions::XfsFsize;
use crate::file_btree::FileBtree;
use crate::file_extent_list::FileExtentList;

verus! {

/// How a regular file's blocks are mapped.
#[derive(Debug)]
pub enum FileMetadata {
    Bmx(FileExtentList),
    Btree(FileBtree),
}

impl FileMetadata {
    /// The file's size in bytes.
    pub fn size(&self) -> (r: XfsFsize)
        ensures
            r == match self {
                FileMetadata::Bmx(f) => f.size,
                FileMetadata::Btree(f) => f.size,
            },
    {
        match self {
            FileMetadata::Bmx(f) => f.size(),
            FileMetadata::Btree(f) => f.size(),
        }
    }
}

} // verus!
