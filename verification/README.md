# xfs_fuse

A read-only XFS file system served through FUSE.

`src/` is the library, written in Verus: it parses the superblock, allocation group headers,
inodes and their forks, extent lists and B+trees, the directory formats (short form, block,
leaf, node and B+tree) and the extended attribute formats (short form, leaf, node and B+tree)
from raw bytes, and makes the decisions of directory iteration, name lookup, sparse-file seeks
and sector-aligned reads.  Every function there carries a contract that Verus proves.  Where the
answer to a request needs another block of the device, the library returns what to read next
and takes the bytes back in a following call.

`app/` is the program: argument parsing, reading the device, and the FUSE request handlers,
which drive the library.

`tests/` runs the library on hand-built blocks.
