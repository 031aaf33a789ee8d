//! A read-only XFS file system reader.
//!
//! This crate holds the on-disk format logic of an XFS FUSE server: parsing of the superblock,
//! inodes, extent maps, directories, extended attributes and symbolic links from raw disk bytes,
//! and the decisions that drive directory iteration, lookups and sparse-file seeks.  Reading from
//! the device and speaking the FUSE protocol are left to the caller.

pub mod definitions;
pub mod utils;
pub mod sb;
pub mod dir3;
pub mod dir3_block;
pub mod dir3_sf;
pub mod dir2_sf;
pub mod dir3_leaf;
pub mod dir3_node;
pub mod dir3_bptree;
pub mod dir3_lf;
pub mod bmbt_rec;
pub mod btree;
pub mod da_btree;
pub mod dinode_core;
pub mod attr;
pub mod attr_shortform;
pub mod attr_leaf;
pub mod attr_node;
pub mod attr_bptree;
pub mod dinode;
pub mod file;
pub mod file_extent_list;
pub mod file_btree;
pub mod symlink_extent;
pub mod agi;
pub mod volume;
pub mod block_reader;

