//! A layered file system over a block device that is held in memory.
//!
//! Block 0 of the device holds the superblock. After it come the inode
//! region, the bitmap that records which data blocks are in use, and the
//! data region. Four layers work on this layout:
//!
//! - [`a_block_support`]: raw blocks, the superblock and the allocator of
//!   data blocks;
//! - [`b_inode_support`]: inodes, packed into the blocks of the inode region;
//! - [`c_dirs_support`]: directories as arrays of entries in the data blocks
//!   of an inode;
//! - [`e_inode_rw_support`]: the content of an inode as a run of bytes.
//!
//! The contracts speak of the device as the sequence of the contents of its
//! blocks. [`device`] holds the device and the byte containers, [`types`] the
//! records, [`codec`] and [`names`] their encodings, and [`layout`] the
//! positions of things on the device.
pub mod types;
pub mod device;
pub mod codec;
pub mod names;
pub mod layout;
pub mod a_block_support;
pub mod b_inode_support;
pub mod c_dirs_support;
pub mod e_inode_rw_support;
