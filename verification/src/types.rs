//! The records that the file system keeps on disk and in memory.
use vstd::prelude::*;

verus! {

/// Number of direct block pointers held by an inode.
pub const DIRECT_POINTERS: u64 = 12;

/// Width of the name field of a directory entry.
pub const DIRNAME_SIZE: usize = 14;

/// Bytes taken by an encoded superblock.
pub const SUPERBLOCK_SIZE: u64 = 56;

/// Bytes taken by an encoded inode.
pub const DINODE_SIZE: u64 = 110;

/// Bytes taken by an encoded directory entry.
pub const DIRENTRY_SIZE: u64 = 22;

/// Layout of the regions of the device.
#[derive(Clone, Copy, Debug, PartialEq, Eq, Structural)]
pub struct SuperBlock {
    pub block_size: u64,
    pub nblocks: u64,
    pub ninodes: u64,
    pub inodestart: u64,
    pub ndatablocks: u64,
    pub bmapstart: u64,
    pub datastart: u64,
}

/// Kind of an inode. `TFree` marks an inode that is not in use.
#[derive(Clone, Copy, Debug, PartialEq, Eq, Structural)]
pub enum FType {
    TDir,
    TFile,
    TFree,
}

/// An inode as it is kept on disk.
#[derive(Clone, Copy, Debug, PartialEq, Eq)]
pub struct DInode {
    pub ft: FType,
    pub nlink: u16,
    pub size: u64,
    pub direct_blocks: [u64; 12],
}

/// An inode in memory: its number and its on-disk record.
#[derive(Clone, Copy, Debug, PartialEq, Eq)]
pub struct Inode {
    pub inum: u64,
    pub disk_node: DInode,
}

/// A directory entry: an inode number and a NUL-padded name.
#[derive(Clone, Copy, Debug, PartialEq, Eq)]
pub struct DirEntry {
    pub inum: u64,
    pub name: [char; 14],
}

/// What contracts say of an inode record: its fields, with the block pointers
/// as a sequence of length 12.
pub struct DInodeView {
    pub ft: FType,
    pub nlink: u16,
    pub size: u64,
    pub direct_blocks: Seq<u64>,
}

impl View for DInode {
    type V = DInodeView;

    open spec fn view(&self) -> DInodeView {
        DInodeView {
            ft: self.ft,
            nlink: self.nlink,
            size: self.size,
            direct_blocks: self.direct_blocks@,
        }
    }
}

/// What contracts say of a directory entry: its inode number and its 14
/// name characters.
pub struct DirEntryView {
    pub inum: u64,
    pub name: Seq<char>,
}

impl View for DirEntry {
    type V = DirEntryView;

    open spec fn view(&self) -> DirEntryView {
        DirEntryView { inum: self.inum, name: self.name@ }
    }
}

impl Default for FType {
    fn default() -> (r: FType)
        ensures
            r == FType::TFree,
    {
        FType::TFree
    }
}

impl Default for DInode {
    /// A free inode with no links, no content and no blocks.
    fn default() -> (r: DInode)
        ensures
            r@ == (DInodeView {
                ft: FType::TFree,
                nlink: 0,
                size: 0,
                direct_blocks: Seq::new(12, |i: int| 0u64),
            }),
    {
        let r = DInode { ft: FType::TFree, nlink: 0, size: 0, direct_blocks: [0u64; 12] };
        assert(r.direct_blocks@ =~= Seq::new(12, |i: int| 0u64));
        r
    }
}

impl Default for DirEntry {
    /// An empty slot: inode number 0 and an all-NUL name.
    fn default() -> (r: DirEntry)
        ensures
            r@ == (DirEntryView { inum: 0, name: Seq::new(14, |i: int| '\0') }),
    {
        let r = DirEntry { inum: 0, name: ['\0'; 14] };
        assert(r.name@ =~= Seq::new(14, |i: int| '\0'));
        r
    }
}

impl Inode {
    /// The inode numbered `inum` with the record `disk_node`.
    pub fn new(inum: u64, disk_node: DInode) -> (r: Inode)
        ensures
            r.inum == inum,
            r.disk_node == disk_node,
    {
        Inode { inum, disk_node }
    }

    /// The inode numbered `inum` with the given type, link count and size,
    /// whose first block pointers are `blocks` and whose other pointers are
    /// 0; none where the link count does not fit in 16 bits or more than
    /// twelve pointers are given.
    pub fn with_blocks(inum: u64, ft: &FType, nlink: u64, size: u64, blocks: &[u64]) -> (r: Option<
        Inode,
    >)
        ensures
            r is Some <==> nlink <= 65535 && blocks@.len() <= 12,
            r is Some ==> {
                let ino = r->Some_0;
                &&& ino.inum == inum
                &&& ino.disk_node@ == (DInodeView {
                    ft: *ft,
                    nlink: nlink as u16,
                    size: size,
                    direct_blocks: Seq::new(
                        12,
                        |i: int|
                            if i < blocks@.len() {
                                blocks@[i]
                            } else {
                                0u64
                            },
                    ),
                })
            },
    {
        let n: usize = blocks.len();
        if nlink > 65535 || n > 12 {
            return None;
        }
        let mut pointers: [u64; 12] = [0u64; 12];
        let mut i: usize = 0;
        while i < n
            invariant
                i <= n <= 12,
                n == blocks@.len(),
                forall|k: int| 0 <= k < i ==> pointers@[k] == blocks@[k],
                forall|k: int| i <= k < 12 ==> pointers@[k] == 0,
            decreases n - i,
        {
            pointers[i] = blocks[i];
            i += 1;
        }
        let ino = Inode {
            inum,
            disk_node: DInode { ft: *ft, nlink: nlink as u16, size, direct_blocks: pointers },
        };
        assert(ino.disk_node@.direct_blocks =~= Seq::new(
            12,
            |i: int|
                if i < blocks@.len() {
                    blocks@[i]
                } else {
                    0u64
                },
        ));
        Some(ino)
    }

    /// The inode's number.
    pub fn get_inum(&self) -> (r: u64)
        ensures
            r == self.inum,
    {
        self.inum
    }

    /// The inode's type.
    pub fn get_ft(&self) -> (r: FType)
        ensures
            r == self.disk_node.ft,
    {
        self.disk_node.ft
    }

    /// The inode's link count.
    pub fn get_nlink(&self) -> (r: u64)
        ensures
            r == self.disk_node.nlink,
    {
        self.disk_node.nlink as u64
    }

    /// The size of the inode's content, in bytes.
    pub fn get_size(&self) -> (r: u64)
        ensures
            r == self.disk_node.size,
    {
        self.disk_node.size
    }

    /// The inode's block pointer of index `i`, or 0 where it has none of
    /// that index.
    pub fn get_block(&self, i: u64) -> (r: u64)
        ensures
            r == if i < 12 {
                self.disk_node.direct_blocks@[i as int]
            } else {
                0
            },
    {
        if i < 12 {
            self.disk_node.direct_blocks[i as usize]
        } else {
            0
        }
    }
}

} // verus!
