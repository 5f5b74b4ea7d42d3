//! The block layer: a device with a cached superblock, raw block access and
//! the allocator of data blocks over the free-block bitmap.
use crate::codec::sb_bytes;
use crate::codec::sb_parse;
use crate::device::disk_write;
use crate::device::zero_disk;
use crate::device::zeros;
use crate::device::Block;
use crate::device::Device;
use crate::device::DeviceError;
use crate::layout::bit_pos;
use crate::layout::bitmap_bit;
use crate::layout::clear_bit;
use crate::layout::lemma_bits_outside;
use crate::layout::lemma_clear_bit;
use crate::layout::lemma_set_bit;
use crate::layout::sb_valid_spec;
use crate::layout::set_bit;
use crate::types::SuperBlock;
use vstd::prelude::*;

verus! {

/// A file system that knows of blocks only.
pub struct CustomBlockFileSystem {
    /// The device that holds the blocks.
    pub device: Device,
    /// The superblock, as last read from or written to block 0.
    pub superblock: SuperBlock,
}

/// What the block layer can refuse.
#[derive(Clone, Copy, Debug, PartialEq, Eq, Structural)]
pub enum CustomBlockFileSystemError {
    /// The superblock breaks a rule of the layout.
    InvalidSuperBlock,
    /// The device's geometry is not the one the superblock names.
    IncompatibleDeviceSuperBlock,
    /// The index names no data block.
    DataIndexOutOfBounds,
    /// The data block to free is free already.
    BlockIsAlreadyFree,
    /// Every data block is in use.
    NoFreeDataBlock,
    /// The device or a block refused an access.
    GivenError(DeviceError),
}

impl View for CustomBlockFileSystem {
    type V = Seq<Seq<u8>>;

    open spec fn view(&self) -> Seq<Seq<u8>> {
        self.device@
    }
}

/// The least data block that the bitmap marks free is `j`.
pub open spec fn first_free(disk: Seq<Seq<u8>>, sb: SuperBlock, j: int) -> bool {
    &&& 0 <= j < sb.ndatablocks
    &&& !bitmap_bit(disk, sb, j)
    &&& forall|k: int| 0 <= k < j ==> bitmap_bit(disk, sb, k)
}

/// The bitmap marks every data block as in use.
pub open spec fn none_free(disk: Seq<Seq<u8>>, sb: SuperBlock) -> bool {
    forall|k: int| 0 <= k < sb.ndatablocks ==> bitmap_bit(disk, sb, k)
}

/// A fresh disk whose block 0 holds the encoding of `sb`.
pub open spec fn fresh_disk(sb: SuperBlock) -> Seq<Seq<u8>> {
    disk_write(zero_disk(sb.block_size as nat, sb.nblocks as nat), 0, 0, sb_bytes(sb))
}

/// The largest block size that a file system takes: the size of a file of
/// twelve such blocks can still be written in 64 bits.
pub const MAX_BLOCK_SIZE: u64 = 0x1555_5555_5555_5555;

/// The error with which `mkfs` refuses `sb`, if it does.
pub open spec fn mkfs_error(sb: SuperBlock) -> Option<CustomBlockFileSystemError> {
    if !sb_valid_spec(sb) {
        Some(CustomBlockFileSystemError::InvalidSuperBlock)
    } else if sb.block_size > usize::MAX || sb.nblocks > usize::MAX || sb.block_size
        > MAX_BLOCK_SIZE {
        Some(CustomBlockFileSystemError::GivenError(DeviceError::TooLarge))
    } else if sb.block_size < 56 {
        Some(CustomBlockFileSystemError::GivenError(DeviceError::OutOfBounds))
    } else {
        None
    }
}

/// The error with which `mountfs` refuses a device, if it does.
pub open spec fn mount_error(dev: Device) -> Option<CustomBlockFileSystemError> {
    if dev.nblocks() == 0 {
        Some(CustomBlockFileSystemError::GivenError(DeviceError::BlockIndexOutOfRange))
    } else if dev.block_size() < 56 {
        Some(CustomBlockFileSystemError::GivenError(DeviceError::OutOfBounds))
    } else if !sb_valid_spec(mounted_sb(dev)) {
        Some(CustomBlockFileSystemError::InvalidSuperBlock)
    } else if dev.block_size() != mounted_sb(dev).block_size || dev.nblocks() != mounted_sb(
        dev,
    ).nblocks {
        Some(CustomBlockFileSystemError::IncompatibleDeviceSuperBlock)
    } else if dev.block_size() > MAX_BLOCK_SIZE {
        Some(CustomBlockFileSystemError::GivenError(DeviceError::TooLarge))
    } else {
        None
    }
}

/// The superblock that block 0 of a device encodes.
pub open spec fn mounted_sb(dev: Device) -> SuperBlock {
    sb_parse(dev@[0].subrange(0, 56))
}

/// What `b_get` returns for index `i` on `disk`.
pub open spec fn b_get_post(
    disk: Seq<Seq<u8>>,
    sb: SuperBlock,
    i: u64,
    r: Result<Block, CustomBlockFileSystemError>,
) -> bool {
    match r {
        Ok(b) => i < sb.nblocks && b.block_no == i && b@ == disk[i as int],
        Err(CustomBlockFileSystemError::GivenError(DeviceError::BlockIndexOutOfRange)) => i
            >= sb.nblocks,
        Err(_) => false,
    }
}

/// What `b_put` of block `b` makes of the disk `pre`.
pub open spec fn b_put_post(
    pre: Seq<Seq<u8>>,
    sb: SuperBlock,
    b: Block,
    post: Seq<Seq<u8>>,
    r: Result<(), CustomBlockFileSystemError>,
) -> bool {
    match r {
        Ok(()) => {
            &&& b.block_no < sb.nblocks
            &&& b@.len() == sb.block_size
            &&& post == pre.update(b.block_no as int, b@)
        },
        Err(CustomBlockFileSystemError::GivenError(DeviceError::BlockIndexOutOfRange)) => {
            b.block_no >= sb.nblocks && post == pre
        },
        Err(CustomBlockFileSystemError::GivenError(DeviceError::BlockSizeMismatch)) => {
            &&& b.block_no < sb.nblocks
            &&& b@.len() != sb.block_size
            &&& post == pre
        },
        Err(_) => false,
    }
}

/// What `b_free` of data block `i` makes of the disk `pre`.
pub open spec fn b_free_post(
    pre: Seq<Seq<u8>>,
    sb: SuperBlock,
    i: u64,
    post: Seq<Seq<u8>>,
    r: Result<(), CustomBlockFileSystemError>,
) -> bool {
    match r {
        Ok(()) => {
            &&& i < sb.ndatablocks
            &&& bitmap_bit(pre, sb, i as int)
            &&& post == clear_bit(pre, sb, i as int)
            &&& !bitmap_bit(post, sb, i as int)
        },
        Err(CustomBlockFileSystemError::DataIndexOutOfBounds) => {
            i >= sb.ndatablocks && post == pre
        },
        Err(CustomBlockFileSystemError::BlockIsAlreadyFree) => {
            &&& i < sb.ndatablocks
            &&& !bitmap_bit(pre, sb, i as int)
            &&& post == pre
        },
        Err(_) => false,
    }
}

/// What `b_zero` of data block `i` makes of the disk `pre`.
pub open spec fn b_zero_post(
    pre: Seq<Seq<u8>>,
    sb: SuperBlock,
    i: u64,
    post: Seq<Seq<u8>>,
    r: Result<(), CustomBlockFileSystemError>,
) -> bool {
    match r {
        Ok(()) => {
            &&& i < sb.ndatablocks
            &&& post == pre.update(sb.datastart + i, zeros(sb.block_size as nat))
        },
        Err(CustomBlockFileSystemError::DataIndexOutOfBounds) => {
            i >= sb.ndatablocks && post == pre
        },
        Err(_) => false,
    }
}

/// What `b_alloc` makes of the disk `pre`.
pub open spec fn b_alloc_post(
    pre: Seq<Seq<u8>>,
    sb: SuperBlock,
    post: Seq<Seq<u8>>,
    r: Result<u64, CustomBlockFileSystemError>,
) -> bool {
    match r {
        Ok(j) => {
            &&& first_free(pre, sb, j as int)
            &&& post == set_bit(pre, sb, j as int).update(
                sb.datastart + j,
                zeros(sb.block_size as nat),
            )
            &&& bitmap_bit(post, sb, j as int)
            &&& post[sb.datastart + j] == zeros(sb.block_size as nat)
        },
        Err(CustomBlockFileSystemError::NoFreeDataBlock) => none_free(pre, sb) && post == pre,
        Err(_) => false,
    }
}

/// What `sup_put` of `sup` makes of the disk `pre` and of the cached
/// superblock `sb`.
pub open spec fn sup_put_post(
    pre: Seq<Seq<u8>>,
    sb: SuperBlock,
    sup: SuperBlock,
    post: Seq<Seq<u8>>,
    sb_post: SuperBlock,
    r: Result<(), CustomBlockFileSystemError>,
) -> bool {
    match r {
        Ok(()) => sb_post == sup && post == disk_write(pre, 0, 0, sb_bytes(sup)),
        Err(_) => false,
    }
}

/// Where a data block at or below `k` is free, some data block is the free
/// block of least index.
pub proof fn lemma_least_free(disk: Seq<Seq<u8>>, sb: SuperBlock, k: int)
    requires
        0 <= k < sb.ndatablocks,
        !bitmap_bit(disk, sb, k),
    ensures
        exists|j: int| first_free(disk, sb, j),
    decreases k,
{
    if forall|i: int| 0 <= i < k ==> bitmap_bit(disk, sb, i) {
        assert(first_free(disk, sb, k));
    } else {
        let i = choose|i: int| 0 <= i < k && !bitmap_bit(disk, sb, i);
        lemma_least_free(disk, sb, i);
    }
}

/// Unless every data block is in use, some data block is the free block of
/// least index.
pub proof fn lemma_first_free_exists(disk: Seq<Seq<u8>>, sb: SuperBlock)
    requires
        !none_free(disk, sb),
    ensures
        exists|j: int| first_free(disk, sb, j),
{
    let k = choose|k: int| 0 <= k < sb.ndatablocks && !bitmap_bit(disk, sb, k);
    lemma_least_free(disk, sb, k);
}

/// Only one data block is the free block of least index.
pub proof fn lemma_first_free_unique(disk: Seq<Seq<u8>>, sb: SuperBlock, a: int, b: int)
    requires
        first_free(disk, sb, a),
        first_free(disk, sb, b),
    ensures
        a == b,
{
}

/// After a data block is taken, its bit in the bitmap reads 1 and the block
/// holds zero bytes only.
pub proof fn lemma_alloc_marks_and_zeroes(
    pre: Seq<Seq<u8>>,
    sb: SuperBlock,
    post: Seq<Seq<u8>>,
    j: u64,
)
    requires
        b_alloc_post(pre, sb, post, Ok(j)),
    ensures
        bitmap_bit(post, sb, j as int),
        post[sb.datastart + j] == zeros(sb.block_size as nat),
{
}

/// A data block that was freed cannot be freed again: the second call
/// fails with `BlockIsAlreadyFree` and changes nothing.
pub proof fn lemma_free_twice(
    pre: Seq<Seq<u8>>,
    sb: SuperBlock,
    i: u64,
    mid: Seq<Seq<u8>>,
    post: Seq<Seq<u8>>,
    second: Result<(), CustomBlockFileSystemError>,
)
    requires
        b_free_post(pre, sb, i, mid, Ok(())),
        b_free_post(mid, sb, i, post, second),
    ensures
        second == Err::<(), CustomBlockFileSystemError>(
            CustomBlockFileSystemError::BlockIsAlreadyFree,
        ),
        post == mid,
{
}

impl CustomBlockFileSystem {
    /// The superblock is valid, fits in a block and names the device's
    /// geometry.
    pub open spec fn wf(&self) -> bool {
        &&& self.device.wf()
        &&& sb_valid_spec(self.superblock)
        &&& 56 <= self.superblock.block_size <= MAX_BLOCK_SIZE
        &&& self.device.block_size() == self.superblock.block_size
        &&& self.device.nblocks() == self.superblock.nblocks
    }

    /// Puts a device and a superblock together, unchecked.
    pub fn new(dev: Device, sb: SuperBlock) -> (r: CustomBlockFileSystem)
        ensures
            r.device == dev,
            r.superblock == sb,
    {
        CustomBlockFileSystem { device: dev, superblock: sb }
    }

    /// Whether `sb` keeps the rules of the layout.
    pub fn sb_valid(sb: &SuperBlock) -> (r: bool)
        ensures
            r == sb_valid_spec(*sb),
    {
        if !(sb.inodestart < sb.bmapstart) {
            return false;
        }
        if !(sb.bmapstart < sb.datastart) {
            return false;
        }
        if sb.inodestart == 0 {
            return false;
        }
        let iblocks: u128 = (sb.bmapstart - sb.inodestart) as u128;
        let bblocks: u128 = (sb.datastart - sb.bmapstart) as u128;
        let bs: u128 = sb.block_size as u128;
        assert(iblocks * bs <= 0xffff_ffff_ffff_ffff * 0xffff_ffff_ffff_ffff) by (nonlinear_arith)
            requires
                0 <= iblocks <= 0xffff_ffff_ffff_ffff,
                0 <= bs <= 0xffff_ffff_ffff_ffff,
        ;
        assert(bblocks * bs <= 0xffff_ffff_ffff_ffff * 0xffff_ffff_ffff_ffff) by (nonlinear_arith)
            requires
                0 <= bblocks <= 0xffff_ffff_ffff_ffff,
                0 <= bs <= 0xffff_ffff_ffff_ffff,
        ;
        let inode_cond: bool = 110 * (sb.ninodes as u128) <= iblocks * bs;
        let bbytes: u128 = bblocks * bs;
        let hold_cond1: bool = bbytes > 0xffff_ffff_ffff_ffff || bbytes * 8
            >= sb.ndatablocks as u128;
        let hold_cond2: bool = sb.datastart as u128 + sb.ndatablocks as u128
            <= sb.nblocks as u128;
        let fit_cond1: bool = 1 + iblocks + bblocks + sb.ndatablocks as u128
            <= sb.nblocks as u128;
        inode_cond && hold_cond1 && hold_cond2 && fit_cond1
    }

    /// Makes a file system on a fresh device of the geometry that `sb` names,
    /// and writes `sb` to block 0.
    pub fn mkfs(sb: &SuperBlock) -> (r: Result<CustomBlockFileSystem, CustomBlockFileSystemError>)
        ensures
            match r {
                Ok(fs) => {
                    &&& mkfs_error(*sb) is None
                    &&& fs.wf()
                    &&& fs.superblock == *sb
                    &&& fs@ == fresh_disk(*sb)
                },
                Err(e) => mkfs_error(*sb) == Some(e),
            },
    {
        if !Self::sb_valid(sb) {
            return Err(CustomBlockFileSystemError::InvalidSuperBlock);
        }
        if sb.block_size > MAX_BLOCK_SIZE {
            return Err(CustomBlockFileSystemError::GivenError(DeviceError::TooLarge));
        }
        let mut device = match Device::new(sb.block_size, sb.nblocks) {
            Ok(d) => d,
            Err(e) => {
                return Err(CustomBlockFileSystemError::GivenError(e));
            },
        };
        let mut block = match device.read_block(0) {
            Ok(b) => b,
            Err(e) => {
                return Err(CustomBlockFileSystemError::GivenError(e));
            },
        };
        match block.serialize_superblock(sb, 0) {
            Ok(()) => {},
            Err(e) => {
                return Err(CustomBlockFileSystemError::GivenError(e));
            },
        }
        match device.write_block(&block) {
            Ok(()) => {},
            Err(e) => {
                return Err(CustomBlockFileSystemError::GivenError(e));
            },
        }
        Ok(CustomBlockFileSystem::new(device, *sb))
    }

    /// Takes over a device that holds a file system: reads the superblock
    /// from block 0 and checks it against the layout rules and the device.
    pub fn mountfs(dev: Device) -> (r: Result<CustomBlockFileSystem, CustomBlockFileSystemError>)
        requires
            dev.wf(),
        ensures
            match r {
                Ok(fs) => {
                    &&& mount_error(dev) is None
                    &&& fs.wf()
                    &&& fs.device == dev
                    &&& fs.superblock == mounted_sb(dev)
                },
                Err(e) => mount_error(dev) == Some(e),
            },
    {
        let sb_block = match dev.read_block(0) {
            Ok(b) => b,
            Err(e) => {
                return Err(CustomBlockFileSystemError::GivenError(e));
            },
        };
        let superblock = match sb_block.deserialize_superblock(0) {
            Ok(s) => s,
            Err(e) => {
                return Err(CustomBlockFileSystemError::GivenError(e));
            },
        };
        if Self::sb_valid(&superblock) {
            if dev.block_size() == superblock.block_size && dev.nblocks() == superblock.nblocks {
                if superblock.block_size > MAX_BLOCK_SIZE {
                    return Err(CustomBlockFileSystemError::GivenError(DeviceError::TooLarge));
                }
                Ok(CustomBlockFileSystem::new(dev, superblock))
            } else {
                Err(CustomBlockFileSystemError::IncompatibleDeviceSuperBlock)
            }
        } else {
            Err(CustomBlockFileSystemError::InvalidSuperBlock)
        }
    }

    /// Gives the device back.
    pub fn unmountfs(self) -> (r: Device)
        ensures
            r == self.device,
    {
        self.device
    }

    /// A copy of block `i` of the device.
    pub fn b_get(&self, i: u64) -> (r: Result<Block, CustomBlockFileSystemError>)
        requires
            self.wf(),
        ensures
            b_get_post(self@, self.superblock, i, r),
    {
        match self.device.read_block(i) {
            Ok(b) => Ok(b),
            Err(e) => Err(CustomBlockFileSystemError::GivenError(e)),
        }
    }

    /// Stores `b` as the block of index `b.block_no`.
    pub fn b_put(&mut self, b: &Block) -> (r: Result<(), CustomBlockFileSystemError>)
        requires
            old(self).wf(),
        ensures
            final(self).wf(),
            final(self).superblock == old(self).superblock,
            b_put_post(old(self)@, old(self).superblock, *b, final(self)@, r),
    {
        match self.device.write_block(b) {
            Ok(()) => Ok(()),
            Err(e) => Err(CustomBlockFileSystemError::GivenError(e)),
        }
    }

    /// Marks data block `i` as free.
    pub fn b_free(&mut self, i: u64) -> (r: Result<(), CustomBlockFileSystemError>)
        requires
            old(self).wf(),
        ensures
            final(self).wf(),
            final(self).superblock == old(self).superblock,
            b_free_post(old(self)@, old(self).superblock, i, final(self)@, r),
    {
        let sb = self.superblock;
        if i >= sb.ndatablocks {
            return Err(CustomBlockFileSystemError::DataIndexOutOfBounds);
        }
        let (blk, byte_offset, mask) = bit_pos(&sb, i);
        let mut bitmap_block = match self.b_get(blk) {
            Ok(b) => b,
            Err(e) => {
                return Err(e);
            },
        };
        let mut byte: Vec<u8> = vec![0u8];
        match bitmap_block.read_data(&mut byte, byte_offset) {
            Ok(()) => {},
            Err(e) => {
                return Err(CustomBlockFileSystemError::GivenError(e));
            },
        }
        let cur: u8 = byte[0];
        assert(cur == self@[blk as int][byte_offset as int]);
        if cur & mask == 0 {
            return Err(CustomBlockFileSystemError::BlockIsAlreadyFree);
        }
        let cleared: Vec<u8> = vec![cur & !mask];
        assert(cleared@ =~= seq![cur & !mask]);
        match bitmap_block.write_data(&cleared, byte_offset) {
            Ok(()) => {},
            Err(e) => {
                return Err(CustomBlockFileSystemError::GivenError(e));
            },
        }
        proof {
            lemma_clear_bit(old(self)@, sb, i as int, i as int);
        }
        self.b_put(&bitmap_block)
    }

    /// Overwrites data block `i` with zero bytes.
    pub fn b_zero(&mut self, i: u64) -> (r: Result<(), CustomBlockFileSystemError>)
        requires
            old(self).wf(),
        ensures
            final(self).wf(),
            final(self).superblock == old(self).superblock,
            b_zero_post(old(self)@, old(self).superblock, i, final(self)@, r),
    {
        let sb = self.superblock;
        if i >= sb.ndatablocks {
            return Err(CustomBlockFileSystemError::DataIndexOutOfBounds);
        }
        let zero = Block::new_zero(sb.datastart + i, sb.block_size);
        self.b_put(&zero)
    }

    /// Takes the free data block of least index: marks it as in use, fills
    /// it with zero bytes and returns its index.
    pub fn b_alloc(&mut self) -> (r: Result<u64, CustomBlockFileSystemError>)
        requires
            old(self).wf(),
        ensures
            final(self).wf(),
            final(self).superblock == old(self).superblock,
            b_alloc_post(old(self)@, old(self).superblock, final(self)@, r),
    {
        let sb = self.superblock;
        if sb.ndatablocks == 0 {
            return Err(CustomBlockFileSystemError::NoFreeDataBlock);
        }
        let mut bitmap_block = match self.b_get(sb.bmapstart) {
            Ok(b) => b,
            Err(e) => {
                return Err(e);
            },
        };
        let mut j: u64 = 0;
        while j < sb.ndatablocks
            invariant
                self.wf(),
                self.superblock == sb,
                *self == *old(self),
                j <= sb.ndatablocks,
                bitmap_block.block_no < sb.nblocks,
                bitmap_block@ == self@[bitmap_block.block_no as int],
                forall|k: int| 0 <= k < j ==> bitmap_bit(self@, sb, k),
            decreases sb.ndatablocks - j,
        {
            let (blk, byte_offset, mask) = bit_pos(&sb, j);
            if blk != bitmap_block.block_no {
                bitmap_block = match self.b_get(blk) {
                    Ok(b) => b,
                    Err(e) => {
                        return Err(e);
                    },
                };
            }
            let cur: u8 = bitmap_block.contents[byte_offset as usize];
            if cur & mask == 0 {
                let marked: Vec<u8> = vec![cur | mask];
                assert(marked@ =~= seq![cur | mask]);
                match bitmap_block.write_data(&marked, byte_offset) {
                    Ok(()) => {},
                    Err(e) => {
                        return Err(CustomBlockFileSystemError::GivenError(e));
                    },
                }
                match self.b_put(&bitmap_block) {
                    Ok(()) => {},
                    Err(e) => {
                        return Err(e);
                    },
                }
                proof {
                    lemma_set_bit(old(self)@, sb, j as int, j as int);
                    lemma_bits_outside(
                        self@,
                        sb,
                        sb.datastart + j,
                        zeros(sb.block_size as nat),
                        j as int,
                    );
                }
                match self.b_zero(j) {
                    Ok(()) => {},
                    Err(e) => {
                        return Err(e);
                    },
                }
                return Ok(j);
            }
            j += 1;
        }
        Err(CustomBlockFileSystemError::NoFreeDataBlock)
    }

    /// The cached superblock.
    pub fn sup_get(&self) -> (r: Result<SuperBlock, CustomBlockFileSystemError>)
        ensures
            r == Ok::<SuperBlock, CustomBlockFileSystemError>(self.superblock),
    {
        Ok(self.superblock)
    }

    /// Writes `sup` to block 0 and makes it the cached superblock. The file
    /// system stays well formed where `sup` is valid and names the device's
    /// geometry.
    pub fn sup_put(&mut self, sup: &SuperBlock) -> (r: Result<(), CustomBlockFileSystemError>)
        requires
            old(self).wf(),
        ensures
            final(self).device.wf(),
            final(self).device.block_size() == old(self).device.block_size(),
            final(self).device.nblocks() == old(self).device.nblocks(),
            sup_put_post(
                old(self)@,
                old(self).superblock,
                *sup,
                final(self)@,
                final(self).superblock,
                r,
            ),
    {
        let mut block = match self.b_get(0) {
            Ok(b) => b,
            Err(e) => {
                return Err(e);
            },
        };
        match block.serialize_superblock(sup, 0) {
            Ok(()) => {},
            Err(e) => {
                return Err(CustomBlockFileSystemError::GivenError(e));
            },
        }
        match self.b_put(&block) {
            Ok(()) => {},
            Err(e) => {
                return Err(e);
            },
        }
        self.superblock = *sup;
        Ok(())
    }
}

} // verus!
