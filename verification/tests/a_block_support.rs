use cplfs::a_block_support::CustomBlockFileSystem;
use cplfs::a_block_support::CustomBlockFileSystemError;
use cplfs::device::Block;
use cplfs::device::Device;
use cplfs::device::DeviceError;
use cplfs::types::SuperBlock;

fn superblock_good() -> SuperBlock {
    SuperBlock {
        block_size: 300,
        nblocks: 2500,
        ninodes: 3,
        inodestart: 1,
        ndatablocks: 2494,
        bmapstart: 4,
        datastart: 6,
    }
}

fn small() -> SuperBlock {
    SuperBlock {
        block_size: 300,
        nblocks: 10,
        ninodes: 6,
        inodestart: 1,
        ndatablocks: 5,
        bmapstart: 4,
        datastart: 5,
    }
}

#[test]
fn trivial_unit_test() {
    assert_eq!(2, 2);
    assert!(true);
}

#[test]
fn sb_valid() {
    let superblock_bad = SuperBlock {
        block_size: 1000,
        nblocks: 10,
        ninodes: 6,
        inodestart: 1,
        ndatablocks: 20,
        bmapstart: 4,
        datastart: 5,
    };
    let superblock_bad_2 = SuperBlock {
        block_size: 120,
        nblocks: 1000,
        ninodes: 3,
        inodestart: 1,
        ndatablocks: 995,
        bmapstart: 4,
        datastart: 5,
    };
    assert_eq!(CustomBlockFileSystem::sb_valid(&superblock_bad), false);
    assert_eq!(CustomBlockFileSystem::sb_valid(&superblock_bad_2), false);
}

#[test]
fn free_alloc_multiple_bblocks() {
    let sb = superblock_good();
    assert_eq!(CustomBlockFileSystem::sb_valid(&sb), true);
    let mut my_fs = CustomBlockFileSystem::mkfs(&sb).unwrap();
    let mut byte: Vec<u8> = vec![0];
    for i in 0..sb.ndatablocks {
        assert_eq!(my_fs.b_alloc().unwrap(), i);
    }
    assert!(my_fs.b_alloc().is_err());

    let bb = my_fs.b_get(5).unwrap();
    bb.read_data(&mut byte, 0).unwrap();
    assert_eq!(byte[0], 0b1111_1111);

    my_fs.b_free(2400).unwrap();
    assert!(my_fs.b_free(2400).is_err());

    let bb = my_fs.b_get(5).unwrap();
    bb.read_data(&mut byte, 0).unwrap();
    assert_eq!(byte[0], 0b1111_1110);

    let _dev = my_fs.unmountfs();
}

#[test]
fn unit_test() {
}

#[test]
fn sb_valid_checks_each_rule() {
    let good = small();
    assert!(CustomBlockFileSystem::sb_valid(&good));
    let mut sb = good;
    sb.inodestart = 0;
    assert!(!CustomBlockFileSystem::sb_valid(&sb));
    let mut sb = good;
    sb.bmapstart = 1;
    assert!(!CustomBlockFileSystem::sb_valid(&sb));
    let mut sb = good;
    sb.datastart = 4;
    assert!(!CustomBlockFileSystem::sb_valid(&sb));
    let mut sb = good;
    sb.ninodes = 9;
    assert!(!CustomBlockFileSystem::sb_valid(&sb));
    let mut sb = good;
    sb.ninodes = 8;
    assert!(CustomBlockFileSystem::sb_valid(&sb));
    let mut sb = good;
    sb.ndatablocks = 6;
    assert!(!CustomBlockFileSystem::sb_valid(&sb));
    let mut sb = good;
    sb.nblocks = 9;
    assert!(!CustomBlockFileSystem::sb_valid(&sb));
}

#[test]
fn sb_valid_bitmap_must_hold_every_bit() {
    let mut sb = SuperBlock {
        block_size: 100,
        nblocks: 1000,
        ninodes: 1,
        inodestart: 1,
        ndatablocks: 800,
        bmapstart: 3,
        datastart: 4,
    };
    assert!(CustomBlockFileSystem::sb_valid(&sb));
    sb.ndatablocks = 801;
    assert!(!CustomBlockFileSystem::sb_valid(&sb));
}

#[test]
fn sb_valid_takes_the_largest_numbers() {
    let sb = SuperBlock {
        block_size: u64::MAX,
        nblocks: u64::MAX,
        ninodes: u64::MAX,
        inodestart: 1,
        ndatablocks: u64::MAX - 3,
        bmapstart: 2,
        datastart: 3,
    };
    assert!(!CustomBlockFileSystem::sb_valid(&sb));
    let sb = SuperBlock {
        block_size: u64::MAX,
        nblocks: u64::MAX,
        ninodes: 0,
        inodestart: 1,
        ndatablocks: u64::MAX - 3,
        bmapstart: 2,
        datastart: 3,
    };
    assert!(CustomBlockFileSystem::sb_valid(&sb));
}

#[test]
fn mkfs_rejects_invalid_superblock() {
    let mut sb = small();
    sb.ndatablocks = 20;
    assert_eq!(
        CustomBlockFileSystem::mkfs(&sb).err(),
        Some(CustomBlockFileSystemError::InvalidSuperBlock)
    );
}

#[test]
fn mkfs_rejects_block_too_small_for_superblock() {
    let sb = SuperBlock {
        block_size: 55,
        nblocks: 10,
        ninodes: 0,
        inodestart: 1,
        ndatablocks: 5,
        bmapstart: 4,
        datastart: 5,
    };
    assert_eq!(
        CustomBlockFileSystem::mkfs(&sb).err(),
        Some(CustomBlockFileSystemError::GivenError(DeviceError::OutOfBounds))
    );
}

#[test]
fn mkfs_rejects_block_size_beyond_the_cap() {
    let sb = SuperBlock {
        block_size: 0x1555_5555_5555_5556,
        nblocks: 3,
        ninodes: 0,
        inodestart: 1,
        ndatablocks: 0,
        bmapstart: 2,
        datastart: 3,
    };
    assert_eq!(
        CustomBlockFileSystem::mkfs(&sb).err(),
        Some(CustomBlockFileSystemError::GivenError(DeviceError::TooLarge))
    );
}

#[test]
fn mkfs_writes_superblock_to_block_zero() {
    let sb = small();
    let my_fs = CustomBlockFileSystem::mkfs(&sb).unwrap();
    let b0 = my_fs.b_get(0).unwrap();
    assert_eq!(b0.deserialize_superblock(0).unwrap(), sb);
    assert_eq!(my_fs.sup_get().unwrap(), sb);
    let mut expected = vec![0u8; 300];
    expected[0] = 0x2c;
    expected[1] = 0x01;
    expected[8] = 10;
    expected[16] = 6;
    expected[24] = 1;
    expected[32] = 5;
    expected[40] = 4;
    expected[48] = 5;
    assert_eq!(b0.contents_as_ref(), &expected);
    for i in 1..10 {
        assert_eq!(my_fs.b_get(i).unwrap().contents_as_ref(), &vec![0u8; 300]);
    }
}

#[test]
fn mount_round_trip() {
    let sb = small();
    let mut my_fs = CustomBlockFileSystem::mkfs(&sb).unwrap();
    assert_eq!(my_fs.b_alloc().unwrap(), 0);
    let dev = my_fs.unmountfs();
    let my_fs = CustomBlockFileSystem::mountfs(dev).unwrap();
    assert_eq!(my_fs.sup_get().unwrap(), sb);
    assert_eq!(my_fs.b_get(4).unwrap().contents_as_ref()[0], 1);
}

#[test]
fn mount_rejects_blank_device() {
    let dev = Device::new(300, 10).unwrap();
    assert_eq!(
        CustomBlockFileSystem::mountfs(dev).err(),
        Some(CustomBlockFileSystemError::InvalidSuperBlock)
    );
}

#[test]
fn mount_rejects_other_geometry() {
    let sb = small();
    let mut block = Block::new_zero(0, 300);
    block.serialize_superblock(&sb, 0).unwrap();
    let mut dev = Device::new(300, 11).unwrap();
    dev.write_block(&block).unwrap();
    assert_eq!(
        CustomBlockFileSystem::mountfs(dev).err(),
        Some(CustomBlockFileSystemError::IncompatibleDeviceSuperBlock)
    );
}

#[test]
fn mount_rejects_device_without_blocks() {
    let dev = Device::new(300, 0).unwrap();
    assert_eq!(
        CustomBlockFileSystem::mountfs(dev).err(),
        Some(CustomBlockFileSystemError::GivenError(DeviceError::BlockIndexOutOfRange))
    );
    let dev = Device::new(20, 4).unwrap();
    assert_eq!(
        CustomBlockFileSystem::mountfs(dev).err(),
        Some(CustomBlockFileSystemError::GivenError(DeviceError::OutOfBounds))
    );
}

#[test]
fn b_get_and_b_put() {
    let mut my_fs = CustomBlockFileSystem::mkfs(&small()).unwrap();
    let mut data = vec![0u8; 300];
    data[7] = 9;
    my_fs.b_put(&Block::new(8, data.clone())).unwrap();
    assert_eq!(my_fs.b_get(8).unwrap(), Block::new(8, data));
    assert_eq!(
        my_fs.b_get(10).err(),
        Some(CustomBlockFileSystemError::GivenError(DeviceError::BlockIndexOutOfRange))
    );
    assert_eq!(
        my_fs.b_put(&Block::new_zero(10, 300)).err(),
        Some(CustomBlockFileSystemError::GivenError(DeviceError::BlockIndexOutOfRange))
    );
    assert_eq!(
        my_fs.b_put(&Block::new_zero(8, 299)).err(),
        Some(CustomBlockFileSystemError::GivenError(DeviceError::BlockSizeMismatch))
    );
}

#[test]
fn b_alloc_sets_bit_and_zeroes_block() {
    let mut my_fs = CustomBlockFileSystem::mkfs(&small()).unwrap();
    my_fs.b_put(&Block::new(5, vec![7u8; 300])).unwrap();
    my_fs.b_put(&Block::new(6, vec![7u8; 300])).unwrap();
    assert_eq!(my_fs.b_alloc().unwrap(), 0);
    assert_eq!(my_fs.b_get(4).unwrap().contents_as_ref()[0], 0b0000_0001);
    assert_eq!(my_fs.b_get(5).unwrap().contents_as_ref(), &vec![0u8; 300]);
    assert_eq!(my_fs.b_get(6).unwrap().contents_as_ref(), &vec![7u8; 300]);
    assert_eq!(my_fs.b_alloc().unwrap(), 1);
    assert_eq!(my_fs.b_get(4).unwrap().contents_as_ref()[0], 0b0000_0011);
    assert_eq!(my_fs.b_get(6).unwrap().contents_as_ref(), &vec![0u8; 300]);
}

#[test]
fn b_alloc_takes_the_least_free_block() {
    let mut my_fs = CustomBlockFileSystem::mkfs(&small()).unwrap();
    for i in 0..5 {
        assert_eq!(my_fs.b_alloc().unwrap(), i);
    }
    assert_eq!(my_fs.b_alloc().err(), Some(CustomBlockFileSystemError::NoFreeDataBlock));
    my_fs.b_free(3).unwrap();
    my_fs.b_free(1).unwrap();
    assert_eq!(my_fs.b_get(4).unwrap().contents_as_ref()[0], 0b0001_0101);
    assert_eq!(my_fs.b_alloc().unwrap(), 1);
    assert_eq!(my_fs.b_alloc().unwrap(), 3);
    assert_eq!(my_fs.b_alloc().err(), Some(CustomBlockFileSystemError::NoFreeDataBlock));
}

#[test]
fn b_free_twice_fails() {
    let mut my_fs = CustomBlockFileSystem::mkfs(&small()).unwrap();
    assert_eq!(my_fs.b_alloc().unwrap(), 0);
    my_fs.b_free(0).unwrap();
    assert_eq!(my_fs.b_free(0).err(), Some(CustomBlockFileSystemError::BlockIsAlreadyFree));
    assert_eq!(my_fs.b_free(5).err(), Some(CustomBlockFileSystemError::DataIndexOutOfBounds));
}

#[test]
fn b_zero_bounds() {
    let mut my_fs = CustomBlockFileSystem::mkfs(&small()).unwrap();
    my_fs.b_put(&Block::new(9, vec![7u8; 300])).unwrap();
    my_fs.b_zero(4).unwrap();
    assert_eq!(my_fs.b_get(9).unwrap().contents_as_ref(), &vec![0u8; 300]);
    assert_eq!(my_fs.b_zero(5).err(), Some(CustomBlockFileSystemError::DataIndexOutOfBounds));
}

#[test]
fn sup_put_replaces_the_cache() {
    let sb = small();
    let mut my_fs = CustomBlockFileSystem::mkfs(&sb).unwrap();
    let mut other = sb;
    other.ninodes = 5;
    my_fs.sup_put(&other).unwrap();
    assert_eq!(my_fs.sup_get().unwrap(), other);
    assert_eq!(my_fs.b_get(0).unwrap().deserialize_superblock(0).unwrap(), other);
}

#[test]
fn block_read_and_write_data() {
    let mut b = Block::new_zero(3, 10);
    b.write_data(&vec![1, 2, 3], 7).unwrap();
    assert_eq!(b.contents_as_ref(), &vec![0, 0, 0, 0, 0, 0, 0, 1, 2, 3]);
    assert_eq!(b.write_data(&vec![1, 2, 3], 8).err(), Some(DeviceError::OutOfBounds));
    let mut out = vec![9u8; 2];
    b.read_data(&mut out, 7).unwrap();
    assert_eq!(out, vec![1, 2]);
    assert_eq!(b.read_data(&mut out, 9).err(), Some(DeviceError::OutOfBounds));
    assert_eq!(out, vec![1, 2]);
    assert_eq!(b.len(), 10);
}
