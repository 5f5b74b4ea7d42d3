use cplfs::a_block_support::CustomBlockFileSystemError;
use cplfs::b_inode_support::CustomInodeFileSystem;
use cplfs::b_inode_support::CustomInodeFileSystemError;
use cplfs::device::Block;
use cplfs::device::DeviceError;
use cplfs::types::DInode;
use cplfs::types::FType;
use cplfs::types::Inode;
use cplfs::types::SuperBlock;

const BLOCK_SIZE: u64 = 300;

fn superblock_good() -> SuperBlock {
    SuperBlock {
        block_size: BLOCK_SIZE,
        nblocks: 10,
        ninodes: 6,
        inodestart: 1,
        ndatablocks: 5,
        bmapstart: 4,
        datastart: 5,
    }
}

#[test]
fn mkfs_multiple_inode_blocks() {
    let my_fs = CustomInodeFileSystem::mkfs(&superblock_good()).unwrap();
    let sb = my_fs.b_get(0).unwrap();
    assert_eq!(sb.deserialize_superblock(0).unwrap(), superblock_good());
    assert_eq!(my_fs.sup_get().unwrap(), superblock_good());

    assert_eq!(my_fs.i_get(1).unwrap().get_ft(), FType::TFree);
    assert_eq!(my_fs.i_get(5).unwrap().get_ft(), FType::TFree);
    assert!(my_fs.i_get(6).is_err());

    let _dev = my_fs.unmountfs();
}

#[test]
fn get_put_multiple_inode_blocks() {
    let mut my_fs = CustomInodeFileSystem::mkfs(&superblock_good()).unwrap();

    let i1 = Inode::with_blocks(5, &FType::TFile, 0, 2 * BLOCK_SIZE, &[2, 3]).unwrap();

    let b1 = my_fs.b_get(superblock_good().inodestart + 2).unwrap();
    my_fs.i_put(&i1).unwrap();
    assert_eq!(my_fs.i_get(5).unwrap(), i1);
    let dev = my_fs.unmountfs();
    assert_ne!(b1, dev.read_block(superblock_good().inodestart + 2).unwrap());
}

#[test]
fn free_alloc_multiple_inode_blocks() {
    let mut my_fs = CustomInodeFileSystem::mkfs(&superblock_good()).unwrap();

    for i in 0..(superblock_good().ninodes - 1) {
        assert_eq!(my_fs.i_alloc(FType::TFile).unwrap(), i + 1);
    }
    let i1 = my_fs.i_get(2).unwrap();
    assert_eq!(i1.get_ft(), FType::TFile);
    assert_eq!(i1.get_size(), 0);
    assert_eq!(i1.get_nlink(), 0);

    assert!(my_fs.i_alloc(FType::TDir).is_err());

    my_fs.i_free(5).unwrap();
    my_fs.i_free(2).unwrap();
    assert_eq!(my_fs.i_get(2).unwrap().get_ft(), FType::TFree);
    assert_eq!(my_fs.i_alloc(FType::TDir).unwrap(), 2);
    assert_eq!(my_fs.i_get(2).unwrap().get_ft(), FType::TDir);

    let i1 = Inode::with_blocks(
        5,
        &FType::TFile,
        1,
        (2.5 * (BLOCK_SIZE as f32)) as u64,
        &[2, 3, 4],
    )
    .unwrap();

    my_fs.i_put(&i1).unwrap();
    assert!(my_fs.b_free(2).is_err());
    assert_eq!(my_fs.i_get(5).unwrap().get_ft(), FType::TFile);

    for i in 0..4 {
        assert_eq!(my_fs.b_alloc().unwrap(), i);
    }

    let i2 = Inode::with_blocks(
        4,
        &FType::TFile,
        0,
        (1.5 * (BLOCK_SIZE as f32)) as u64,
        &[7, 8],
    )
    .unwrap();

    my_fs.i_put(&i2).unwrap();
    my_fs.i_free(4).unwrap();
    assert!(my_fs.b_free(2).is_err());
    assert!(my_fs.b_free(3).is_err());

    let _dev = my_fs.unmountfs();
}

#[test]
fn itrunc_mutliple_inode_blocks() {
    let mut my_fs = CustomInodeFileSystem::mkfs(&superblock_good()).unwrap();

    for i in 0..5 {
        assert_eq!(my_fs.b_alloc().unwrap(), i);
    }
    let i2 = Inode::with_blocks(
        5,
        &FType::TFile,
        0,
        (1.5 * (BLOCK_SIZE as f32)) as u64,
        &[6, 7, 8],
    )
    .unwrap();
    my_fs.i_put(&i2).unwrap();
    let mut i3 = my_fs.i_get(5).unwrap();
    my_fs.i_trunc(&mut i3).unwrap();
    assert_eq!(my_fs.i_get(5).unwrap(), i3);
    assert_eq!(i3.get_ft(), FType::TFile);
    assert_eq!(i3.get_size(), 0);
    assert_eq!(i3.get_nlink(), 0);

    assert!(my_fs.b_free(1).is_err());
    assert!(my_fs.b_free(2).is_err());
    assert!(my_fs.b_free(3).is_ok());

    let _dev = my_fs.unmountfs();
}

#[test]
fn mkfs_leaves_every_inode_free() {
    let my_fs = CustomInodeFileSystem::mkfs(&superblock_good()).unwrap();
    for i in 0..6 {
        let ino = my_fs.i_get(i).unwrap();
        assert_eq!(ino, Inode::new(i, DInode::default()));
    }
    assert_eq!(
        my_fs.i_get(6).err(),
        Some(CustomInodeFileSystemError::InodeIndexOutOfBounds)
    );
}

#[test]
fn inode_record_layout() {
    let mut my_fs = CustomInodeFileSystem::mkfs(&superblock_good()).unwrap();
    let ino =
        Inode::with_blocks(3, &FType::TFile, 0x0102, 0x0a0b_0c0d, &[5, 0x0100, 7]).unwrap();
    my_fs.i_put(&ino).unwrap();
    let block = my_fs.b_get(2).unwrap();
    let bytes = block.contents_as_ref();
    assert_eq!(&bytes[0..4], &[2, 0, 0, 0]);
    assert_eq!(&bytes[110..114], &[1, 0, 0, 0]);
    assert_eq!(&bytes[114..116], &[2, 1]);
    assert_eq!(&bytes[116..124], &[0x0d, 0x0c, 0x0b, 0x0a, 0, 0, 0, 0]);
    assert_eq!(&bytes[124..132], &[5, 0, 0, 0, 0, 0, 0, 0]);
    assert_eq!(&bytes[132..140], &[0, 1, 0, 0, 0, 0, 0, 0]);
    assert_eq!(&bytes[140..148], &[7, 0, 0, 0, 0, 0, 0, 0]);
    assert_eq!(&bytes[148..220], &[0u8; 72][..]);
    assert_eq!(&bytes[220..300], &[0u8; 80][..]);
}

#[test]
fn i_get_rejects_unknown_type_tag() {
    let mut my_fs = CustomInodeFileSystem::mkfs(&superblock_good()).unwrap();
    let mut block = my_fs.b_get(1).unwrap();
    block.write_data(&vec![3, 0, 0, 0], 110).unwrap();
    my_fs.b_put(&block).unwrap();
    assert_eq!(
        my_fs.i_get(1).err(),
        Some(CustomInodeFileSystemError::APIError(DeviceError::Malformed))
    );
    assert_eq!(my_fs.i_get(0).unwrap().get_ft(), FType::TFree);
    assert_eq!(
        my_fs.i_alloc(FType::TFile).err(),
        Some(CustomInodeFileSystemError::APIError(DeviceError::Malformed))
    );
}

#[test]
fn i_put_beyond_the_device_fails() {
    let mut my_fs = CustomInodeFileSystem::mkfs(&superblock_good()).unwrap();
    let ino = Inode::new(18, DInode::default());
    assert_eq!(
        my_fs.i_put(&ino).err(),
        Some(CustomInodeFileSystemError::GivenError(CustomBlockFileSystemError::GivenError(
            DeviceError::BlockIndexOutOfRange
        )))
    );
    let ino = Inode::new(17, DInode::default());
    my_fs.i_put(&ino).unwrap();
    let ino = Inode::new(u64::MAX, DInode::default());
    assert!(my_fs.i_put(&ino).is_err());
}

#[test]
fn inode_zero_is_never_allocated() {
    let mut my_fs = CustomInodeFileSystem::mkfs(&superblock_good()).unwrap();
    for i in 1..6 {
        assert_eq!(my_fs.i_alloc(FType::TDir).unwrap(), i);
    }
    assert_eq!(my_fs.i_alloc(FType::TDir).err(), Some(CustomInodeFileSystemError::NoFreeInode));
    assert_eq!(my_fs.i_get(0).unwrap().get_ft(), FType::TFree);
}

#[test]
fn i_alloc_resets_size_and_links_and_keeps_pointers() {
    let mut my_fs = CustomInodeFileSystem::mkfs(&superblock_good()).unwrap();
    let stale = Inode::with_blocks(1, &FType::TFree, 4, 77, &[9]).unwrap();
    my_fs.i_put(&stale).unwrap();
    assert_eq!(my_fs.i_alloc(FType::TFile).unwrap(), 1);
    let got = my_fs.i_get(1).unwrap();
    assert_eq!(got, Inode::with_blocks(1, &FType::TFile, 0, 0, &[9]).unwrap());
}

#[test]
fn i_free_errors() {
    let mut my_fs = CustomInodeFileSystem::mkfs(&superblock_good()).unwrap();
    assert_eq!(my_fs.i_free(6).err(), Some(CustomInodeFileSystemError::InodeIndexOutOfBounds));
    assert_eq!(my_fs.i_free(3).err(), Some(CustomInodeFileSystemError::InodeAlreadyFree));
    let ino = Inode::with_blocks(3, &FType::TFile, 0, 10, &[4]).unwrap();
    my_fs.i_put(&ino).unwrap();
    assert_eq!(
        my_fs.i_free(3).err(),
        Some(CustomInodeFileSystemError::GivenError(
            CustomBlockFileSystemError::DataIndexOutOfBounds
        ))
    );
    let ino = Inode::with_blocks(3, &FType::TFile, 0, 10, &[5]).unwrap();
    my_fs.i_put(&ino).unwrap();
    assert_eq!(
        my_fs.i_free(3).err(),
        Some(CustomInodeFileSystemError::GivenError(
            CustomBlockFileSystemError::BlockIsAlreadyFree
        ))
    );
    assert_eq!(my_fs.i_get(3).unwrap(), ino);
}

#[test]
fn i_free_releases_only_blocks_within_size() {
    let mut my_fs = CustomInodeFileSystem::mkfs(&superblock_good()).unwrap();
    for i in 0..5 {
        assert_eq!(my_fs.b_alloc().unwrap(), i);
    }
    let ino = Inode::with_blocks(3, &FType::TFile, 0, 301, &[5, 0, 7, 8]).unwrap();
    my_fs.i_put(&ino).unwrap();
    my_fs.i_free(3).unwrap();
    assert_eq!(my_fs.b_get(4).unwrap().contents_as_ref()[0], 0b0001_1110);
    let got = my_fs.i_get(3).unwrap();
    assert_eq!(got, Inode::with_blocks(3, &FType::TFree, 0, 301, &[]).unwrap());
}

#[test]
fn i_free_keeps_linked_inode() {
    let mut my_fs = CustomInodeFileSystem::mkfs(&superblock_good()).unwrap();
    assert_eq!(my_fs.b_alloc().unwrap(), 0);
    let ino = Inode::with_blocks(3, &FType::TDir, 2, 10, &[5]).unwrap();
    my_fs.i_put(&ino).unwrap();
    my_fs.i_free(3).unwrap();
    assert_eq!(my_fs.i_get(3).unwrap(), ino);
    assert_eq!(my_fs.b_get(4).unwrap().contents_as_ref()[0], 1);
}

#[test]
fn i_trunc_stops_at_first_refusal() {
    let mut my_fs = CustomInodeFileSystem::mkfs(&superblock_good()).unwrap();
    for i in 0..3 {
        assert_eq!(my_fs.b_alloc().unwrap(), i);
    }
    let mut ino = Inode::with_blocks(3, &FType::TFile, 0, 900, &[5, 9, 6]).unwrap();
    let before = ino;
    assert_eq!(
        my_fs.i_trunc(&mut ino).err(),
        Some(CustomInodeFileSystemError::GivenError(
            CustomBlockFileSystemError::BlockIsAlreadyFree
        ))
    );
    assert_eq!(ino, before);
    assert_eq!(my_fs.b_get(4).unwrap().contents_as_ref()[0], 0b0000_0110);
}

#[test]
fn inode_builder_and_getters() {
    assert!(Inode::with_blocks(1, &FType::TFile, 65536, 0, &[]).is_none());
    assert!(Inode::with_blocks(1, &FType::TFile, 0, 0, &[1; 13]).is_none());
    let ino = Inode::with_blocks(4, &FType::TDir, 65535, 12, &[1; 12]).unwrap();
    assert_eq!(ino.get_inum(), 4);
    assert_eq!(ino.get_ft(), FType::TDir);
    assert_eq!(ino.get_nlink(), 65535);
    assert_eq!(ino.get_size(), 12);
    assert_eq!(ino.get_block(11), 1);
    assert_eq!(ino.get_block(12), 0);
}

#[test]
fn small_blocks_hold_no_inode() {
    let sb = SuperBlock {
        block_size: 100,
        nblocks: 10,
        ninodes: 2,
        inodestart: 1,
        ndatablocks: 5,
        bmapstart: 4,
        datastart: 5,
    };
    assert_eq!(
        CustomInodeFileSystem::mkfs(&sb).err(),
        Some(CustomInodeFileSystemError::APIError(DeviceError::OutOfBounds))
    );
    let mut none = sb;
    none.ninodes = 0;
    let my_fs = CustomInodeFileSystem::mkfs(&none).unwrap();
    assert_eq!(my_fs.i_get(0).err(), Some(CustomInodeFileSystemError::InodeIndexOutOfBounds));
}

#[test]
fn forwarded_block_calls() {
    let mut my_fs = CustomInodeFileSystem::mkfs(&superblock_good()).unwrap();
    assert_eq!(my_fs.b_alloc().unwrap(), 0);
    my_fs.b_put(&Block::new(5, vec![1u8; 300])).unwrap();
    my_fs.b_zero(0).unwrap();
    assert_eq!(my_fs.b_get(5).unwrap().contents_as_ref(), &vec![0u8; 300]);
    my_fs.b_free(0).unwrap();
    assert_eq!(
        my_fs.b_free(0).err(),
        Some(CustomInodeFileSystemError::GivenError(
            CustomBlockFileSystemError::BlockIsAlreadyFree
        ))
    );
    let mut other = superblock_good();
    other.ninodes = 5;
    my_fs.sup_put(&other).unwrap();
    assert_eq!(my_fs.sup_get().unwrap(), other);
}
