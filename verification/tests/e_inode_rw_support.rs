use cplfs::a_block_support::CustomBlockFileSystemError;
use cplfs::b_inode_support::CustomInodeFileSystemError;
use cplfs::device::Buffer;
use cplfs::device::DeviceError;
use cplfs::e_inode_rw_support::CustomInodeRWFileSystem;
use cplfs::e_inode_rw_support::CustomInodeRWFileSystemError;
use cplfs::types::FType;
use cplfs::types::Inode;
use cplfs::types::SuperBlock;

fn superblock_good() -> SuperBlock {
    SuperBlock {
        block_size: 1000,
        nblocks: 10,
        ninodes: 8,
        inodestart: 1,
        ndatablocks: 5,
        bmapstart: 4,
        datastart: 5,
    }
}

fn roomy() -> SuperBlock {
    SuperBlock {
        block_size: 120,
        nblocks: 40,
        ninodes: 3,
        inodestart: 1,
        ndatablocks: 30,
        bmapstart: 4,
        datastart: 5,
    }
}

fn fs_with_file(sb: &SuperBlock) -> (CustomInodeRWFileSystem, Inode) {
    let mut my_fs = CustomInodeRWFileSystem::mkfs(sb).unwrap();
    assert_eq!(my_fs.i_alloc(FType::TFile).unwrap(), 1);
    let file = my_fs.i_get(1).unwrap();
    (my_fs, file)
}

#[test]
fn write_hello_world() {
    let (mut my_fs, mut file) = fs_with_file(&superblock_good());
    my_fs.i_write(&mut file, &Buffer::new(b"hello".to_vec()), 0, 5).unwrap();
    assert_eq!(file.get_size(), 5);
    let mut out = Buffer::new_zero(5);
    assert_eq!(my_fs.i_read(&file, &mut out, 0, 5).unwrap(), 5);
    assert_eq!(out.contents_as_ref(), &b"hello".to_vec());

    my_fs.i_write(&mut file, &Buffer::new(b" world".to_vec()), 5, 6).unwrap();
    assert_eq!(file.get_size(), 11);
    assert_eq!(my_fs.i_get(1).unwrap(), file);
    let mut out = Buffer::new_zero(11);
    assert_eq!(my_fs.i_read(&file, &mut out, 0, 11).unwrap(), 11);
    assert_eq!(out.contents_as_ref(), &b"hello world".to_vec());
    assert_eq!(file.get_block(0), 5);
    assert_eq!(file.get_block(1), 0);
}

#[test]
fn write_too_large_changes_nothing() {
    let (mut my_fs, mut file) = fs_with_file(&superblock_good());
    let before = file;
    let buf = Buffer::new_zero(12 * 1000 + 1);
    assert_eq!(
        my_fs.i_write(&mut file, &buf, 0, 12 * 1000 + 1).err(),
        Some(CustomInodeRWFileSystemError::WriteTooLarge)
    );
    assert_eq!(file.get_size(), 0);
    assert_eq!(file, before);
    assert_eq!(my_fs.i_get(1).unwrap(), before);
    assert_eq!(my_fs.b_get(4).unwrap().contents_as_ref()[0], 0);
    assert_eq!(
        my_fs.i_write(&mut file, &buf, 0, u64::MAX).err(),
        Some(CustomInodeRWFileSystemError::BufTooSmall)
    );
}

#[test]
fn write_errors() {
    let (mut my_fs, mut file) = fs_with_file(&superblock_good());
    let buf = Buffer::new(vec![1, 2, 3]);
    assert_eq!(
        my_fs.i_write(&mut file, &buf, 1, 3).err(),
        Some(CustomInodeRWFileSystemError::IndexOutOfBounds)
    );
    assert_eq!(
        my_fs.i_write(&mut file, &buf, 0, 4).err(),
        Some(CustomInodeRWFileSystemError::BufTooSmall)
    );
    my_fs.i_write(&mut file, &buf, 0, 2).unwrap();
    assert_eq!(file.get_size(), 2);
    let mut out = Buffer::new_zero(4);
    assert_eq!(
        my_fs.i_read(&file, &mut out, 3, 1).err(),
        Some(CustomInodeRWFileSystemError::IndexOutOfBounds)
    );
    assert_eq!(my_fs.i_read(&file, &mut out, 2, 1).unwrap(), 0);
    assert_eq!(my_fs.i_read(&file, &mut out, 0, 4).unwrap(), 2);
    assert_eq!(out.contents_as_ref(), &vec![1, 2, 0, 0]);
}

#[test]
fn write_runs_out_of_blocks() {
    let (mut my_fs, mut file) = fs_with_file(&superblock_good());
    let buf = Buffer::new(vec![7u8; 6000]);
    assert_eq!(
        my_fs.i_write(&mut file, &buf, 0, 5001).err(),
        Some(CustomInodeRWFileSystemError::GivenError(CustomInodeFileSystemError::GivenError(
            CustomBlockFileSystemError::NoFreeDataBlock
        )))
    );
    assert_eq!(file.get_size(), 0);
    assert_eq!(file.disk_node.direct_blocks, [5, 6, 7, 8, 9, 0, 0, 0, 0, 0, 0, 0]);
    assert_eq!(my_fs.i_get(1).unwrap().get_block(0), 0);
    assert_eq!(my_fs.b_get(4).unwrap().contents_as_ref()[0], 0b0001_1111);
}

#[test]
fn write_across_blocks_and_read_back() {
    let (mut my_fs, mut file) = fs_with_file(&roomy());
    let data: Vec<u8> = (0..1440u32).map(|i| (i % 251) as u8).collect();
    my_fs.i_write(&mut file, &Buffer::new(data.clone()), 0, 1000).unwrap();
    assert_eq!(file.get_size(), 1000);
    for q in 0..9 {
        assert_eq!(file.get_block(q), 5 + q);
    }
    assert_eq!(file.get_block(9), 0);
    let mut out = Buffer::new_zero(1000);
    assert_eq!(my_fs.i_read(&file, &mut out, 0, 1000).unwrap(), 1000);
    assert_eq!(out.contents_as_ref()[..], data[..1000]);

    let patch = Buffer::new(vec![0xee; 300]);
    my_fs.i_write(&mut file, &patch, 110, 250).unwrap();
    assert_eq!(file.get_size(), 1000);
    let mut out = Buffer::new_zero(400);
    assert_eq!(my_fs.i_read(&file, &mut out, 100, 300).unwrap(), 300);
    assert_eq!(out.contents_as_ref()[..10], data[100..110]);
    assert_eq!(out.contents_as_ref()[10..260], [0xee; 250][..]);
    assert_eq!(out.contents_as_ref()[260..300], data[360..400]);
    assert_eq!(out.contents_as_ref()[300..400], [0u8; 100][..]);

    my_fs.i_write(&mut file, &Buffer::new(data.clone()), 1000, 440).unwrap();
    assert_eq!(file.get_size(), 1440);
    assert_eq!(file.get_block(11), 16);
    let mut out = Buffer::new_zero(440);
    assert_eq!(my_fs.i_read(&file, &mut out, 1000, 440).unwrap(), 440);
    assert_eq!(out.contents_as_ref()[..], data[..440]);
    assert_eq!(
        my_fs.i_write(&mut file, &Buffer::new(data.clone()), 1440, 1).err(),
        Some(CustomInodeRWFileSystemError::WriteTooLarge)
    );
}

#[test]
fn write_takes_the_blocks_that_the_new_bytes_span() {
    let (mut my_fs, mut file) = fs_with_file(&roomy());
    my_fs.i_write(&mut file, &Buffer::new(vec![1u8; 240]), 0, 119).unwrap();
    assert_eq!(file.disk_node.direct_blocks, [5, 0, 0, 0, 0, 0, 0, 0, 0, 0, 0, 0]);
    my_fs.i_write(&mut file, &Buffer::new(vec![2u8; 240]), 119, 121).unwrap();
    assert_eq!(file.get_size(), 240);
    assert_eq!(file.disk_node.direct_blocks, [5, 6, 7, 0, 0, 0, 0, 0, 0, 0, 0, 0]);
    assert_eq!(my_fs.b_get(4).unwrap().contents_as_ref()[0], 0b0000_0111);
}

#[test]
fn write_within_allocated_block_bumps_size() {
    let (mut my_fs, mut file) = fs_with_file(&roomy());
    my_fs.i_write(&mut file, &Buffer::new(vec![1u8; 10]), 0, 10).unwrap();
    my_fs.i_write(&mut file, &Buffer::new(vec![2u8; 110]), 10, 110).unwrap();
    assert_eq!(file.get_size(), 120);
    assert_eq!(file.disk_node.direct_blocks, [5, 0, 0, 0, 0, 0, 0, 0, 0, 0, 0, 0]);
    my_fs.i_write(&mut file, &Buffer::new(vec![3u8; 4]), 2, 4).unwrap();
    assert_eq!(file.get_size(), 120);
    let mut out = Buffer::new_zero(12);
    assert_eq!(my_fs.i_read(&file, &mut out, 0, 12).unwrap(), 12);
    assert_eq!(out.contents_as_ref(), &vec![1, 1, 3, 3, 3, 3, 1, 1, 1, 1, 2, 2]);
}

#[test]
fn read_is_bounded_by_count_buffer_and_size() {
    let (mut my_fs, mut file) = fs_with_file(&roomy());
    let data: Vec<u8> = (0..200u8).collect();
    my_fs.i_write(&mut file, &Buffer::new(data.clone()), 0, 200).unwrap();
    let mut out = Buffer::new(vec![0xaa; 50]);
    assert_eq!(my_fs.i_read(&file, &mut out, 100, 30).unwrap(), 30);
    assert_eq!(out.contents_as_ref()[..30], data[100..130]);
    assert_eq!(out.contents_as_ref()[30..], [0xaa; 20][..]);
    assert_eq!(my_fs.i_read(&file, &mut out, 100, 80).unwrap(), 50);
    assert_eq!(out.contents_as_ref()[..], data[100..150]);
    assert_eq!(my_fs.i_read(&file, &mut out, 180, 80).unwrap(), 20);
    assert_eq!(out.contents_as_ref()[..20], data[180..200]);
    assert_eq!(out.contents_as_ref()[20..], data[120..150]);
    assert_eq!(my_fs.i_read(&file, &mut out, 200, 80).unwrap(), 0);
    assert_eq!(my_fs.i_read(&file, &mut out, 0, 0).unwrap(), 0);
}

#[test]
fn read_stops_at_a_hole_and_fails_at_a_bad_pointer() {
    let (my_fs, _) = fs_with_file(&roomy());
    let holed = Inode::with_blocks(1, &FType::TFile, 0, 360, &[5, 0, 7]).unwrap();
    let mut out = Buffer::new(vec![0xaa; 360]);
    assert_eq!(my_fs.i_read(&holed, &mut out, 100, 260).unwrap(), 20);
    assert_eq!(out.contents_as_ref()[..20], [0u8; 20][..]);
    assert_eq!(out.contents_as_ref()[20..], [0xaa; 340][..]);
    let bad = Inode::with_blocks(1, &FType::TFile, 0, 360, &[5, 40, 7]).unwrap();
    assert_eq!(
        my_fs.i_read(&bad, &mut out, 100, 260).err(),
        Some(CustomInodeRWFileSystemError::GivenError(CustomInodeFileSystemError::GivenError(
            CustomBlockFileSystemError::GivenError(DeviceError::BlockIndexOutOfRange)
        )))
    );
    let long = Inode::with_blocks(1, &FType::TFile, 0, 2000, &[5; 12]).unwrap();
    assert_eq!(my_fs.i_read(&long, &mut out, 1400, 100).unwrap(), 40);
}

#[test]
fn forwarded_inode_calls() {
    let (mut my_fs, mut file) = fs_with_file(&roomy());
    my_fs.i_write(&mut file, &Buffer::new(vec![1u8; 130]), 0, 130).unwrap();
    my_fs.i_trunc(&mut file).unwrap();
    assert_eq!(file, Inode::with_blocks(1, &FType::TFile, 0, 0, &[]).unwrap());
    assert_eq!(my_fs.b_get(4).unwrap().contents_as_ref()[0], 0);
    my_fs.i_free(1).unwrap();
    assert_eq!(
        my_fs.i_free(1).err(),
        Some(CustomInodeRWFileSystemError::GivenError(
            CustomInodeFileSystemError::InodeAlreadyFree
        ))
    );
    let dev = my_fs.unmountfs();
    let my_fs = CustomInodeRWFileSystem::mountfs(dev).unwrap();
    assert_eq!(my_fs.sup_get().unwrap(), roomy());
}
