use cplfs::a_block_support::CustomBlockFileSystemError;
use cplfs::b_inode_support::CustomInodeFileSystemError;
use cplfs::c_dirs_support::CustomDirFileSystem;
use cplfs::c_dirs_support::CustomDirFileSystemError;
use cplfs::device::DeviceError;
use cplfs::types::DirEntry;
use cplfs::types::FType;
use cplfs::types::Inode;
use cplfs::types::SuperBlock;

const BLOCK_SIZE: u64 = 1000;
const NBLOCKS: u64 = 10;

fn superblock_good() -> SuperBlock {
    SuperBlock {
        block_size: BLOCK_SIZE,
        nblocks: NBLOCKS,
        ninodes: 8,
        inodestart: 1,
        ndatablocks: 5,
        bmapstart: 4,
        datastart: 5,
    }
}

#[test]
fn dirlookup_link_new_block() {
    let mut my_fs = CustomDirFileSystem::mkfs(&superblock_good()).unwrap();

    let mut i2 = Inode::with_blocks(
        5,
        &FType::TDir,
        0,
        (2.5 * (BLOCK_SIZE as f32)) as u64,
        &[5, 6, 7],
    )
    .unwrap();
    my_fs.i_put(&i2).unwrap();

    for i in 0..4 {
        assert_eq!(my_fs.b_alloc().unwrap(), i);
    }
    for i in 0..3 {
        assert_eq!(my_fs.i_alloc(FType::TFile).unwrap(), i + 2);
    }
    for i in 0..135 {
        let mut string = i.to_string();
        let front = "test";
        string.push_str(front);
        let _res = my_fs.dirlink(&mut i2, &string, 2).unwrap();
    }
    assert_eq!(my_fs.dirlink(&mut i2, "nieuweblock", 2).unwrap(), 3000);
    assert_eq!(i2.disk_node.size, 3022);
    assert_eq!(my_fs.dirlink(&mut i2, "nieuweblock2", 2).unwrap(), 3022);
    assert_eq!(i2.disk_node.size, 3044);
    assert_eq!(my_fs.dirlink(&mut i2, "nieuweblock3", 2).unwrap(), 3044);
    assert_eq!(i2.disk_node.size, 3066);
    let _dev = my_fs.unmountfs();
}

#[test]
fn dirlookup_extend_block() {
    let mut my_fs = CustomDirFileSystem::mkfs(&superblock_good()).unwrap();

    let mut i2 = Inode::with_blocks(
        5,
        &FType::TDir,
        0,
        (2.5 * (BLOCK_SIZE as f32)) as u64,
        &[5, 6, 7],
    )
    .unwrap();
    my_fs.i_put(&i2).unwrap();
    for i in 0..3 {
        assert_eq!(my_fs.b_alloc().unwrap(), i);
    }
    for i in 0..3 {
        assert_eq!(my_fs.i_alloc(FType::TFile).unwrap(), i + 2);
    }
    for i in 0..112 {
        let mut string = i.to_string();
        let front = "test";
        string.push_str(front);
        let _res = my_fs.dirlink(&mut i2, &string, 2).unwrap();
    }

    assert_eq!(my_fs.dirlink(&mut i2, "extendblock", 2).unwrap(), 2484);
    assert_eq!(i2.disk_node.size, 2506);
    assert_eq!(my_fs.dirlink(&mut i2, "extendblock2", 2).unwrap(), 2506);
    assert_eq!(i2.disk_node.size, 2528);
    assert_eq!(my_fs.dirlink(&mut i2, "extendblock3", 2).unwrap(), 2528);
    assert_eq!(i2.disk_node.size, 2550);
    let _dev = my_fs.unmountfs();
}

#[test]
fn mkfs_makes_the_root_directory() {
    let my_fs = CustomDirFileSystem::mkfs(&superblock_good()).unwrap();
    let root = my_fs.i_get(1).unwrap();
    assert_eq!(root, Inode::with_blocks(1, &FType::TDir, 1, 0, &[]).unwrap());
    assert_eq!(my_fs.i_get(0).unwrap().get_ft(), FType::TFree);
    assert_eq!(my_fs.i_get(2).unwrap().get_ft(), FType::TFree);
}

#[test]
fn mkfs_needs_an_inode_for_the_root() {
    let mut sb = superblock_good();
    sb.ninodes = 1;
    assert_eq!(
        CustomDirFileSystem::mkfs(&sb).err(),
        Some(CustomDirFileSystemError::GivenError(
            CustomInodeFileSystemError::InodeIndexOutOfBounds
        ))
    );
}

#[test]
fn names_that_are_accepted() {
    for name in [".", "..", "a", "abc123", "ABCDEFGHIJKLMN", "12345678901234", "\u{e9}t\u{e9}", "\u{4e2d}\u{6587}"] {
        let de = CustomDirFileSystem::new_de(7, name).unwrap();
        assert_eq!(de.inum, 7);
        assert_eq!(CustomDirFileSystem::get_name_str(&de), name);
    }
}

#[test]
fn names_that_are_refused() {
    for name in [
        "",
        "...",
        ".a",
        "a.b",
        "a b",
        "a-b",
        "a_b",
        "a/b",
        "a\0",
        "ABCDEFGHIJKLMNO",
        "\u{e9}\u{e9}\u{e9}\u{e9}\u{e9}\u{e9}\u{e9}a",
    ] {
        assert!(CustomDirFileSystem::new_de(7, name).is_none());
    }
    assert!(
        CustomDirFileSystem::new_de(7, "\u{e9}\u{e9}\u{e9}\u{e9}\u{e9}\u{e9}\u{e9}").is_some()
    );
}

#[test]
fn set_name_str_keeps_entry_on_refusal() {
    let mut de = CustomDirFileSystem::new_de(7, "first").unwrap();
    assert_eq!(CustomDirFileSystem::set_name_str(&mut de, "no good"), None);
    assert_eq!(CustomDirFileSystem::get_name_str(&de), "first");
    assert_eq!(de.inum, 7);
    assert_eq!(CustomDirFileSystem::set_name_str(&mut de, "second"), Some(()));
    assert_eq!(CustomDirFileSystem::get_name_str(&de), "second");
    assert_eq!(de.inum, 7);
    let mut expected = ['\0'; 14];
    expected[0] = 's';
    expected[1] = 'e';
    expected[2] = 'c';
    expected[3] = 'o';
    expected[4] = 'n';
    expected[5] = 'd';
    assert_eq!(de.name, expected);
}

#[test]
fn get_name_str_stops_at_first_nul() {
    let mut de = DirEntry::default();
    assert_eq!(CustomDirFileSystem::get_name_str(&de), "");
    de.name = ['x'; 14];
    assert_eq!(CustomDirFileSystem::get_name_str(&de), "xxxxxxxxxxxxxx");
    de.name[3] = '\0';
    assert_eq!(CustomDirFileSystem::get_name_str(&de), "xxx");
}

fn fs_with_dir() -> (CustomDirFileSystem, Inode) {
    let mut my_fs = CustomDirFileSystem::mkfs(&superblock_good()).unwrap();
    assert_eq!(my_fs.i_alloc(FType::TDir).unwrap(), 2);
    assert_eq!(my_fs.i_alloc(FType::TFile).unwrap(), 3);
    let dir = my_fs.i_get(2).unwrap();
    (my_fs, dir)
}

#[test]
fn dirlink_then_dirlookup() {
    let (mut my_fs, mut dir) = fs_with_dir();
    assert_eq!(my_fs.dirlink(&mut dir, "file", 3).unwrap(), 0);
    assert_eq!(dir.disk_node.size, 22);
    assert_eq!(dir.disk_node.direct_blocks[0], 5);
    assert_eq!(my_fs.i_get(2).unwrap(), dir);
    assert_eq!(my_fs.i_get(3).unwrap().get_nlink(), 1);
    let (found, offset) = my_fs.dirlookup(&dir, "file").unwrap();
    assert_eq!(offset, 0);
    assert_eq!(found, my_fs.i_get(3).unwrap());

    assert_eq!(my_fs.dirlink(&mut dir, "\u{e9}t\u{e9}", 3).unwrap(), 22);
    assert_eq!(my_fs.i_get(3).unwrap().get_nlink(), 2);
    let (found, offset) = my_fs.dirlookup(&dir, "\u{e9}t\u{e9}").unwrap();
    assert_eq!(offset, 22);
    assert_eq!(found.inum, 3);
    assert_eq!(
        my_fs.dirlookup(&dir, "ete").err(),
        Some(CustomDirFileSystemError::NoEntryFoundForName)
    );
}

#[test]
fn directory_entry_layout() {
    let (mut my_fs, mut dir) = fs_with_dir();
    assert_eq!(my_fs.dirlink(&mut dir, "a\u{e9}", 0x0103).err(), Some(
        CustomDirFileSystemError::GivenError(CustomInodeFileSystemError::InodeIndexOutOfBounds)
    ));
    assert_eq!(my_fs.dirlink(&mut dir, "a\u{e9}", 3).unwrap(), 0);
    let block = my_fs.b_get(5).unwrap();
    let bytes = block.contents_as_ref();
    assert_eq!(&bytes[0..8], &[3, 0, 0, 0, 0, 0, 0, 0]);
    assert_eq!(&bytes[8..11], &[0x61, 0xc3, 0xa9]);
    assert_eq!(&bytes[11..1000], &[0u8; 989][..]);
    assert_eq!(block.deserialize_direntry(0).unwrap(), CustomDirFileSystem::new_de(3, "a\u{e9}").unwrap());
}

#[test]
fn dirlink_to_self_counts_no_link() {
    let (mut my_fs, mut dir) = fs_with_dir();
    assert_eq!(my_fs.dirlink(&mut dir, ".", 2).unwrap(), 0);
    assert_eq!(my_fs.i_get(2).unwrap().get_nlink(), 0);
    assert_eq!(my_fs.dirlink(&mut dir, "..", 1).unwrap(), 22);
    assert_eq!(my_fs.i_get(1).unwrap().get_nlink(), 2);
    let (found, offset) = my_fs.dirlookup(&dir, ".").unwrap();
    assert_eq!((found.inum, offset), (2, 0));
}

#[test]
fn dirlink_duplicate_leaves_directory_unchanged() {
    let (mut my_fs, mut dir) = fs_with_dir();
    assert_eq!(my_fs.dirlink(&mut dir, "file", 3).unwrap(), 0);
    let before = dir;
    let block_before = my_fs.b_get(5).unwrap();
    let bitmap_before = my_fs.b_get(4).unwrap();
    assert_eq!(
        my_fs.dirlink(&mut dir, "file", 3).err(),
        Some(CustomDirFileSystemError::InvalidEntryName)
    );
    assert_eq!(dir, before);
    assert_eq!(my_fs.i_get(2).unwrap(), before);
    assert_eq!(my_fs.b_get(5).unwrap(), block_before);
    assert_eq!(my_fs.b_get(4).unwrap(), bitmap_before);
    assert_eq!(my_fs.i_get(3).unwrap().get_nlink(), 1);
}

#[test]
fn dirlink_errors_in_order() {
    let (mut my_fs, mut dir) = fs_with_dir();
    let mut file = my_fs.i_get(3).unwrap();
    assert_eq!(
        my_fs.dirlink(&mut file, "bad name", 4).err(),
        Some(CustomDirFileSystemError::InodeWrongType)
    );
    assert_eq!(
        my_fs.dirlink(&mut dir, "bad name", 4).err(),
        Some(CustomDirFileSystemError::DirectoryInodeNotInUse)
    );
    assert_eq!(
        my_fs.dirlink(&mut dir, "bad name", 3).err(),
        Some(CustomDirFileSystemError::InvalidEntryName)
    );
    assert_eq!(
        my_fs.dirlink(&mut dir, "good", 8).err(),
        Some(CustomDirFileSystemError::GivenError(
            CustomInodeFileSystemError::InodeIndexOutOfBounds
        ))
    );
    assert_eq!(
        my_fs.dirlookup(&file, "x").err(),
        Some(CustomDirFileSystemError::InodeWrongType)
    );
}

#[test]
fn dirlink_reuses_the_first_empty_slot() {
    let (mut my_fs, mut dir) = fs_with_dir();
    for (i, name) in ["a", "b", "c"].iter().enumerate() {
        assert_eq!(my_fs.dirlink(&mut dir, name, 3).unwrap(), 22 * i as u64);
    }
    let mut block = my_fs.b_get(5).unwrap();
    block.serialize_direntry(&DirEntry::default(), 22).unwrap();
    my_fs.b_put(&block).unwrap();
    assert_eq!(
        my_fs.dirlookup(&dir, "b").err(),
        Some(CustomDirFileSystemError::NoEntryFoundForName)
    );
    assert_eq!(my_fs.dirlink(&mut dir, "d", 3).unwrap(), 22);
    assert_eq!(dir.disk_node.size, 66);
    assert_eq!(my_fs.dirlookup(&dir, "c").unwrap().1, 44);
    assert_eq!(my_fs.dirlookup(&dir, "d").unwrap().1, 22);
}

#[test]
fn dirlink_fails_when_all_pointers_are_used() {
    let (mut my_fs, _) = fs_with_dir();
    for i in 0..5 {
        assert_eq!(my_fs.b_alloc().unwrap(), i);
    }
    let mut block = my_fs.b_get(5).unwrap();
    let taken = CustomDirFileSystem::new_de(3, "taken").unwrap();
    for s in 0..45 {
        block.serialize_direntry(&taken, 22 * s).unwrap();
    }
    my_fs.b_put(&block).unwrap();
    let mut dir = Inode::with_blocks(2, &FType::TDir, 0, 12 * BLOCK_SIZE, &[5; 12]).unwrap();
    my_fs.i_put(&dir).unwrap();
    assert_eq!(
        my_fs.dirlink(&mut dir, "more", 3).err(),
        Some(CustomDirFileSystemError::InodeBlocksFull)
    );
}

#[test]
fn dirlink_fails_when_no_block_is_free() {
    let (mut my_fs, mut dir) = fs_with_dir();
    for i in 0..5 {
        assert_eq!(my_fs.b_alloc().unwrap(), i);
    }
    assert_eq!(
        my_fs.dirlink(&mut dir, "more", 3).err(),
        Some(CustomDirFileSystemError::GivenError(CustomInodeFileSystemError::GivenError(
            CustomBlockFileSystemError::NoFreeDataBlock
        )))
    );
    assert_eq!(dir.disk_node.size, 0);
}

#[test]
fn dirlookup_reports_unreadable_blocks_and_entries() {
    let (mut my_fs, _) = fs_with_dir();
    let dir = Inode::with_blocks(2, &FType::TDir, 0, 30, &[10]).unwrap();
    assert_eq!(
        my_fs.dirlookup(&dir, "x").err(),
        Some(CustomDirFileSystemError::GivenError(CustomInodeFileSystemError::GivenError(
            CustomBlockFileSystemError::GivenError(DeviceError::BlockIndexOutOfRange)
        )))
    );
    let mut block = my_fs.b_get(5).unwrap();
    block.write_data(&vec![0xff], 8).unwrap();
    my_fs.b_put(&block).unwrap();
    let dir = Inode::with_blocks(2, &FType::TDir, 0, 30, &[5]).unwrap();
    assert_eq!(
        my_fs.dirlookup(&dir, "x").err(),
        Some(CustomDirFileSystemError::APIError(DeviceError::Malformed))
    );
    let dir = Inode::with_blocks(2, &FType::TDir, 0, 30, &[0]).unwrap();
    assert_eq!(
        my_fs.dirlookup(&dir, "x").err(),
        Some(CustomDirFileSystemError::NoEntryFoundForName)
    );
}
