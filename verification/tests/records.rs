use cplfs::codec::decode_dinode;
use cplfs::codec::decode_superblock;
use cplfs::codec::encode_dinode;
use cplfs::codec::encode_superblock;
use cplfs::device::Block;
use cplfs::device::Buffer;
use cplfs::device::Device;
use cplfs::device::DeviceError;
use cplfs::layout::bit_pos;
use cplfs::names::decode_direntry;
use cplfs::names::encode_direntry;
use cplfs::names::every_char_alphanumeric;
use cplfs::names::get_name;
use cplfs::names::name_accepted;
use cplfs::names::name_to_field;
use cplfs::types::DInode;
use cplfs::types::DirEntry;
use cplfs::types::FType;
use cplfs::types::SuperBlock;

#[test]
fn name_rule_given_the_answer_on_its_characters() {
    assert!(name_accepted("abc", true));
    assert!(!name_accepted("abc", false));
    assert!(name_accepted(".", false));
    assert!(name_accepted("..", false));
    assert!(!name_accepted("...", false));
    assert!(!name_accepted("", true));
    assert!(name_accepted("12345678901234", true));
    assert!(!name_accepted("123456789012345", true));
    assert!(!name_accepted("a\0b", true));
    assert!(name_accepted("\u{e9}\u{e9}\u{e9}\u{e9}\u{e9}\u{e9}\u{e9}", true));
    assert!(!name_accepted("\u{e9}\u{e9}\u{e9}\u{e9}\u{e9}\u{e9}\u{e9}\u{e9}", true));
}

#[test]
fn alphanumeric_characters() {
    assert!(every_char_alphanumeric(""));
    assert!(every_char_alphanumeric("abcXYZ019"));
    assert!(every_char_alphanumeric("\u{e9}\u{4e2d}\u{0663}"));
    assert!(!every_char_alphanumeric("abc."));
    assert!(!every_char_alphanumeric(" abc"));
    assert!(!every_char_alphanumeric("ab\0"));
}

#[test]
fn name_field_is_padded_with_nul() {
    let field = name_to_field("ab");
    let mut expected = ['\0'; 14];
    expected[0] = 'a';
    expected[1] = 'b';
    assert_eq!(field, expected);
    assert_eq!(name_to_field(""), ['\0'; 14]);
    assert_eq!(name_to_field("abcdefghijklmn"), [
        'a', 'b', 'c', 'd', 'e', 'f', 'g', 'h', 'i', 'j', 'k', 'l', 'm', 'n'
    ]);
    assert_eq!(get_name(&DirEntry { inum: 1, name: field }), "ab");
}

#[test]
fn superblock_encoding() {
    let sb = SuperBlock {
        block_size: 0x0102_0304_0506_0708,
        nblocks: 2,
        ninodes: 3,
        inodestart: 4,
        ndatablocks: 5,
        bmapstart: 6,
        datastart: u64::MAX,
    };
    let bytes = encode_superblock(&sb);
    assert_eq!(bytes.len(), 56);
    assert_eq!(&bytes[0..8], &[8, 7, 6, 5, 4, 3, 2, 1]);
    assert_eq!(&bytes[8..16], &[2, 0, 0, 0, 0, 0, 0, 0]);
    assert_eq!(&bytes[16..24], &[3, 0, 0, 0, 0, 0, 0, 0]);
    assert_eq!(&bytes[24..32], &[4, 0, 0, 0, 0, 0, 0, 0]);
    assert_eq!(&bytes[32..40], &[5, 0, 0, 0, 0, 0, 0, 0]);
    assert_eq!(&bytes[40..48], &[6, 0, 0, 0, 0, 0, 0, 0]);
    assert_eq!(&bytes[48..56], &[0xff; 8]);
    let mut padded = vec![9u8; 3];
    padded.extend_from_slice(&bytes);
    assert_eq!(decode_superblock(&padded, 3), sb);
}

#[test]
fn inode_encoding() {
    let d = DInode {
        ft: FType::TDir,
        nlink: 0xfffe,
        size: 1,
        direct_blocks: [1, 2, 3, 4, 5, 6, 7, 8, 9, 10, 11, 0x0c0d],
    };
    let bytes = encode_dinode(&d);
    assert_eq!(bytes.len(), 110);
    assert_eq!(&bytes[0..6], &[0, 0, 0, 0, 0xfe, 0xff]);
    assert_eq!(&bytes[6..14], &[1, 0, 0, 0, 0, 0, 0, 0]);
    assert_eq!(&bytes[14..22], &[1, 0, 0, 0, 0, 0, 0, 0]);
    assert_eq!(&bytes[102..110], &[0x0d, 0x0c, 0, 0, 0, 0, 0, 0]);
    assert_eq!(decode_dinode(&bytes, 0), Some(d));
    let mut bad = bytes.clone();
    bad[1] = 1;
    assert_eq!(decode_dinode(&bad, 0), None);
    let free = encode_dinode(&DInode::default());
    assert_eq!(&free[0..4], &[2, 0, 0, 0]);
    assert_eq!(&free[4..110], &[0u8; 106][..]);
}

#[test]
fn directory_entry_encoding() {
    let mut de = DirEntry { inum: 0x0102, name: ['\0'; 14] };
    de.name[0] = 'a';
    de.name[1] = '\u{20ac}';
    de.name[3] = 'z';
    let bytes = encode_direntry(&de).unwrap();
    assert_eq!(bytes, vec![2, 1, 0, 0, 0, 0, 0, 0, 0x61, 0xe2, 0x82, 0xac, 0, 0, 0, 0, 0, 0, 0, 0, 0, 0]);
    let back = decode_direntry(&bytes, 0).unwrap();
    assert_eq!(back.inum, 0x0102);
    assert_eq!(get_name(&back), "a\u{20ac}");
    let mut expected = ['\0'; 14];
    expected[0] = 'a';
    expected[1] = '\u{20ac}';
    assert_eq!(back.name, expected);
    let mut bad = bytes.clone();
    bad[10] = 0x20;
    assert_eq!(decode_direntry(&bad, 0), None);
}

#[test]
fn directory_entry_with_too_long_a_name_has_no_encoding() {
    let de = DirEntry { inum: 1, name: ['\u{e9}'; 14] };
    assert_eq!(encode_direntry(&de), None);
    let mut block = Block::new_zero(0, 100);
    assert_eq!(block.serialize_direntry(&de, 0).err(), Some(DeviceError::Unencodable));
    assert_eq!(block, Block::new_zero(0, 100));
    let fits = DirEntry { inum: 1, name: ['e'; 14] };
    assert_eq!(block.serialize_direntry(&fits, 79).err(), Some(DeviceError::OutOfBounds));
    block.serialize_direntry(&fits, 78).unwrap();
    assert_eq!(block.deserialize_direntry(78).unwrap(), fits);
    assert_eq!(block.deserialize_direntry(79).err(), Some(DeviceError::OutOfBounds));
}

#[test]
fn bit_positions() {
    let sb = SuperBlock {
        block_size: 300,
        nblocks: 2500,
        ninodes: 3,
        inodestart: 1,
        ndatablocks: 2494,
        bmapstart: 4,
        datastart: 6,
    };
    assert_eq!(bit_pos(&sb, 0), (4, 0, 0b0000_0001));
    assert_eq!(bit_pos(&sb, 7), (4, 0, 0b1000_0000));
    assert_eq!(bit_pos(&sb, 8), (4, 1, 0b0000_0001));
    assert_eq!(bit_pos(&sb, 2399), (4, 299, 0b1000_0000));
    assert_eq!(bit_pos(&sb, 2400), (5, 0, 0b0000_0001));
    assert_eq!(bit_pos(&sb, 2493), (5, 11, 0b0010_0000));
}

#[test]
fn device_blocks() {
    let mut dev = Device::new(4, 3).unwrap();
    assert_eq!(dev.block_size(), 4);
    assert_eq!(dev.nblocks(), 3);
    assert_eq!(dev.read_block(2).unwrap(), Block::new_zero(2, 4));
    assert_eq!(dev.read_block(3).err(), Some(DeviceError::BlockIndexOutOfRange));
    dev.write_block(&Block::new(1, vec![1, 2, 3, 4])).unwrap();
    assert_eq!(dev.read_block(1).unwrap().contents_as_ref(), &vec![1, 2, 3, 4]);
    assert_eq!(dev.read_block(0).unwrap().contents_as_ref(), &vec![0, 0, 0, 0]);
    assert_eq!(
        dev.write_block(&Block::new(3, vec![1, 2, 3, 4])).err(),
        Some(DeviceError::BlockIndexOutOfRange)
    );
    assert_eq!(
        dev.write_block(&Block::new(1, vec![1, 2, 3])).err(),
        Some(DeviceError::BlockSizeMismatch)
    );
    assert_eq!(dev.read_block(1).unwrap().contents_as_ref(), &vec![1, 2, 3, 4]);
}

#[test]
fn buffer_read_and_write_data() {
    let mut buf = Buffer::new(vec![1, 2, 3, 4, 5]);
    assert_eq!(buf.len(), 5);
    buf.write_data(&vec![9, 9], 3).unwrap();
    assert_eq!(buf.contents_as_ref(), &vec![1, 2, 3, 9, 9]);
    assert_eq!(buf.write_data(&vec![9, 9], 4).err(), Some(DeviceError::OutOfBounds));
    let mut out = vec![0u8; 3];
    buf.read_data(&mut out, 2).unwrap();
    assert_eq!(out, vec![3, 9, 9]);
    assert_eq!(buf.read_data(&mut out, 3).err(), Some(DeviceError::OutOfBounds));
    assert_eq!(Buffer::new_zero(3).contents_as_ref(), &vec![0, 0, 0]);
}
