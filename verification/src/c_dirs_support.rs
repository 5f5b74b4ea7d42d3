//! The directory layer: directories as arrays of entries in the data blocks
//! of an inode, the search for a name and the insertion of a new entry.
use crate::a_block_support::b_alloc_post;
use crate::a_block_support::b_free_post;
use crate::a_block_support::b_get_post;
use crate::a_block_support::b_put_post;
use crate::a_block_support::b_zero_post;
use crate::a_block_support::first_free;
use crate::a_block_support::lemma_first_free_exists;
use crate::a_block_support::lemma_first_free_unique;
use crate::a_block_support::mount_error;
use crate::a_block_support::mounted_sb;
use crate::a_block_support::none_free;
use crate::a_block_support::sup_put_post;
use crate::a_block_support::CustomBlockFileSystemError;
use crate::a_block_support::MAX_BLOCK_SIZE;
use crate::b_inode_support::block_result;
use crate::b_inode_support::fresh_inode_disk;
use crate::b_inode_support::from_block;
use crate::b_inode_support::i_alloc_post;
use crate::b_inode_support::i_free_spec;
use crate::b_inode_support::i_get_post;
use crate::b_inode_support::i_get_spec;
use crate::b_inode_support::i_put_post;
use crate::b_inode_support::i_trunc_spec;
use crate::b_inode_support::inode_block;
use crate::b_inode_support::inode_mkfs_error;
use crate::b_inode_support::lemma_put_inode_same;
use crate::b_inode_support::lemma_slot;
use crate::b_inode_support::lemma_used_blocks;
use crate::b_inode_support::lemma_mkfs_all_free;
use crate::b_inode_support::no_blocks;
use crate::b_inode_support::put_inode;
use crate::b_inode_support::slot_error;
use crate::b_inode_support::used_blocks;
use crate::b_inode_support::count_used_blocks;
use crate::b_inode_support::CustomInodeFileSystem;
use crate::b_inode_support::CustomInodeFileSystemError;
use crate::device::splice;
use crate::device::zeros;
use crate::device::Block;
use crate::device::Device;
use crate::device::DeviceError;
use crate::layout::bitmap_bit;
use crate::layout::disk_fits;
use crate::layout::lemma_bit_pos;
use crate::layout::lemma_set_bit;
use crate::layout::sb_valid_spec;
use crate::layout::set_bit;
use crate::names::direntry_bytes;
use crate::names::encodable;
use crate::names::lemma_direntry_roundtrip;
use crate::names::direntry_parse;
use crate::names::every_char_alphanumeric;
use crate::names::get_name;
use crate::names::lemma_encode_len;
use crate::names::lemma_padded_prefix;
use crate::names::name_accepted;
use crate::names::name_ok;
use crate::names::name_prefix;
use crate::names::name_to_field;
use crate::names::padded;
use crate::types::DInode;
use crate::types::DInodeView;
use crate::types::DirEntry;
use crate::types::DirEntryView;
use crate::types::FType;
use crate::types::Inode;
use crate::types::SuperBlock;
use crate::types::DIRENTRY_SIZE;
use vstd::prelude::*;
use vstd::string::*;

verus! {

/// A file system that knows of blocks, inodes and directories.
pub struct CustomDirFileSystem {
    /// The inode layer below.
    pub inode_fs: CustomInodeFileSystem,
}

/// What the directory layer can refuse.
#[derive(Clone, Copy, Debug, PartialEq, Eq, Structural)]
pub enum CustomDirFileSystemError {
    /// The inode layer refused.
    GivenError(CustomInodeFileSystemError),
    /// A block refused an access, or its bytes encode no entry.
    APIError(DeviceError),
    /// The directory holds no entry of that name.
    NoEntryFoundForName,
    /// The inode is no directory.
    InodeWrongType,
    /// The name breaks the rule for names, or the directory holds it already.
    InvalidEntryName,
    /// The inode to link to is free.
    DirectoryInodeNotInUse,
    /// The directory has no block pointer left for another block.
    InodeBlocksFull,
}

impl View for CustomDirFileSystem {
    type V = Seq<Seq<u8>>;

    open spec fn view(&self) -> Seq<Seq<u8>> {
        self.inode_fs@
    }
}

/// The result came from the inode layer, or is a success.
pub open spec fn from_inode<T>(r: Result<T, CustomDirFileSystemError>) -> bool {
    r is Err ==> r->Err_0 is GivenError
}

/// The result as the inode layer gave it.
pub open spec fn inode_result<T>(r: Result<T, CustomDirFileSystemError>) -> Result<
    T,
    CustomInodeFileSystemError,
> {
    match r {
        Ok(v) => Ok(v),
        Err(e) => Err(e->GivenError_0),
    }
}

/// Number of entries that one block holds.
pub open spec fn dpb(sb: SuperBlock) -> int {
    sb.block_size as int / 22
}

/// The entry in slot `s` of block `blk`, if the bytes there encode one.
pub open spec fn entry_at(disk: Seq<Seq<u8>>, blk: int, s: int) -> Option<DirEntryView> {
    direntry_parse(disk[blk].subrange(22 * s, 22 * s + 22))
}

/// The error of a block pointer that names no block of the device.
pub open spec fn block_error() -> CustomDirFileSystemError {
    CustomDirFileSystemError::GivenError(
        CustomInodeFileSystemError::GivenError(
            CustomBlockFileSystemError::GivenError(DeviceError::BlockIndexOutOfRange),
        ),
    )
}

/// How a search through the slots of a directory ends.
pub enum SlotSearch {
    /// At slot `s` of the block that pointer `k` names.
    Found { k: int, s: int },
    /// At the end, with nothing found.
    Missing,
    /// At a block or an entry that could not be read.
    Failed(CustomDirFileSystemError),
}

/// The search for the entry named `name`, from slot `s` of the block of
/// pointer `k` on. The blocks that hold the directory's content are walked
/// in order; pointers that are 0 are passed over; in a block, the slots are
/// walked while their offset in the block is below the directory's size;
/// slots with inode number 0 are empty.
pub open spec fn lookup_from(
    disk: Seq<Seq<u8>>,
    sb: SuperBlock,
    d: DInodeView,
    name: Seq<char>,
    k: int,
    s: int,
) -> SlotSearch
    decreases used_blocks(d.size, sb.block_size) - k, dpb(sb) - s,
{
    if k < 0 || s < 0 || k >= used_blocks(d.size, sb.block_size) {
        SlotSearch::Missing
    } else if d.direct_blocks[k] == 0 {
        lookup_from(disk, sb, d, name, k + 1, 0)
    } else if d.direct_blocks[k] >= sb.nblocks {
        SlotSearch::Failed(block_error())
    } else if s >= dpb(sb) || (s > 0 && 22 * s >= d.size) {
        lookup_from(disk, sb, d, name, k + 1, 0)
    } else {
        match entry_at(disk, d.direct_blocks[k] as int, s) {
            None => SlotSearch::Failed(CustomDirFileSystemError::APIError(DeviceError::Malformed)),
            Some(e) => if e.inum != 0 && name_prefix(e.name) == name {
                SlotSearch::Found { k, s }
            } else {
                lookup_from(disk, sb, d, name, k, s + 1)
            },
        }
    }
}

/// What `dirlookup` gives for `name` in the directory with record `d`: the
/// number and the record of the inode that the entry names, and the offset
/// of the entry in the directory's content.
pub open spec fn dirlookup_spec(disk: Seq<Seq<u8>>, sb: SuperBlock, d: DInodeView, name: Seq<char>)
    -> Result<(u64, DInodeView, u64), CustomDirFileSystemError> {
    if d.ft != FType::TDir {
        Err(CustomDirFileSystemError::InodeWrongType)
    } else {
        match lookup_from(disk, sb, d, name, 0, 0) {
            SlotSearch::Missing => Err(CustomDirFileSystemError::NoEntryFoundForName),
            SlotSearch::Failed(e) => Err(e),
            SlotSearch::Found { k, s } => {
                let e = entry_at(disk, d.direct_blocks[k] as int, s)->Some_0;
                match i_get_spec(disk, sb, e.inum) {
                    Err(err) => Err(CustomDirFileSystemError::GivenError(err)),
                    Ok(t) => Ok((e.inum, t, (sb.block_size * k + 22 * s) as u64)),
                }
            },
        }
    }
}

/// What `dirlookup` returns.
pub open spec fn dirlookup_post(
    disk: Seq<Seq<u8>>,
    sb: SuperBlock,
    d: DInodeView,
    name: Seq<char>,
    r: Result<(Inode, u64), CustomDirFileSystemError>,
) -> bool {
    match r {
        Ok(found) => dirlookup_spec(disk, sb, d, name) == Ok::<
            (u64, DInodeView, u64),
            CustomDirFileSystemError,
        >((found.0.inum, found.0.disk_node@, found.1)),
        Err(e) => dirlookup_spec(disk, sb, d, name) == Err::<
            (u64, DInodeView, u64),
            CustomDirFileSystemError,
        >(e),
    }
}

/// The search for an empty slot, from slot `s` of the block of pointer `k`
/// on, through every slot of the blocks that hold the directory's content.
pub open spec fn free_slot_from(disk: Seq<Seq<u8>>, sb: SuperBlock, d: DInodeView, k: int, s: int)
    -> SlotSearch
    decreases used_blocks(d.size, sb.block_size) - k, dpb(sb) - s,
{
    if k < 0 || s < 0 || k >= used_blocks(d.size, sb.block_size) {
        SlotSearch::Missing
    } else if d.direct_blocks[k] == 0 {
        free_slot_from(disk, sb, d, k + 1, 0)
    } else if d.direct_blocks[k] >= sb.nblocks {
        SlotSearch::Failed(block_error())
    } else if s >= dpb(sb) {
        free_slot_from(disk, sb, d, k + 1, 0)
    } else {
        match entry_at(disk, d.direct_blocks[k] as int, s) {
            None => SlotSearch::Failed(CustomDirFileSystemError::APIError(DeviceError::Malformed)),
            Some(e) => if e.inum == 0 {
                SlotSearch::Found { k, s }
            } else {
                free_slot_from(disk, sb, d, k, s + 1)
            },
        }
    }
}

/// The record `t` with one link more. The count is kept in 16 bits and
/// starts again at 0 after 65535.
pub open spec fn one_more_link(t: DInodeView) -> DInodeView {
    DInodeView {
        ft: t.ft,
        nlink: if t.nlink == 65535 {
            0u16
        } else {
            (t.nlink + 1) as u16
        },
        size: t.size,
        direct_blocks: t.direct_blocks,
    }
}

/// The disk after the link to inode `inum`, whose record was `t`, is
/// counted. An entry of a directory for itself is not counted.
pub open spec fn count_link(
    disk: Seq<Seq<u8>>,
    sb: SuperBlock,
    dir_inum: u64,
    inum: u64,
    t: DInodeView,
) -> Seq<Seq<u8>> {
    if inum != dir_inum {
        put_inode(disk, sb, inum as int, one_more_link(t))
    } else {
        disk
    }
}

/// The record `d` with the size `size`.
pub open spec fn with_size(d: DInodeView, size: int) -> DInodeView {
    DInodeView { ft: d.ft, nlink: d.nlink, size: size as u64, direct_blocks: d.direct_blocks }
}

/// What writing `entry` into the empty slot `s` of the block of pointer `k`
/// makes of the disk and of the directory's record, and the offset at which
/// the entry then stands. Where the slot reaches to the directory's end or
/// beyond it, the directory grows to hold the slot.
pub open spec fn link_in_slot(
    disk: Seq<Seq<u8>>,
    sb: SuperBlock,
    dir_inum: u64,
    d: DInodeView,
    entry: DirEntryView,
    t: DInodeView,
    k: int,
    s: int,
) -> (Seq<Seq<u8>>, DInodeView, Result<u64, CustomDirFileSystemError>) {
    let at = sb.block_size * k + 22 * s;
    let blk = d.direct_blocks[k] as int;
    let written = splice(disk[blk], 22 * s, direntry_bytes(entry));
    if at + 22 >= d.size {
        let grown = with_size(d, at + 22);
        match slot_error(sb, dir_inum as int) {
            Some(e) => (disk, grown, Err(CustomDirFileSystemError::GivenError(e))),
            None => (
                count_link(
                    put_inode(disk, sb, dir_inum as int, grown).update(blk, written),
                    sb,
                    dir_inum,
                    entry.inum,
                    t,
                ),
                grown,
                Ok(at as u64),
            ),
        }
    } else {
        (count_link(disk.update(blk, written), sb, dir_inum, entry.inum, t), d, Ok(at as u64))
    }
}

/// What giving the directory one block more, with `entry` in its first
/// slot, makes of the disk and of the directory's record, and the offset at
/// which the entry then stands.
pub open spec fn link_in_new_block(
    disk: Seq<Seq<u8>>,
    sb: SuperBlock,
    dir_inum: u64,
    d: DInodeView,
    entry: DirEntryView,
    t: DInodeView,
) -> (Seq<Seq<u8>>, DInodeView, Result<u64, CustomDirFileSystemError>) {
    let nb = used_blocks(d.size, sb.block_size);
    if nb >= 12 {
        (disk, d, Err(CustomDirFileSystemError::InodeBlocksFull))
    } else if none_free(disk, sb) {
        (
            disk,
            d,
            Err(
                CustomDirFileSystemError::GivenError(
                    CustomInodeFileSystemError::GivenError(
                        CustomBlockFileSystemError::NoFreeDataBlock,
                    ),
                ),
            ),
        )
    } else {
        let j = choose|j: int| first_free(disk, sb, j);
        let blk = sb.datastart + j;
        let taken = set_bit(disk, sb, j).update(blk, zeros(sb.block_size as nat));
        let grown = DInodeView {
            ft: d.ft,
            nlink: d.nlink,
            size: (sb.block_size * nb + 22) as u64,
            direct_blocks: d.direct_blocks.update(nb, blk as u64),
        };
        match slot_error(sb, dir_inum as int) {
            Some(e) => (taken, grown, Err(CustomDirFileSystemError::GivenError(e))),
            None => (
                count_link(
                    put_inode(taken, sb, dir_inum as int, grown).update(
                        blk,
                        splice(zeros(sb.block_size as nat), 0, direntry_bytes(entry)),
                    ),
                    sb,
                    dir_inum,
                    entry.inum,
                    t,
                ),
                grown,
                Ok((sb.block_size * nb) as u64),
            ),
        }
    }
}

/// What `dirlink` of `name` to inode `inum`, in the directory `dir_inum`
/// with record `d`, makes of the disk and of the directory's record, and the
/// offset at which the new entry stands.
pub open spec fn dirlink_spec(
    disk: Seq<Seq<u8>>,
    sb: SuperBlock,
    dir_inum: u64,
    d: DInodeView,
    name: Seq<char>,
    inum: u64,
) -> (Seq<Seq<u8>>, DInodeView, Result<u64, CustomDirFileSystemError>) {
    if d.ft != FType::TDir {
        (disk, d, Err(CustomDirFileSystemError::InodeWrongType))
    } else {
        match i_get_spec(disk, sb, inum) {
            Err(e) => (disk, d, Err(CustomDirFileSystemError::GivenError(e))),
            Ok(t) => if t.ft == FType::TFree {
                (disk, d, Err(CustomDirFileSystemError::DirectoryInodeNotInUse))
            } else if !name_ok(name) {
                (disk, d, Err(CustomDirFileSystemError::InvalidEntryName))
            } else if dirlookup_spec(disk, sb, d, name) is Ok {
                (disk, d, Err(CustomDirFileSystemError::InvalidEntryName))
            } else {
                let entry = DirEntryView { inum: inum, name: padded(name) };
                match free_slot_from(disk, sb, d, 0, 0) {
                    SlotSearch::Failed(e) => (disk, d, Err(e)),
                    SlotSearch::Found { k, s } => link_in_slot(
                        disk,
                        sb,
                        dir_inum,
                        d,
                        entry,
                        t,
                        k,
                        s,
                    ),
                    SlotSearch::Missing => link_in_new_block(disk, sb, dir_inum, d, entry, t),
                }
            },
        }
    }
}

/// The record of the root directory after `mkfs`.
pub open spec fn root_dinode() -> DInodeView {
    DInodeView { ft: FType::TDir, nlink: 1, size: 0, direct_blocks: no_blocks() }
}

/// The error with which the directory layer's `mkfs` refuses `sb`, if it
/// does.
pub open spec fn dir_mkfs_error(sb: SuperBlock) -> Option<CustomDirFileSystemError> {
    match inode_mkfs_error(sb) {
        Some(e) => Some(CustomDirFileSystemError::GivenError(e)),
        None => if sb.ninodes <= 1 {
            Some(
                CustomDirFileSystemError::GivenError(
                    CustomInodeFileSystemError::InodeIndexOutOfBounds,
                ),
            )
        } else {
            None
        },
    }
}

/// A name that the directory holds already is refused, and neither the disk
/// nor the directory's record changes.
pub proof fn lemma_dirlink_duplicate(
    disk: Seq<Seq<u8>>,
    sb: SuperBlock,
    dir_inum: u64,
    d: DInodeView,
    name: Seq<char>,
    inum: u64,
)
    requires
        d.ft == FType::TDir,
        i_get_spec(disk, sb, inum) is Ok,
        i_get_spec(disk, sb, inum)->Ok_0.ft != FType::TFree,
        dirlookup_spec(disk, sb, d, name) is Ok,
    ensures
        dirlink_spec(disk, sb, dir_inum, d, name, inum) == (
            disk,
            d,
            Err::<u64, CustomDirFileSystemError>(CustomDirFileSystemError::InvalidEntryName),
        ),
{
}

/// The pointers that hold the directory's content name data blocks that the
/// bitmap marks as in use, no two of them the same block.
pub open spec fn dir_blocks_sound(disk: Seq<Seq<u8>>, sb: SuperBlock, d: DInodeView) -> bool {
    let nb = used_blocks(d.size, sb.block_size);
    &&& forall|m: int|
        0 <= m < nb && d.direct_blocks[m] != 0 ==> {
            &&& sb.datastart <= #[trigger] d.direct_blocks[m] < sb.datastart + sb.ndatablocks
            &&& bitmap_bit(disk, sb, d.direct_blocks[m] - sb.datastart)
        }
    &&& forall|m1: int, m2: int|
        0 <= m1 < nb && 0 <= m2 < nb && m1 != m2 && d.direct_blocks[m1] != 0 ==> #[trigger] d.direct_blocks[m1]
            != #[trigger] d.direct_blocks[m2]
}

/// Every slot that starts at or beyond the directory's size, counted from
/// the start of its block, reads as an empty slot.
pub open spec fn dir_tidy(disk: Seq<Seq<u8>>, sb: SuperBlock, d: DInodeView) -> bool {
    forall|k: int, s: int|
        0 <= k < used_blocks(d.size, sb.block_size) && d.direct_blocks[k] != 0 && 1 <= s < dpb(sb)
            && 22 * s >= d.size ==> {
            &&& (#[trigger] entry_at(disk, d.direct_blocks[k] as int, s)) is Some
            &&& entry_at(disk, d.direct_blocks[k] as int, s)->Some_0.inum == 0
        }
}

/// The slot `(k0, s0)` comes before the slot `(k, s)` in the order of the
/// search.
pub open spec fn slot_before(k0: int, s0: int, k: int, s: int) -> bool {
    k0 < k || (k0 == k && s0 < s)
}

/// Where the search for an empty slot ends at a slot, that slot lies in a
/// block of the directory, at or after the slot the search began with, and
/// reads as empty.
pub proof fn lemma_free_slot_found(
    disk: Seq<Seq<u8>>,
    sb: SuperBlock,
    d: DInodeView,
    k0: int,
    s0: int,
)
    requires
        0 <= k0,
        0 <= s0,
        free_slot_from(disk, sb, d, k0, s0) is Found,
    ensures
        ({
            let k = free_slot_from(disk, sb, d, k0, s0)->k;
            let s = free_slot_from(disk, sb, d, k0, s0)->s;
            &&& k0 <= k < used_blocks(d.size, sb.block_size)
            &&& (k == k0 ==> s0 <= s)
            &&& 0 <= s < dpb(sb)
            &&& 0 < d.direct_blocks[k] < sb.nblocks
            &&& entry_at(disk, d.direct_blocks[k] as int, s) is Some
            &&& entry_at(disk, d.direct_blocks[k] as int, s)->Some_0.inum == 0
        }),
    decreases used_blocks(d.size, sb.block_size) - k0, dpb(sb) - s0,
{
    if k0 < used_blocks(d.size, sb.block_size) {
        if d.direct_blocks[k0] == 0 {
            lemma_free_slot_found(disk, sb, d, k0 + 1, 0);
        } else if d.direct_blocks[k0] >= sb.nblocks {
        } else if s0 >= dpb(sb) {
            lemma_free_slot_found(disk, sb, d, k0 + 1, 0);
        } else {
            let e = entry_at(disk, d.direct_blocks[k0] as int, s0);
            if e is Some && e->Some_0.inum != 0 {
                lemma_free_slot_found(disk, sb, d, k0, s0 + 1);
            }
        }
    }
}

/// The walk of the two searches through a directory before and after an
/// entry was written into the slot `(k, s)`: where, before, the search for
/// the name found nothing and the search for an empty slot ended at `(k, s)`
/// or, for a slot in a new block, at the end, the search for the name
/// afterwards ends at `(k, s)`.
pub proof fn lemma_lookup_reaches(
    pre: Seq<Seq<u8>>,
    post: Seq<Seq<u8>>,
    sb: SuperBlock,
    d: DInodeView,
    d2: DInodeView,
    name: Seq<char>,
    k0: int,
    s0: int,
    k: int,
    s: int,
)
    requires
        sb.block_size >= 22,
        0 <= k0,
        0 <= s0,
        0 <= k < used_blocks(d2.size, sb.block_size),
        k <= used_blocks(d.size, sb.block_size),
        d.size <= d2.size,
        forall|m: int|
            0 <= m < used_blocks(d.size, sb.block_size) && m != k ==> d2.direct_blocks[m]
                == d.direct_blocks[m],
        k < used_blocks(d.size, sb.block_size) ==> d2.direct_blocks[k] == d.direct_blocks[k],
        0 < d2.direct_blocks[k] < sb.nblocks,
        0 <= s < dpb(sb),
        s == 0 || 22 * s < d2.size,
        entry_at(post, d2.direct_blocks[k] as int, s) is Some,
        entry_at(post, d2.direct_blocks[k] as int, s)->Some_0.inum != 0,
        name_prefix(entry_at(post, d2.direct_blocks[k] as int, s)->Some_0.name) == name,
        forall|k1: int, s1: int|
            0 <= k1 < used_blocks(d.size, sb.block_size) && 0 <= s1 < dpb(sb) && slot_before(
                k1,
                s1,
                k,
                s,
            ) && 0 < d.direct_blocks[k1] < sb.nblocks ==> #[trigger] entry_at(
                post,
                d.direct_blocks[k1] as int,
                s1,
            ) == entry_at(pre, d.direct_blocks[k1] as int, s1),
        k0 < k || (k0 == k && s0 <= s),
        free_slot_from(pre, sb, d, k0, s0) == (if k < used_blocks(d.size, sb.block_size) {
            SlotSearch::Found { k, s }
        } else {
            SlotSearch::Missing
        }),
        k >= used_blocks(d.size, sb.block_size) ==> s == 0,
        lookup_from(pre, sb, d, name, k0, s0) == SlotSearch::Missing,
        dir_tidy(pre, sb, d),
    ensures
        lookup_from(post, sb, d2, name, k0, s0) == (SlotSearch::Found { k, s }),
    decreases k - k0, dpb(sb) - s0,
{
    let nb = used_blocks(d.size, sb.block_size);
    if k0 == k && s0 == s {
    } else if k0 >= nb {
    } else if d.direct_blocks[k0] == 0 {
        lemma_lookup_reaches(pre, post, sb, d, d2, name, k0 + 1, 0, k, s);
    } else if d.direct_blocks[k0] >= sb.nblocks {
    } else if s0 >= dpb(sb) {
        lemma_lookup_reaches(pre, post, sb, d, d2, name, k0 + 1, 0, k, s);
    } else {
        let e = entry_at(pre, d.direct_blocks[k0] as int, s0);
        if s0 > 0 && 22 * s0 >= d.size {
            assert(e is Some && e->Some_0.inum == 0);
        } else {
            assert(e is Some);
            assert(e->Some_0.inum != 0);
            assert(slot_before(k0, s0, k, s));
            assert(entry_at(post, d.direct_blocks[k0] as int, s0) == e);
            lemma_lookup_reaches(pre, post, sb, d, d2, name, k0, s0 + 1, k, s);
        }
    }
}

/// A search for a name fails only at a pointer that names no block of the
/// device or at bytes that encode no entry.
pub proof fn lemma_lookup_failures(
    disk: Seq<Seq<u8>>,
    sb: SuperBlock,
    d: DInodeView,
    name: Seq<char>,
    k: int,
    s: int,
)
    requires
        lookup_from(disk, sb, d, name, k, s) is Failed,
    ensures
        lookup_from(disk, sb, d, name, k, s)->Failed_0 == block_error() || lookup_from(
            disk,
            sb,
            d,
            name,
            k,
            s,
        )->Failed_0 == CustomDirFileSystemError::APIError(DeviceError::Malformed),
    decreases used_blocks(d.size, sb.block_size) - k, dpb(sb) - s,
{
    if k < 0 || s < 0 || k >= used_blocks(d.size, sb.block_size) {
    } else if d.direct_blocks[k] == 0 {
        lemma_lookup_failures(disk, sb, d, name, k + 1, 0);
    } else if d.direct_blocks[k] >= sb.nblocks {
    } else if s >= dpb(sb) || (s > 0 && 22 * s >= d.size) {
        lemma_lookup_failures(disk, sb, d, name, k + 1, 0);
    } else {
        let e = entry_at(disk, d.direct_blocks[k] as int, s);
        if e is Some && !(e->Some_0.inum != 0 && name_prefix(e->Some_0.name) == name) {
            lemma_lookup_failures(disk, sb, d, name, k, s + 1);
        }
    }
}

/// A name that was linked is found: after `dirlink` succeeds, `dirlookup`
/// of the same name in the same directory gives the inode that was linked
/// and the offset that `dirlink` returned. This is stated for a name that
/// the directory did not hold, an inode number other than 0, a directory
/// whose blocks are sound and whose slots beyond its size are empty, and
/// inodes that lie before the data region.
pub proof fn lemma_dirlink_then_dirlookup(
    disk: Seq<Seq<u8>>,
    sb: SuperBlock,
    dir_inum: u64,
    d: DInodeView,
    name: Seq<char>,
    inum: u64,
)
    requires
        sb_valid_spec(sb),
        sb.block_size <= MAX_BLOCK_SIZE,
        disk_fits(disk, sb),
        d.direct_blocks.len() == 12,
        inum != 0,
        dirlink_spec(disk, sb, dir_inum, d, name, inum).2 is Ok,
        dirlookup_spec(disk, sb, d, name) == Err::<
            (u64, DInodeView, u64),
            CustomDirFileSystemError,
        >(CustomDirFileSystemError::NoEntryFoundForName),
        dir_blocks_sound(disk, sb, d),
        dir_tidy(disk, sb, d),
        inode_block(sb, dir_inum as int) < sb.datastart,
        inode_block(sb, inum as int) < sb.datastart,
    ensures
        ({
            let linked = dirlink_spec(disk, sb, dir_inum, d, name, inum);
            let found = dirlookup_spec(linked.0, sb, linked.1, name);
            &&& found is Ok
            &&& found->Ok_0.0 == inum
            &&& i_get_spec(linked.0, sb, inum) == Ok::<DInodeView, CustomInodeFileSystemError>(
                found->Ok_0.1,
            )
            &&& found->Ok_0.1.ft != FType::TFree
            &&& found->Ok_0.2 == linked.2->Ok_0
        }),
{
    let b = sb.block_size as int;
    let linked = dirlink_spec(disk, sb, dir_inum, d, name, inum);
    let t = i_get_spec(disk, sb, inum)->Ok_0;
    let entry = DirEntryView { inum: inum, name: padded(name) };
    let bytes = direntry_bytes(entry);
    let nb = used_blocks(d.size, sb.block_size);
    assert(d.ft == FType::TDir);
    assert(i_get_spec(disk, sb, inum) is Ok);
    assert(name_ok(name));
    lemma_encode_len(name);
    lemma_padded_prefix(name);
    lemma_direntry_roundtrip(entry);
    assert(padded(name_prefix(padded(name))) == padded(name));
    assert(direntry_parse(bytes) == Some(entry));
    assert(slot_error(sb, inum as int) is None);
    lemma_slot(sb, inum as int);
    lemma_used_blocks(d.size, sb.block_size, 0);
    assert(t.direct_blocks.len() == 12);
    if lookup_from(disk, sb, d, name, 0, 0) is Failed {
        lemma_lookup_failures(disk, sb, d, name, 0, 0);
    }
    assert(lookup_from(disk, sb, d, name, 0, 0) == SlotSearch::Missing);
    let search = free_slot_from(disk, sb, d, 0, 0);
    let ib = inode_block(sb, inum as int);
    let db_ = inode_block(sb, dir_inum as int);
    match search {
        SlotSearch::Failed(e) => {},
        SlotSearch::Found { k, s } => {
            lemma_free_slot_found(disk, sb, d, 0, 0);
            let at = b * k + 22 * s;
            let blk = d.direct_blocks[k] as int;
            let written = splice(disk[blk], 22 * s, bytes);
            assert(b * k >= 0 && b * k + b <= 12 * b) by (nonlinear_arith)
                requires
                    0 <= k <= 11,
                    b >= 0,
            ;
            assert(written.subrange(22 * s, 22 * s + 22) =~= bytes);
            let d2 = linked.1;
            let base = if at + 22 >= d.size {
                put_inode(disk, sb, dir_inum as int, with_size(d, at + 22))
            } else {
                disk
            };
            if at + 22 >= d.size {
                assert(slot_error(sb, dir_inum as int) is None);
                lemma_slot(sb, dir_inum as int);
                lemma_put_inode_same(
                    disk,
                    sb,
                    dir_inum as int,
                    with_size(d, at + 22),
                );
                lemma_used_blocks(d2.size, sb.block_size, k);
            }
            let wrote = base.update(blk, written);
            assert(disk_fits(wrote, sb));
            let post = linked.0;
            assert(post == count_link(wrote, sb, dir_inum, inum, t));
            if inum != dir_inum {
                lemma_put_inode_same(
                    wrote,
                    sb,
                    inum as int,
                    one_more_link(t),
                );
            } else {
                assert(wrote[ib] == base[ib]);
            }
            assert(i_get_spec(post, sb, inum) is Ok);
            assert forall|x: int| sb.datastart <= x < sb.nblocks implies #[trigger] post[x]
                == wrote[x] by {}
            assert(post[blk] == written);
            assert(entry_at(post, blk, s) == Some(entry));
            assert forall|k1: int, s1: int|
                0 <= k1 < nb && 0 <= s1 < dpb(sb) && slot_before(k1, s1, k, s) && 0
                    < d.direct_blocks[k1] < sb.nblocks implies #[trigger] entry_at(
                post,
                d.direct_blocks[k1] as int,
                s1,
            ) == entry_at(disk, d.direct_blocks[k1] as int, s1) by {
                let b1 = d.direct_blocks[k1] as int;
                assert(sb.datastart <= d.direct_blocks[k1]);
                if k1 != k {
                    assert(d.direct_blocks[k1] != d.direct_blocks[k]);
                    assert(post[b1] == disk[b1]);
                } else {
                    assert(written.subrange(22 * s1, 22 * s1 + 22) =~= disk[blk].subrange(
                        22 * s1,
                        22 * s1 + 22,
                    ));
                }
            }
            lemma_lookup_reaches(disk, post, sb, d, d2, name, 0, 0, k, s);
        },
        SlotSearch::Missing => {
            assert(nb < 12);
            assert(!none_free(disk, sb));
            lemma_first_free_exists(disk, sb);
            let j = choose|j: int| first_free(disk, sb, j);
            let blk = sb.datastart + j;
            lemma_set_bit(disk, sb, j, j);
            lemma_bit_pos(sb, j);
            let taken = set_bit(disk, sb, j).update(blk, zeros(sb.block_size as nat));
            assert(disk_fits(taken, sb));
            assert(b * nb >= 0 && b * nb + b <= 12 * b) by (nonlinear_arith)
                requires
                    0 <= nb <= 11,
                    b >= 0,
            ;
            let d2 = linked.1;
            assert(slot_error(sb, dir_inum as int) is None);
            lemma_slot(sb, dir_inum as int);
            assert(d2.direct_blocks.len() == 12);
            lemma_put_inode_same(taken, sb, dir_inum as int, d2);
            let base = put_inode(taken, sb, dir_inum as int, d2);
            let written = splice(zeros(sb.block_size as nat), 0, bytes);
            assert(written.subrange(0, 22) =~= bytes);
            let wrote = base.update(blk, written);
            assert(disk_fits(wrote, sb));
            let post = linked.0;
            assert(post == count_link(wrote, sb, dir_inum, inum, t));
            if inum != dir_inum {
                lemma_put_inode_same(
                    wrote,
                    sb,
                    inum as int,
                    one_more_link(t),
                );
            } else {
                assert(wrote[ib] == base[ib]);
            }
            assert(i_get_spec(post, sb, inum) is Ok);
            assert forall|x: int| sb.datastart <= x < sb.nblocks implies #[trigger] post[x]
                == wrote[x] by {}
            assert(post[blk] == written);
            assert(entry_at(post, blk, 0) == Some(entry));
            lemma_used_blocks(d2.size, sb.block_size, nb);
            lemma_used_blocks(d.size, sb.block_size, nb);
            assert forall|k1: int, s1: int|
                0 <= k1 < nb && 0 <= s1 < dpb(sb) && slot_before(k1, s1, nb, 0) && 0
                    < d.direct_blocks[k1] < sb.nblocks implies #[trigger] entry_at(
                post,
                d.direct_blocks[k1] as int,
                s1,
            ) == entry_at(disk, d.direct_blocks[k1] as int, s1) by {
                let b1 = d.direct_blocks[k1] as int;
                assert(sb.datastart <= d.direct_blocks[k1]);
                assert(bitmap_bit(disk, sb, d.direct_blocks[k1] - sb.datastart));
                assert(b1 != blk);
                assert(post[b1] == disk[b1]);
            }
            lemma_lookup_reaches(disk, post, sb, d, d2, name, 0, 0, nb, 0);
        },
    }
}

/// A name cannot be linked twice: after `dirlink` succeeds, a second
/// `dirlink` of the same name in the same directory fails with
/// `InvalidEntryName` and changes neither the disk nor the directory's
/// record. This is stated for the first calls for which a linked name is
/// found.
pub proof fn lemma_dirlink_twice(
    disk: Seq<Seq<u8>>,
    sb: SuperBlock,
    dir_inum: u64,
    d: DInodeView,
    name: Seq<char>,
    inum: u64,
)
    requires
        sb_valid_spec(sb),
        sb.block_size <= MAX_BLOCK_SIZE,
        disk_fits(disk, sb),
        d.direct_blocks.len() == 12,
        inum != 0,
        dirlink_spec(disk, sb, dir_inum, d, name, inum).2 is Ok,
        dirlookup_spec(disk, sb, d, name) == Err::<
            (u64, DInodeView, u64),
            CustomDirFileSystemError,
        >(CustomDirFileSystemError::NoEntryFoundForName),
        dir_blocks_sound(disk, sb, d),
        dir_tidy(disk, sb, d),
        inode_block(sb, dir_inum as int) < sb.datastart,
        inode_block(sb, inum as int) < sb.datastart,
    ensures
        ({
            let linked = dirlink_spec(disk, sb, dir_inum, d, name, inum);
            dirlink_spec(linked.0, sb, dir_inum, linked.1, name, inum) == (
                linked.0,
                linked.1,
                Err::<u64, CustomDirFileSystemError>(CustomDirFileSystemError::InvalidEntryName),
            )
        }),
{
    lemma_dirlink_then_dirlookup(disk, sb, dir_inum, d, name, inum);
    let linked = dirlink_spec(disk, sb, dir_inum, d, name, inum);
    assert(linked.1.ft == FType::TDir);
    lemma_dirlink_duplicate(linked.0, sb, dir_inum, linked.1, name, inum);
}

impl CustomDirFileSystem {
    /// The inode layer is well formed.
    pub open spec fn wf(&self) -> bool {
        self.inode_fs.wf()
    }

    /// The cached superblock, as contracts see it.
    pub open spec fn sb(&self) -> SuperBlock {
        self.inode_fs.sb()
    }

    /// Wraps an inode layer.
    pub fn new(inodefs: CustomInodeFileSystem) -> (r: CustomDirFileSystem)
        ensures
            r.inode_fs == inodefs,
    {
        CustomDirFileSystem { inode_fs: inodefs }
    }

    /// Whether `sb` keeps the rules of the layout.
    pub fn sb_valid(sb: &SuperBlock) -> (r: bool)
        ensures
            r == sb_valid_spec(*sb),
    {
        CustomInodeFileSystem::sb_valid(sb)
    }

    /// Makes a file system on a fresh device, with inode 1 as the root
    /// directory: of type directory, with one link and no content.
    pub fn mkfs(sb: &SuperBlock) -> (r: Result<CustomDirFileSystem, CustomDirFileSystemError>)
        ensures
            match r {
                Ok(fs) => {
                    &&& dir_mkfs_error(*sb) is None
                    &&& fs.wf()
                    &&& fs.sb() == *sb
                    &&& fs@ == put_inode(fresh_inode_disk(*sb), *sb, 1, root_dinode())
                },
                Err(e) => dir_mkfs_error(*sb) == Some(e),
            },
    {
        let mut inode_fs = match CustomInodeFileSystem::mkfs(sb) {
            Ok(f) => f,
            Err(e) => {
                return Err(CustomDirFileSystemError::GivenError(e));
            },
        };
        proof {
            if sb.ninodes > 1 {
                lemma_mkfs_all_free(*sb, 1);
            }
        }
        let mut root_inode = match inode_fs.i_get(1) {
            Ok(ino) => ino,
            Err(e) => {
                return Err(CustomDirFileSystemError::GivenError(e));
            },
        };
        root_inode.disk_node.nlink = 1;
        root_inode.disk_node.ft = FType::TDir;
        assert(root_inode.disk_node@ == root_dinode());
        match inode_fs.i_put(&root_inode) {
            Ok(()) => {},
            Err(e) => {
                return Err(CustomDirFileSystemError::GivenError(e));
            },
        }
        Ok(CustomDirFileSystem::new(inode_fs))
    }

    /// Takes over a device that holds a file system.
    pub fn mountfs(dev: Device) -> (r: Result<CustomDirFileSystem, CustomDirFileSystemError>)
        requires
            dev.wf(),
        ensures
            match r {
                Ok(fs) => {
                    &&& mount_error(dev) is None
                    &&& fs.wf()
                    &&& fs.inode_fs.block_system.device == dev
                    &&& fs.sb() == mounted_sb(dev)
                },
                Err(e) => {
                    &&& e is GivenError
                    &&& e->GivenError_0 is GivenError
                    &&& mount_error(dev) == Some(e->GivenError_0->GivenError_0)
                },
            },
    {
        match CustomInodeFileSystem::mountfs(dev) {
            Ok(f) => Ok(CustomDirFileSystem::new(f)),
            Err(e) => Err(CustomDirFileSystemError::GivenError(e)),
        }
    }

    /// Gives the device back.
    pub fn unmountfs(self) -> (r: Device)
        ensures
            r == self.inode_fs.block_system.device,
    {
        self.inode_fs.unmountfs()
    }

    /// A copy of block `i` of the device.
    pub fn b_get(&self, i: u64) -> (r: Result<Block, CustomDirFileSystemError>)
        requires
            self.wf(),
        ensures
            from_inode(r),
            from_block(inode_result(r)),
            b_get_post(self@, self.sb(), i, block_result(inode_result(r))),
    {
        match self.inode_fs.b_get(i) {
            Ok(b) => Ok(b),
            Err(e) => Err(CustomDirFileSystemError::GivenError(e)),
        }
    }

    /// Stores `b` as the block of index `b.block_no`.
    pub fn b_put(&mut self, b: &Block) -> (r: Result<(), CustomDirFileSystemError>)
        requires
            old(self).wf(),
        ensures
            final(self).wf(),
            final(self).sb() == old(self).sb(),
            from_inode(r),
            from_block(inode_result(r)),
            b_put_post(old(self)@, old(self).sb(), *b, final(self)@, block_result(inode_result(r))),
    {
        match self.inode_fs.b_put(b) {
            Ok(()) => Ok(()),
            Err(e) => Err(CustomDirFileSystemError::GivenError(e)),
        }
    }

    /// Marks data block `i` as free.
    pub fn b_free(&mut self, i: u64) -> (r: Result<(), CustomDirFileSystemError>)
        requires
            old(self).wf(),
        ensures
            final(self).wf(),
            final(self).sb() == old(self).sb(),
            from_inode(r),
            from_block(inode_result(r)),
            b_free_post(old(self)@, old(self).sb(), i, final(self)@, block_result(inode_result(r))),
    {
        match self.inode_fs.b_free(i) {
            Ok(()) => Ok(()),
            Err(e) => Err(CustomDirFileSystemError::GivenError(e)),
        }
    }

    /// Overwrites data block `i` with zero bytes.
    pub fn b_zero(&mut self, i: u64) -> (r: Result<(), CustomDirFileSystemError>)
        requires
            old(self).wf(),
        ensures
            final(self).wf(),
            final(self).sb() == old(self).sb(),
            from_inode(r),
            from_block(inode_result(r)),
            b_zero_post(old(self)@, old(self).sb(), i, final(self)@, block_result(inode_result(r))),
    {
        match self.inode_fs.b_zero(i) {
            Ok(()) => Ok(()),
            Err(e) => Err(CustomDirFileSystemError::GivenError(e)),
        }
    }

    /// Takes the free data block of least index.
    pub fn b_alloc(&mut self) -> (r: Result<u64, CustomDirFileSystemError>)
        requires
            old(self).wf(),
        ensures
            final(self).wf(),
            final(self).sb() == old(self).sb(),
            from_inode(r),
            from_block(inode_result(r)),
            b_alloc_post(old(self)@, old(self).sb(), final(self)@, block_result(inode_result(r))),
    {
        match self.inode_fs.b_alloc() {
            Ok(j) => Ok(j),
            Err(e) => Err(CustomDirFileSystemError::GivenError(e)),
        }
    }

    /// The cached superblock.
    pub fn sup_get(&self) -> (r: Result<SuperBlock, CustomDirFileSystemError>)
        ensures
            r == Ok::<SuperBlock, CustomDirFileSystemError>(self.sb()),
    {
        Ok(self.inode_fs.block_system.superblock)
    }

    /// Writes `sup` to block 0 and makes it the cached superblock.
    pub fn sup_put(&mut self, sup: &SuperBlock) -> (r: Result<(), CustomDirFileSystemError>)
        requires
            old(self).wf(),
        ensures
            final(self).inode_fs.block_system.device.wf(),
            final(self).inode_fs.block_system.device.block_size() == old(
                self,
            ).inode_fs.block_system.device.block_size(),
            final(self).inode_fs.block_system.device.nblocks() == old(
                self,
            ).inode_fs.block_system.device.nblocks(),
            final(self).inode_fs.inode_start == old(self).inode_fs.inode_start,
            final(self).inode_fs.nb_inodes_block == old(self).inode_fs.nb_inodes_block,
            from_inode(r),
            from_block(inode_result(r)),
            sup_put_post(
                old(self)@,
                old(self).sb(),
                *sup,
                final(self)@,
                final(self).sb(),
                block_result(inode_result(r)),
            ),
    {
        match self.inode_fs.sup_put(sup) {
            Ok(()) => Ok(()),
            Err(e) => Err(CustomDirFileSystemError::GivenError(e)),
        }
    }

    /// Reads inode `i`.
    pub fn i_get(&self, i: u64) -> (r: Result<Inode, CustomDirFileSystemError>)
        requires
            self.wf(),
        ensures
            from_inode(r),
            i_get_post(self@, self.sb(), i, inode_result(r)),
    {
        match self.inode_fs.i_get(i) {
            Ok(ino) => Ok(ino),
            Err(e) => Err(CustomDirFileSystemError::GivenError(e)),
        }
    }

    /// Writes the record of `ino` into the slot of inode `ino.inum`.
    pub fn i_put(&mut self, ino: &Inode) -> (r: Result<(), CustomDirFileSystemError>)
        requires
            old(self).wf(),
        ensures
            final(self).wf(),
            final(self).sb() == old(self).sb(),
            from_inode(r),
            i_put_post(
                old(self)@,
                old(self).sb(),
                ino.inum,
                ino.disk_node@,
                final(self)@,
                inode_result(r),
            ),
    {
        match self.inode_fs.i_put(ino) {
            Ok(()) => Ok(()),
            Err(e) => Err(CustomDirFileSystemError::GivenError(e)),
        }
    }

    /// Releases inode `i`.
    pub fn i_free(&mut self, i: u64) -> (r: Result<(), CustomDirFileSystemError>)
        requires
            old(self).wf(),
        ensures
            final(self).wf(),
            final(self).sb() == old(self).sb(),
            from_inode(r),
            (final(self)@, inode_result(r)) == i_free_spec(old(self)@, old(self).sb(), i),
    {
        match self.inode_fs.i_free(i) {
            Ok(()) => Ok(()),
            Err(e) => Err(CustomDirFileSystemError::GivenError(e)),
        }
    }

    /// Takes the free inode of least index, from 1 on.
    pub fn i_alloc(&mut self, ft: FType) -> (r: Result<u64, CustomDirFileSystemError>)
        requires
            old(self).wf(),
        ensures
            final(self).wf(),
            final(self).sb() == old(self).sb(),
            from_inode(r),
            i_alloc_post(old(self)@, old(self).sb(), ft, final(self)@, inode_result(r)),
    {
        match self.inode_fs.i_alloc(ft) {
            Ok(y) => Ok(y),
            Err(e) => Err(CustomDirFileSystemError::GivenError(e)),
        }
    }

    /// Cuts `inode` down to no content.
    pub fn i_trunc(&mut self, inode: &mut Inode) -> (r: Result<(), CustomDirFileSystemError>)
        requires
            old(self).wf(),
        ensures
            final(self).wf(),
            final(self).sb() == old(self).sb(),
            final(inode).inum == old(inode).inum,
            from_inode(r),
            (final(self)@, final(inode).disk_node@, inode_result(r)) == i_trunc_spec(
                old(self)@,
                old(self).sb(),
                old(inode).inum,
                old(inode).disk_node@,
            ),
    {
        match self.inode_fs.i_trunc(inode) {
            Ok(()) => Ok(()),
            Err(e) => Err(CustomDirFileSystemError::GivenError(e)),
        }
    }

    /// An entry for inode `inum` under `name`, if the name is accepted.
    pub fn new_de(inum: u64, name: &str) -> (r: Option<DirEntry>)
        ensures
            r is Some <==> name_ok(name@),
            r is Some ==> r->Some_0@ == (DirEntryView { inum: inum, name: padded(name@) }),
    {
        let mut dir_entry = DirEntry::default();
        dir_entry.inum = inum;
        match Self::set_name_str(&mut dir_entry, name) {
            Some(_) => Some(dir_entry),
            None => None,
        }
    }

    /// The name that the entry holds: the characters of its name field
    /// before the first NUL.
    pub fn get_name_str(de: &DirEntry) -> (r: String)
        ensures
            r@ == name_prefix(de.name@),
    {
        get_name(de)
    }

    /// Gives the entry the name `name`, if the name is accepted: it is not
    /// empty, takes at most 14 bytes, and is `.`, `..` or made of
    /// alphanumeric characters.
    pub fn set_name_str(de: &mut DirEntry, name: &str) -> (r: Option<()>)
        ensures
            r is Some <==> name_ok(name@),
            r is Some ==> final(de)@ == (DirEntryView { inum: old(de).inum, name: padded(name@) }),
            r is None ==> *final(de) == *old(de),
    {
        if name.as_bytes().len() > 14 {
            return None;
        }
        let alphanumeric = every_char_alphanumeric(name);
        if !name_accepted(name, alphanumeric) {
            return None;
        }
        proof {
            lemma_encode_len(name@);
        }
        de.name = name_to_field(name);
        Some(())
    }

    /// Looks `name` up in the directory `inode`: gives the inode that the
    /// first entry of that name refers to, and the offset of the entry in
    /// the directory's content.
    pub fn dirlookup(&self, inode: &Inode, name: &str) -> (r: Result<
        (Inode, u64),
        CustomDirFileSystemError,
    >)
        requires
            self.wf(),
        ensures
            dirlookup_post(self@, self.sb(), inode.disk_node@, name@, r),
    {
        match inode.disk_node.ft {
            FType::TDir => {},
            _ => {
                return Err(CustomDirFileSystemError::InodeWrongType);
            },
        }
        let sb = self.inode_fs.block_system.superblock;
        let ghost d = inode.disk_node@;
        let size: u64 = inode.disk_node.size;
        let nb: usize = count_used_blocks(size, sb.block_size);
        let slots: u64 = sb.block_size / DIRENTRY_SIZE;
        let wanted = String::from_str(name);
        let mut k: usize = 0;
        while k < nb
            invariant
                self.wf(),
                sb == self.sb(),
                d == inode.disk_node@,
                d.ft == FType::TDir,
                size == d.size,
                wanted@ == name@,
                nb == used_blocks(d.size, sb.block_size),
                slots == dpb(sb),
                k <= nb <= 12,
                lookup_from(self@, sb, d, name@, 0, 0) == lookup_from(
                    self@,
                    sb,
                    d,
                    name@,
                    k as int,
                    0,
                ),
            decreases nb - k,
        {
            let element: u64 = inode.disk_node.direct_blocks[k];
            if element != 0 {
                let block = match self.b_get(element) {
                    Ok(b) => b,
                    Err(e) => {
                        return Err(e);
                    },
                };
                let mut s: u64 = 0;
                while s < slots && (s == 0 || 22 * s < size)
                    invariant
                        self.wf(),
                        sb == self.sb(),
                        d == inode.disk_node@,
                        d.ft == FType::TDir,
                        size == d.size,
                        wanted@ == name@,
                        nb == used_blocks(d.size, sb.block_size),
                        slots == dpb(sb),
                        k < nb <= 12,
                        element == d.direct_blocks[k as int],
                        element != 0,
                        element < sb.nblocks,
                        block@ == self@[element as int],
                        s <= slots,
                        lookup_from(self@, sb, d, name@, 0, 0) == lookup_from(
                            self@,
                            sb,
                            d,
                            name@,
                            k as int,
                            s as int,
                        ),
                    decreases slots - s,
                {
                    let dir_entry = match block.deserialize_direntry(22 * s) {
                        Ok(de) => de,
                        Err(e) => {
                            return Err(CustomDirFileSystemError::APIError(e));
                        },
                    };
                    if dir_entry.inum != 0 {
                        let found = get_name(&dir_entry);
                        if found == wanted {
                            let target = match self.i_get(dir_entry.inum) {
                                Ok(t) => t,
                                Err(e) => {
                                    return Err(e);
                                },
                            };
                            assert(sb.block_size * k <= MAX_BLOCK_SIZE * 11) by (nonlinear_arith)
                                requires
                                    k <= 11,
                                    sb.block_size <= MAX_BLOCK_SIZE,
                            ;
                            return Ok((target, sb.block_size * (k as u64) + 22 * s));
                        }
                    }
                    s += 1;
                }
            }
            k += 1;
        }
        Err(CustomDirFileSystemError::NoEntryFoundForName)
    }

    /// Counts the new link to the inode `target`, unless the directory
    /// links to itself.
    fn count_new_link(&mut self, dir_inum: u64, target: Inode) -> (r: Result<
        (),
        CustomDirFileSystemError,
    >)
        requires
            old(self).wf(),
            slot_error(old(self).sb(), target.inum as int) is None,
        ensures
            final(self).wf(),
            final(self).sb() == old(self).sb(),
            r is Ok,
            final(self)@ == count_link(
                old(self)@,
                old(self).sb(),
                dir_inum,
                target.inum,
                target.disk_node@,
            ),
    {
        if dir_inum != target.inum {
            let mut linked = target;
            linked.disk_node.nlink = if target.disk_node.nlink == 65535 {
                0
            } else {
                target.disk_node.nlink + 1
            };
            match self.i_put(&linked) {
                Ok(()) => {},
                Err(e) => {
                    return Err(e);
                },
            }
        }
        Ok(())
    }

    /// Writes `entry` into the empty slot `s` of `block`, which is the block
    /// of pointer `k` of the directory.
    fn link_here(
        &mut self,
        inode: &mut Inode,
        block: Block,
        k: usize,
        s: u64,
        entry: &DirEntry,
        target: Inode,
    ) -> (r: Result<u64, CustomDirFileSystemError>)
        requires
            old(self).wf(),
            k < 12,
            s < dpb(old(self).sb()),
            block.block_no == old(inode).disk_node@.direct_blocks[k as int],
            block.block_no < old(self).sb().nblocks,
            block@ == old(self)@[block.block_no as int],
            encodable(entry.name@),
            target.inum == entry.inum,
            slot_error(old(self).sb(), target.inum as int) is None,
        ensures
            final(self).wf(),
            final(self).sb() == old(self).sb(),
            final(inode).inum == old(inode).inum,
            (final(self)@, final(inode).disk_node@, r) == link_in_slot(
                old(self)@,
                old(self).sb(),
                old(inode).inum,
                old(inode).disk_node@,
                entry@,
                target.disk_node@,
                k as int,
                s as int,
            ),
    {
        let sb = self.inode_fs.block_system.superblock;
        proof {
            assert(sb.block_size * k + 22 * s + 22 <= MAX_BLOCK_SIZE * 12) by (nonlinear_arith)
                requires
                    k <= 11,
                    sb.block_size <= MAX_BLOCK_SIZE,
                    22 * s + 22 <= sb.block_size,
            ;
            assert(sb.block_size * k >= 0) by (nonlinear_arith)
                requires
                    k >= 0,
                    sb.block_size >= 0,
            ;
        }
        let at: u64 = sb.block_size * (k as u64) + 22 * s;
        let mut block = block;
        if at + 22 >= inode.disk_node.size {
            let grown = DInode {
                ft: inode.disk_node.ft,
                nlink: inode.disk_node.nlink,
                size: at + 22,
                direct_blocks: inode.disk_node.direct_blocks,
            };
            inode.disk_node = grown;
            let written = Inode::new(inode.inum, grown);
            match self.i_put(&written) {
                Ok(()) => {},
                Err(e) => {
                    return Err(e);
                },
            }
        }
        match block.serialize_direntry(entry, 22 * s) {
            Ok(()) => {},
            Err(e) => {
                return Err(CustomDirFileSystemError::APIError(e));
            },
        }
        match self.b_put(&block) {
            Ok(()) => {},
            Err(e) => {
                return Err(e);
            },
        }
        match self.count_new_link(inode.inum, target) {
            Ok(()) => {},
            Err(e) => {
                return Err(e);
            },
        }
        Ok(at)
    }

    /// Gives the directory one block more and writes `entry` into its first
    /// slot.
    fn link_new_block(&mut self, inode: &mut Inode, nb: usize, entry: &DirEntry, target: Inode)
        -> (r: Result<u64, CustomDirFileSystemError>)
        requires
            old(self).wf(),
            nb == used_blocks(old(inode).disk_node.size, old(self).sb().block_size),
            encodable(entry.name@),
            target.inum == entry.inum,
            slot_error(old(self).sb(), target.inum as int) is None,
        ensures
            final(self).wf(),
            final(self).sb() == old(self).sb(),
            final(inode).inum == old(inode).inum,
            (final(self)@, final(inode).disk_node@, r) == link_in_new_block(
                old(self)@,
                old(self).sb(),
                old(inode).inum,
                old(inode).disk_node@,
                entry@,
                target.disk_node@,
            ),
    {
        let sb = self.inode_fs.block_system.superblock;
        if nb >= 12 {
            return Err(CustomDirFileSystemError::InodeBlocksFull);
        }
        let j: u64 = match self.b_alloc() {
            Ok(j) => j,
            Err(e) => {
                return Err(e);
            },
        };
        proof {
            let chosen = choose|c: int| first_free(old(self)@, sb, c);
            lemma_first_free_unique(old(self)@, sb, chosen, j as int);
            assert(sb.block_size * nb + 22 <= MAX_BLOCK_SIZE * 12) by (nonlinear_arith)
                requires
                    nb <= 11,
                    22 <= sb.block_size <= MAX_BLOCK_SIZE,
            ;
            assert(sb.block_size * nb >= 0) by (nonlinear_arith)
                requires
                    nb >= 0,
                    sb.block_size >= 0,
            ;
        }
        let new_block_index: u64 = sb.datastart + j;
        let mut new_block = match self.b_get(new_block_index) {
            Ok(b) => b,
            Err(e) => {
                return Err(e);
            },
        };
        match new_block.serialize_direntry(entry, 0) {
            Ok(()) => {},
            Err(e) => {
                return Err(CustomDirFileSystemError::APIError(e));
            },
        }
        let mut pointers: [u64; 12] = inode.disk_node.direct_blocks;
        pointers[nb] = new_block_index;
        let grown = DInode {
            ft: inode.disk_node.ft,
            nlink: inode.disk_node.nlink,
            size: sb.block_size * (nb as u64) + 22,
            direct_blocks: pointers,
        };
        inode.disk_node = grown;
        let written = Inode::new(inode.inum, grown);
        match self.i_put(&written) {
            Ok(()) => {},
            Err(e) => {
                return Err(e);
            },
        }
        match self.b_put(&new_block) {
            Ok(()) => {},
            Err(e) => {
                return Err(e);
            },
        }
        match self.count_new_link(inode.inum, target) {
            Ok(()) => {},
            Err(e) => {
                return Err(e);
            },
        }
        Ok(sb.block_size * (nb as u64))
    }

    /// Adds an entry `name` for inode `inum` to the directory `inode`, in the
    /// first empty slot, or in a new block where no slot is empty. Returns
    /// the offset of the entry in the directory's content.
    pub fn dirlink(&mut self, inode: &mut Inode, name: &str, inum: u64) -> (r: Result<
        u64,
        CustomDirFileSystemError,
    >)
        requires
            old(self).wf(),
        ensures
            final(self).wf(),
            final(self).sb() == old(self).sb(),
            final(inode).inum == old(inode).inum,
            (final(self)@, final(inode).disk_node@, r) == dirlink_spec(
                old(self)@,
                old(self).sb(),
                old(inode).inum,
                old(inode).disk_node@,
                name@,
                inum,
            ),
    {
        match inode.disk_node.ft {
            FType::TDir => {},
            _ => {
                return Err(CustomDirFileSystemError::InodeWrongType);
            },
        }
        let target = match self.i_get(inum) {
            Ok(t) => t,
            Err(e) => {
                return Err(e);
            },
        };
        match target.disk_node.ft {
            FType::TFree => {
                return Err(CustomDirFileSystemError::DirectoryInodeNotInUse);
            },
            _ => {},
        }
        let new_dir_entry = match Self::new_de(inum, name) {
            None => {
                return Err(CustomDirFileSystemError::InvalidEntryName);
            },
            Some(de) => de,
        };
        match self.dirlookup(inode, name) {
            Ok(_) => {
                return Err(CustomDirFileSystemError::InvalidEntryName);
            },
            Err(_) => {},
        }
        proof {
            lemma_encode_len(name@);
            lemma_padded_prefix(name@);
        }
        let sb = self.inode_fs.block_system.superblock;
        let ghost d = inode.disk_node@;
        let nb: usize = count_used_blocks(inode.disk_node.size, sb.block_size);
        let slots: u64 = sb.block_size / DIRENTRY_SIZE;
        let mut k: usize = 0;
        while k < nb
            invariant
                self.wf(),
                *self == *old(self),
                *inode == *old(inode),
                sb == self.sb(),
                d == inode.disk_node@,
                nb == used_blocks(d.size, sb.block_size),
                slots == dpb(sb),
                k <= nb <= 12,
                encodable(new_dir_entry.name@),
                target.inum == new_dir_entry.inum,
                slot_error(sb, target.inum as int) is None,
                d.ft == FType::TDir,
                i_get_spec(self@, sb, inum) == Ok::<DInodeView, CustomInodeFileSystemError>(
                    target.disk_node@,
                ),
                target.disk_node.ft != FType::TFree,
                name_ok(name@),
                dirlookup_spec(self@, sb, d, name@) is Err,
                new_dir_entry@ == (DirEntryView { inum: inum, name: padded(name@) }),
                free_slot_from(self@, sb, d, 0, 0) == free_slot_from(self@, sb, d, k as int, 0),
            decreases nb - k,
        {
            let element: u64 = inode.disk_node.direct_blocks[k];
            if element != 0 {
                let block = match self.b_get(element) {
                    Ok(b) => b,
                    Err(e) => {
                        return Err(e);
                    },
                };
                let mut s: u64 = 0;
                while s < slots
                    invariant
                        self.wf(),
                        *self == *old(self),
                        *inode == *old(inode),
                        sb == self.sb(),
                        d == inode.disk_node@,
                        nb == used_blocks(d.size, sb.block_size),
                        slots == dpb(sb),
                        k < nb <= 12,
                        element == d.direct_blocks[k as int],
                        element != 0,
                        element < sb.nblocks,
                        block.block_no == element,
                        block@ == self@[element as int],
                        s <= slots,
                        encodable(new_dir_entry.name@),
                        target.inum == new_dir_entry.inum,
                        slot_error(sb, target.inum as int) is None,
                        d.ft == FType::TDir,
                        i_get_spec(self@, sb, inum) == Ok::<
                            DInodeView,
                            CustomInodeFileSystemError,
                        >(target.disk_node@),
                        target.disk_node.ft != FType::TFree,
                        name_ok(name@),
                        dirlookup_spec(self@, sb, d, name@) is Err,
                        new_dir_entry@ == (DirEntryView { inum: inum, name: padded(name@) }),
                        free_slot_from(self@, sb, d, 0, 0) == free_slot_from(
                            self@,
                            sb,
                            d,
                            k as int,
                            s as int,
                        ),
                    decreases slots - s,
                {
                    let dir_entry = match block.deserialize_direntry(22 * s) {
                        Ok(de) => de,
                        Err(e) => {
                            return Err(CustomDirFileSystemError::APIError(e));
                        },
                    };
                    if dir_entry.inum == 0 {
                        return self.link_here(inode, block, k, s, &new_dir_entry, target);
                    }
                    s += 1;
                }
            }
            k += 1;
        }
        self.link_new_block(inode, nb, &new_dir_entry, target)
    }
}

} // verus!
