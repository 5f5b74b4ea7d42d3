//! The inode layer: inodes packed into the blocks of the inode region, their
//! allocation, release and truncation.
use crate::a_block_support::b_alloc_post;
use crate::a_block_support::b_free_post;
use crate::a_block_support::b_get_post;
use crate::a_block_support::b_put_post;
use crate::a_block_support::b_zero_post;
use crate::a_block_support::fresh_disk;
use crate::a_block_support::mkfs_error;
use crate::a_block_support::mount_error;
use crate::a_block_support::mounted_sb;
use crate::a_block_support::sup_put_post;
use crate::a_block_support::CustomBlockFileSystem;
use crate::a_block_support::CustomBlockFileSystemError;
use crate::codec::dinode_bytes;
use crate::codec::dinode_parse;
use crate::codec::lemma_dinode_roundtrip;
use crate::device::disk_write;
use crate::device::Block;
use crate::device::Device;
use crate::device::DeviceError;
use crate::layout::bitmap_bit;
use crate::layout::clear_bit;
use crate::layout::disk_fits;
use crate::layout::lemma_bit_pos;
use crate::layout::lemma_bits_outside;
use crate::layout::lemma_clear_bit;
use crate::layout::sb_valid_spec;
use crate::types::DInode;
use crate::types::DInodeView;
use crate::types::FType;
use crate::types::Inode;
use crate::types::SuperBlock;
use crate::types::DINODE_SIZE;
use vstd::arithmetic::div_mod::lemma_div_is_ordered;
use vstd::arithmetic::div_mod::lemma_div_pos_is_pos;
use vstd::arithmetic::div_mod::lemma_fundamental_div_mod;
use vstd::arithmetic::div_mod::lemma_fundamental_div_mod_converse;
use vstd::arithmetic::div_mod::lemma_mod_bound;
use vstd::prelude::*;

verus! {

/// A file system that knows of blocks and inodes.
pub struct CustomInodeFileSystem {
    /// The block layer below.
    pub block_system: CustomBlockFileSystem,
    /// First block of the inode region.
    pub inode_start: u64,
    /// Number of inodes that one block holds.
    pub nb_inodes_block: u64,
}

/// What the inode layer can refuse.
#[derive(Clone, Copy, Debug, PartialEq, Eq, Structural)]
pub enum CustomInodeFileSystemError {
    /// The block layer refused.
    GivenError(CustomBlockFileSystemError),
    /// A block refused an access, or its bytes encode no inode.
    APIError(DeviceError),
    /// The index names no inode.
    InodeIndexOutOfBounds,
    /// The inode to free is free already.
    InodeAlreadyFree,
    /// Every inode is in use.
    NoFreeInode,
}

impl View for CustomInodeFileSystem {
    type V = Seq<Seq<u8>>;

    open spec fn view(&self) -> Seq<Seq<u8>> {
        self.block_system@
    }
}

/// Number of inodes that one block holds.
pub open spec fn ipb(sb: SuperBlock) -> int {
    sb.block_size as int / 110
}

/// Index of the block that holds inode `i`.
pub open spec fn inode_block(sb: SuperBlock, i: int) -> int {
    sb.inodestart + i / ipb(sb)
}

/// Offset of inode `i` in its block.
pub open spec fn inode_offset(sb: SuperBlock, i: int) -> int {
    (i % ipb(sb)) * 110
}

/// The inode record that the disk holds in slot `i`, if the bytes there
/// encode one.
pub open spec fn inode_at(disk: Seq<Seq<u8>>, sb: SuperBlock, i: int) -> Option<DInodeView> {
    dinode_parse(
        disk[inode_block(sb, i)].subrange(inode_offset(sb, i), inode_offset(sb, i) + 110),
    )
}

/// The disk with the record `d` written into inode slot `i`.
pub open spec fn put_inode(disk: Seq<Seq<u8>>, sb: SuperBlock, i: int, d: DInodeView) -> Seq<
    Seq<u8>,
> {
    disk_write(disk, inode_block(sb, i), inode_offset(sb, i), dinode_bytes(d))
}

/// Twelve block pointers that name no block.
pub open spec fn no_blocks() -> Seq<u64> {
    Seq::new(12, |i: int| 0u64)
}

/// The record of a free inode with no content.
pub open spec fn free_dinode() -> DInodeView {
    DInodeView { ft: FType::TFree, nlink: 0, size: 0, direct_blocks: no_blocks() }
}

/// Number of blocks that `size` bytes span, at most the twelve that an inode
/// can name.
pub open spec fn used_blocks(size: u64, block_size: u64) -> int {
    let n = (size + block_size - 1) / (block_size as int);
    if n > 12 {
        12
    } else {
        n
    }
}

/// The error with which the slot of inode `i` is refused, if it is: a block
/// holds no inode, or the slot's block is not on the device.
pub open spec fn slot_error(sb: SuperBlock, i: int) -> Option<CustomInodeFileSystemError> {
    if sb.block_size < 110 {
        Some(CustomInodeFileSystemError::APIError(DeviceError::OutOfBounds))
    } else if inode_block(sb, i) >= sb.nblocks {
        Some(
            CustomInodeFileSystemError::GivenError(
                CustomBlockFileSystemError::GivenError(DeviceError::BlockIndexOutOfRange),
            ),
        )
    } else {
        None
    }
}

/// What reading inode `i` gives.
pub open spec fn i_get_spec(disk: Seq<Seq<u8>>, sb: SuperBlock, i: u64) -> Result<
    DInodeView,
    CustomInodeFileSystemError,
> {
    if i >= sb.ninodes {
        Err(CustomInodeFileSystemError::InodeIndexOutOfBounds)
    } else if slot_error(sb, i as int) is Some {
        Err(slot_error(sb, i as int)->Some_0)
    } else {
        match inode_at(disk, sb, i as int) {
            Some(d) => Ok(d),
            None => Err(CustomInodeFileSystemError::APIError(DeviceError::Malformed)),
        }
    }
}

/// What `i_get` returns for index `i` on `disk`.
pub open spec fn i_get_post(
    disk: Seq<Seq<u8>>,
    sb: SuperBlock,
    i: u64,
    r: Result<Inode, CustomInodeFileSystemError>,
) -> bool {
    match r {
        Ok(ino) => ino.inum == i && i_get_spec(disk, sb, i) == Ok::<
            DInodeView,
            CustomInodeFileSystemError,
        >(ino.disk_node@),
        Err(e) => i_get_spec(disk, sb, i) == Err::<DInodeView, CustomInodeFileSystemError>(e),
    }
}

/// What `i_put` of the inode `(inum, d)` makes of the disk `pre`.
pub open spec fn i_put_post(
    pre: Seq<Seq<u8>>,
    sb: SuperBlock,
    inum: u64,
    d: DInodeView,
    post: Seq<Seq<u8>>,
    r: Result<(), CustomInodeFileSystemError>,
) -> bool {
    match r {
        Ok(()) => slot_error(sb, inum as int) is None && post == put_inode(
            pre,
            sb,
            inum as int,
            d,
        ),
        Err(e) => slot_error(sb, inum as int) == Some(e) && post == pre,
    }
}

/// What releasing the data block with device index `entry` makes of the
/// disk: the new disk, and the error if the block was refused.
pub open spec fn free_data_block(disk: Seq<Seq<u8>>, sb: SuperBlock, entry: u64) -> (
    Seq<Seq<u8>>,
    Option<CustomBlockFileSystemError>,
) {
    if entry < sb.datastart || entry - sb.datastart >= sb.ndatablocks {
        (disk, Some(CustomBlockFileSystemError::DataIndexOutOfBounds))
    } else if !bitmap_bit(disk, sb, entry - sb.datastart) {
        (disk, Some(CustomBlockFileSystemError::BlockIsAlreadyFree))
    } else {
        (clear_bit(disk, sb, entry - sb.datastart), None)
    }
}

/// What releasing the blocks named by `db[k..n]`, in order and up to the
/// first refusal, makes of the disk. Pointers that are 0 name no block.
pub open spec fn free_from(disk: Seq<Seq<u8>>, sb: SuperBlock, db: Seq<u64>, k: int, n: int) -> (
    Seq<Seq<u8>>,
    Option<CustomBlockFileSystemError>,
)
    decreases n - k,
{
    if k >= n {
        (disk, None)
    } else if db[k] == 0 {
        free_from(disk, sb, db, k + 1, n)
    } else {
        let step = free_data_block(disk, sb, db[k]);
        if step.1 is Some {
            step
        } else {
            free_from(step.0, sb, db, k + 1, n)
        }
    }
}

/// What `i_free` of inode `i` makes of the disk.
pub open spec fn i_free_spec(disk: Seq<Seq<u8>>, sb: SuperBlock, i: u64) -> (
    Seq<Seq<u8>>,
    Result<(), CustomInodeFileSystemError>,
) {
    match i_get_spec(disk, sb, i) {
        Err(e) => (disk, Err(e)),
        Ok(d) => if d.ft == FType::TFree {
            (disk, Err(CustomInodeFileSystemError::InodeAlreadyFree))
        } else if d.nlink != 0 {
            (disk, Ok(()))
        } else {
            let freed = free_from(disk, sb, d.direct_blocks, 0, used_blocks(d.size, sb.block_size));
            match freed.1 {
                Some(e) => (freed.0, Err(CustomInodeFileSystemError::GivenError(e))),
                None => (
                    put_inode(
                        freed.0,
                        sb,
                        i as int,
                        DInodeView {
                            ft: FType::TFree,
                            nlink: d.nlink,
                            size: d.size,
                            direct_blocks: no_blocks(),
                        },
                    ),
                    Ok(()),
                ),
            }
        },
    }
}

/// What `i_trunc` of the inode `(inum, d)` makes of the disk and of the
/// inode's record.
pub open spec fn i_trunc_spec(disk: Seq<Seq<u8>>, sb: SuperBlock, inum: u64, d: DInodeView) -> (
    Seq<Seq<u8>>,
    DInodeView,
    Result<(), CustomInodeFileSystemError>,
) {
    let freed = free_from(disk, sb, d.direct_blocks, 0, used_blocks(d.size, sb.block_size));
    let cut = DInodeView { ft: d.ft, nlink: d.nlink, size: 0, direct_blocks: no_blocks() };
    match freed.1 {
        Some(e) => (freed.0, d, Err(CustomInodeFileSystemError::GivenError(e))),
        None => if slot_error(sb, inum as int) is Some {
            (freed.0, cut, Err(slot_error(sb, inum as int)->Some_0))
        } else {
            (put_inode(freed.0, sb, inum as int, cut), cut, Ok(()))
        },
    }
}

/// Inode `i` can be read and is not free.
pub open spec fn in_use(disk: Seq<Seq<u8>>, sb: SuperBlock, i: int) -> bool {
    &&& 0 <= i < sb.ninodes
    &&& i_get_spec(disk, sb, i as u64) is Ok
    &&& i_get_spec(disk, sb, i as u64)->Ok_0.ft != FType::TFree
}

/// Every inode from 1 up to, not including, `y` can be read and is not free.
pub open spec fn all_in_use(disk: Seq<Seq<u8>>, sb: SuperBlock, y: int) -> bool {
    forall|i: int| 1 <= i < y ==> in_use(disk, sb, i)
}

/// What `i_alloc` of a new inode of type `ft` makes of the disk.
pub open spec fn i_alloc_post(
    pre: Seq<Seq<u8>>,
    sb: SuperBlock,
    ft: FType,
    post: Seq<Seq<u8>>,
    r: Result<u64, CustomInodeFileSystemError>,
) -> bool {
    match r {
        Ok(y) => {
            let found = i_get_spec(pre, sb, y);
            &&& 1 <= y < sb.ninodes
            &&& all_in_use(pre, sb, y as int)
            &&& found is Ok
            &&& found->Ok_0.ft == FType::TFree
            &&& post == put_inode(
                pre,
                sb,
                y as int,
                DInodeView {
                    ft: ft,
                    nlink: 0,
                    size: 0,
                    direct_blocks: found->Ok_0.direct_blocks,
                },
            )
        },
        Err(e) => {
            &&& post == pre
            &&& if e == CustomInodeFileSystemError::NoFreeInode {
                all_in_use(pre, sb, sb.ninodes as int)
            } else {
                exists|y: int|
                    1 <= y < sb.ninodes && all_in_use(pre, sb, y) && #[trigger] i_get_spec(
                        pre,
                        sb,
                        y as u64,
                    ) == Err::<DInodeView, CustomInodeFileSystemError>(e)
            }
        },
    }
}

/// Every inode that `sb` counts has a slot on the device.
pub open spec fn inodes_fit(sb: SuperBlock) -> bool {
    forall|i: int| 0 <= i < sb.ninodes ==> slot_error(sb, i) is None
}

/// The disk with a free record written into each of the inode slots
/// `k..n`.
pub open spec fn init_from(disk: Seq<Seq<u8>>, sb: SuperBlock, k: int, n: int) -> Seq<Seq<u8>>
    decreases n - k,
{
    if k >= n {
        disk
    } else {
        init_from(put_inode(disk, sb, k, free_dinode()), sb, k + 1, n)
    }
}

/// The disk that `mkfs` leaves: the superblock in block 0 and a free record
/// in every inode slot.
pub open spec fn fresh_inode_disk(sb: SuperBlock) -> Seq<Seq<u8>> {
    init_from(fresh_disk(sb), sb, 0, sb.ninodes as int)
}

/// The error with which the inode layer's `mkfs` refuses `sb`, if it does.
pub open spec fn inode_mkfs_error(sb: SuperBlock) -> Option<CustomInodeFileSystemError> {
    match mkfs_error(sb) {
        Some(e) => Some(CustomInodeFileSystemError::GivenError(e)),
        None => if inodes_fit(sb) {
            None
        } else if sb.block_size < 110 {
            Some(CustomInodeFileSystemError::APIError(DeviceError::OutOfBounds))
        } else {
            Some(
                CustomInodeFileSystemError::GivenError(
                    CustomBlockFileSystemError::GivenError(DeviceError::BlockIndexOutOfRange),
                ),
            )
        },
    }
}

/// A record written into an inode slot is read back from it.
pub proof fn lemma_put_inode_same(disk: Seq<Seq<u8>>, sb: SuperBlock, i: int, d: DInodeView)
    requires
        disk_fits(disk, sb),
        0 <= i,
        slot_error(sb, i) is None,
        d.direct_blocks.len() == 12,
    ensures
        disk_fits(put_inode(disk, sb, i, d), sb),
        inode_at(put_inode(disk, sb, i, d), sb, i) == Some(d),
{
    lemma_slot(sb, i);
    lemma_dinode_roundtrip(d);
    let b = inode_block(sb, i);
    let off = inode_offset(sb, i);
    assert(put_inode(disk, sb, i, d)[b].subrange(off, off + 110) =~= dinode_bytes(d));
}

/// Writing into one inode slot leaves every other slot as it was.
pub proof fn lemma_put_inode_other(
    disk: Seq<Seq<u8>>,
    sb: SuperBlock,
    i: int,
    d: DInodeView,
    j: int,
)
    requires
        disk_fits(disk, sb),
        0 <= i,
        0 <= j,
        i != j,
        slot_error(sb, i) is None,
        slot_error(sb, j) is None,
        d.direct_blocks.len() == 12,
    ensures
        inode_at(put_inode(disk, sb, i, d), sb, j) == inode_at(disk, sb, j),
{
    lemma_slot(sb, i);
    lemma_slot(sb, j);
    lemma_dinode_roundtrip(d);
    let n = ipb(sb);
    lemma_fundamental_div_mod(i, n);
    lemma_fundamental_div_mod(j, n);
    let bi = inode_block(sb, i);
    let bj = inode_block(sb, j);
    let oi = inode_offset(sb, i);
    let oj = inode_offset(sb, j);
    if bi == bj {
        assert(i % n != j % n);
        assert(oi + 110 <= oj || oj + 110 <= oi);
        assert(put_inode(disk, sb, i, d)[bj].subrange(oj, oj + 110) =~= disk[bj].subrange(
            oj,
            oj + 110,
        ));
    }
}

/// An inode slot that is not refused lies inside a block of the device.
pub proof fn lemma_slot(sb: SuperBlock, i: int)
    requires
        0 <= i,
        slot_error(sb, i) is None,
    ensures
        ipb(sb) > 0,
        0 <= inode_block(sb, i) < sb.nblocks,
        0 <= inode_offset(sb, i),
        inode_offset(sb, i) + 110 <= sb.block_size,
        inode_offset(sb, i) == 110 * (i % ipb(sb)),
{
    let n = ipb(sb);
    lemma_mod_bound(i, n);
    lemma_div_pos_is_pos(i, n);
    assert((i % n) * 110 + 110 <= n * 110) by (nonlinear_arith)
        requires
            0 <= i % n < n,
    ;
}

/// Filling the slots `k..n` with free records leaves the slots below `k` as
/// they were.
pub proof fn lemma_init_keeps(disk: Seq<Seq<u8>>, sb: SuperBlock, k: int, n: int, j: int)
    requires
        disk_fits(disk, sb),
        0 <= j < k,
        slot_error(sb, j) is None,
        forall|i: int| k <= i < n ==> slot_error(sb, i) is None,
    ensures
        disk_fits(init_from(disk, sb, k, n), sb),
        inode_at(init_from(disk, sb, k, n), sb, j) == inode_at(disk, sb, j),
    decreases n - k,
{
    if k < n {
        lemma_put_inode_same(disk, sb, k, free_dinode());
        lemma_put_inode_other(disk, sb, k, free_dinode(), j);
        lemma_init_keeps(put_inode(disk, sb, k, free_dinode()), sb, k + 1, n, j);
    }
}

/// After the slots `k..n` are filled with free records, each of them reads
/// as a free inode.
pub proof fn lemma_init_reads(disk: Seq<Seq<u8>>, sb: SuperBlock, k: int, n: int, i: int)
    requires
        disk_fits(disk, sb),
        0 <= k <= i < n,
        forall|j: int| k <= j < n ==> slot_error(sb, j) is None,
    ensures
        disk_fits(init_from(disk, sb, k, n), sb),
        inode_at(init_from(disk, sb, k, n), sb, i) == Some(free_dinode()),
    decreases n - k,
{
    let next = put_inode(disk, sb, k, free_dinode());
    lemma_put_inode_same(disk, sb, k, free_dinode());
    if i == k {
        lemma_init_keeps(next, sb, k + 1, n, k);
    } else {
        lemma_init_reads(next, sb, k + 1, n, i);
    }
}

/// After `mkfs`, every inode reads as free.
pub proof fn lemma_mkfs_all_free(sb: SuperBlock, i: u64)
    requires
        inode_mkfs_error(sb) is None,
        i < sb.ninodes,
    ensures
        i_get_spec(fresh_inode_disk(sb), sb, i) == Ok::<DInodeView, CustomInodeFileSystemError>(
            free_dinode(),
        ),
{
    assert(slot_error(sb, i as int) is None);
    lemma_init_reads(fresh_disk(sb), sb, 0, sb.ninodes as int, i as int);
}

/// An inode that was written is the inode that is read.
pub proof fn lemma_put_then_get(disk: Seq<Seq<u8>>, sb: SuperBlock, i: u64, d: DInodeView)
    requires
        disk_fits(disk, sb),
        i < sb.ninodes,
        slot_error(sb, i as int) is None,
        d.direct_blocks.len() == 12,
    ensures
        i_get_spec(put_inode(disk, sb, i as int, d), sb, i) == Ok::<
            DInodeView,
            CustomInodeFileSystemError,
        >(d),
{
    lemma_put_inode_same(disk, sb, i as int, d);
}

/// Where the blocks named by `db[k..n]` are released without a refusal,
/// each of them is a data block that the bitmap then marks free; no bit
/// that was clear is set, and only blocks of the bitmap change.
pub proof fn lemma_free_from_clears(
    disk: Seq<Seq<u8>>,
    sb: SuperBlock,
    db: Seq<u64>,
    k: int,
    n: int,
)
    requires
        sb_valid_spec(sb),
        disk_fits(disk, sb),
        0 <= k,
        free_from(disk, sb, db, k, n).1 is None,
    ensures
        disk_fits(free_from(disk, sb, db, k, n).0, sb),
        forall|j: int|
            0 <= j < sb.ndatablocks && !bitmap_bit(disk, sb, j) ==> !bitmap_bit(
                free_from(disk, sb, db, k, n).0,
                sb,
                j,
            ),
        forall|m: int|
            k <= m < n && db[m] != 0 ==> {
                &&& sb.datastart <= #[trigger] db[m] < sb.datastart + sb.ndatablocks
                &&& !bitmap_bit(free_from(disk, sb, db, k, n).0, sb, db[m] - sb.datastart)
            },
        forall|b: int|
            0 <= b < disk.len() && (b < sb.bmapstart || b >= sb.datastart) ==> #[trigger] free_from(
                disk,
                sb,
                db,
                k,
                n,
            ).0[b] == disk[b],
    decreases n - k,
{
    if k < n {
        if db[k] == 0 {
            lemma_free_from_clears(disk, sb, db, k + 1, n);
        } else {
            let j0 = db[k] - sb.datastart;
            let next = clear_bit(disk, sb, j0);
            lemma_clear_bit(disk, sb, j0, j0);
            lemma_bit_pos(sb, j0);
            lemma_free_from_clears(next, sb, db, k + 1, n);
            let last = free_from(disk, sb, db, k, n).0;
            assert(last == free_from(next, sb, db, k + 1, n).0);
            assert forall|j: int| 0 <= j < sb.ndatablocks && !bitmap_bit(disk, sb, j) implies !bitmap_bit(
                last,
                sb,
                j,
            ) by {
                lemma_clear_bit(disk, sb, j0, j);
            }
        }
    }
}

/// After an inode without links is released, it reads as free, and the
/// bitmap marks free every block that held its content. This is stated for
/// an inode whose slot lies outside the bitmap.
pub proof fn lemma_i_free_releases(disk: Seq<Seq<u8>>, sb: SuperBlock, i: u64)
    requires
        sb_valid_spec(sb),
        disk_fits(disk, sb),
        i_free_spec(disk, sb, i).1 is Ok,
        i_get_spec(disk, sb, i)->Ok_0.nlink == 0,
        inode_block(sb, i as int) < sb.bmapstart || inode_block(sb, i as int) >= sb.datastart,
    ensures
        i_get_spec(i_free_spec(disk, sb, i).0, sb, i) is Ok,
        i_get_spec(i_free_spec(disk, sb, i).0, sb, i)->Ok_0.ft == FType::TFree,
        forall|m: int|
            0 <= m < used_blocks(i_get_spec(disk, sb, i)->Ok_0.size, sb.block_size)
                && i_get_spec(disk, sb, i)->Ok_0.direct_blocks[m] != 0 ==> !bitmap_bit(
                i_free_spec(disk, sb, i).0,
                sb,
                #[trigger] i_get_spec(disk, sb, i)->Ok_0.direct_blocks[m] - sb.datastart,
            ),
{
    let d = i_get_spec(disk, sb, i)->Ok_0;
    let n = used_blocks(d.size, sb.block_size);
    let freed = free_from(disk, sb, d.direct_blocks, 0, n);
    let cleared = DInodeView {
        ft: FType::TFree,
        nlink: d.nlink,
        size: d.size,
        direct_blocks: no_blocks(),
    };
    lemma_free_from_clears(disk, sb, d.direct_blocks, 0, n);
    lemma_slot(sb, i as int);
    lemma_put_inode_same(freed.0, sb, i as int, cleared);
    let post = put_inode(freed.0, sb, i as int, cleared);
    assert(post == i_free_spec(disk, sb, i).0);
    assert forall|m: int| 0 <= m < n && d.direct_blocks[m] != 0 implies !bitmap_bit(
        post,
        sb,
        #[trigger] d.direct_blocks[m] - sb.datastart,
    ) by {
        lemma_bits_outside(
            freed.0,
            sb,
            inode_block(sb, i as int),
            post[inode_block(sb, i as int)],
            d.direct_blocks[m] - sb.datastart,
        );
        assert(post =~= freed.0.update(
            inode_block(sb, i as int),
            post[inode_block(sb, i as int)],
        ));
    }
}

/// The result came from the block layer, or is a success.
pub open spec fn from_block<T>(r: Result<T, CustomInodeFileSystemError>) -> bool {
    r is Err ==> r->Err_0 is GivenError
}

/// The result as the block layer gave it.
pub open spec fn block_result<T>(r: Result<T, CustomInodeFileSystemError>) -> Result<
    T,
    CustomBlockFileSystemError,
> {
    match r {
        Ok(v) => Ok(v),
        Err(e) => Err(e->GivenError_0),
    }
}

/// Content that reaches beyond `k` blocks spans more than `k` blocks, and
/// content that spans fewer than twelve blocks fits in the blocks it spans.
pub proof fn lemma_used_blocks(size: u64, block_size: u64, k: int)
    requires
        block_size > 0,
    ensures
        0 <= used_blocks(size, block_size) <= 12,
        0 <= k < 12 && size > block_size * k ==> used_blocks(size, block_size) > k,
        used_blocks(size, block_size) < 12 ==> size <= used_blocks(size, block_size)
            * block_size,
{
    let b = block_size as int;
    let n = (size + b - 1) / b;
    lemma_fundamental_div_mod(size + b - 1, b);
    lemma_mod_bound(size + b - 1, b);
    lemma_div_pos_is_pos(size + b - 1, b);
    assert(n * b == b * n) by (nonlinear_arith);
    if 0 <= k < 12 && size > b * k {
        assert(b * (k + 1) == b * k + b) by (nonlinear_arith);
        lemma_div_is_ordered(b * (k + 1), size + b - 1, b);
        lemma_fundamental_div_mod_converse(
            b * (k + 1),
            b,
            k + 1,
            0,
        );
        assert((k + 1) * b == b * (k + 1)) by (nonlinear_arith);
    }
}

/// Number of blocks that `size` bytes span, at most 12.
pub fn count_used_blocks(size: u64, block_size: u64) -> (r: usize)
    requires
        block_size > 0,
    ensures
        r == used_blocks(size, block_size),
        r <= 12,
        r < 12 ==> size <= r * block_size < size + block_size,
{
    let q: u64 = size / block_size;
    let m: u64 = size % block_size;
    proof {
        let s = size as int;
        let b = block_size as int;
        lemma_fundamental_div_mod(s, b);
        lemma_mod_bound(s, b);
        assert((q + 1) * b == q * b + b && q * b == b * q) by (nonlinear_arith);
        if m == 0 {
            lemma_fundamental_div_mod_converse(
                s + b - 1,
                b,
                q as int,
                b - 1,
            );
        } else {
            lemma_fundamental_div_mod_converse(
                s + b - 1,
                b,
                q + 1,
                m - 1,
            );
        }
    }
    if q >= 12 {
        12
    } else if m == 0 {
        q as usize
    } else {
        (q + 1) as usize
    }
}

impl CustomInodeFileSystem {
    /// The block layer is well formed, and the cached position and density
    /// of the inodes are the superblock's.
    pub open spec fn wf(&self) -> bool {
        &&& self.block_system.wf()
        &&& self.inode_start == self.block_system.superblock.inodestart
        &&& self.nb_inodes_block == self.block_system.superblock.block_size / 110
    }

    /// The cached superblock, as contracts see it.
    pub open spec fn sb(&self) -> SuperBlock {
        self.block_system.superblock
    }

    /// Puts a block layer and the inode region's position and density
    /// together, unchecked.
    pub fn new(blockfs: CustomBlockFileSystem, is: u64, nib: u64) -> (r: CustomInodeFileSystem)
        ensures
            r.block_system == blockfs,
            r.inode_start == is,
            r.nb_inodes_block == nib,
    {
        CustomInodeFileSystem { block_system: blockfs, inode_start: is, nb_inodes_block: nib }
    }

    /// Whether `sb` keeps the rules of the layout.
    pub fn sb_valid(sb: &SuperBlock) -> (r: bool)
        ensures
            r == sb_valid_spec(*sb),
    {
        CustomBlockFileSystem::sb_valid(sb)
    }

    /// Makes a file system on a fresh device and writes a free record into
    /// every inode slot.
    pub fn mkfs(sb: &SuperBlock) -> (r: Result<CustomInodeFileSystem, CustomInodeFileSystemError>)
        ensures
            match r {
                Ok(fs) => {
                    &&& inode_mkfs_error(*sb) is None
                    &&& fs.wf()
                    &&& fs.sb() == *sb
                    &&& fs@ == fresh_inode_disk(*sb)
                },
                Err(e) => inode_mkfs_error(*sb) == Some(e),
            },
    {
        let block_fs = match CustomBlockFileSystem::mkfs(sb) {
            Ok(f) => f,
            Err(e) => {
                return Err(CustomInodeFileSystemError::GivenError(e));
            },
        };
        let nb_inodes_block: u64 = sb.block_size / DINODE_SIZE;
        let mut fs = CustomInodeFileSystem::new(block_fs, sb.inodestart, nb_inodes_block);
        let mut i: u64 = 0;
        while i < sb.ninodes
            invariant
                fs.wf(),
                fs.sb() == *sb,
                mkfs_error(*sb) is None,
                i <= sb.ninodes,
                forall|k: int| 0 <= k < i ==> slot_error(*sb, k) is None,
                init_from(fresh_disk(*sb), *sb, 0, sb.ninodes as int) == init_from(
                    fs@,
                    *sb,
                    i as int,
                    sb.ninodes as int,
                ),
            decreases sb.ninodes - i,
        {
            let ino = Inode::new(i, DInode::default());
            assert(ino.disk_node@ == free_dinode());
            match fs.i_put(&ino) {
                Ok(()) => {},
                Err(e) => {
                    assert(slot_error(*sb, i as int) is Some);
                    return Err(e);
                },
            }
            i += 1;
        }
        Ok(fs)
    }

    /// Takes over a device that holds a file system.
    pub fn mountfs(dev: Device) -> (r: Result<CustomInodeFileSystem, CustomInodeFileSystemError>)
        requires
            dev.wf(),
        ensures
            match r {
                Ok(fs) => {
                    &&& mount_error(dev) is None
                    &&& fs.wf()
                    &&& fs.block_system.device == dev
                    &&& fs.sb() == mounted_sb(dev)
                },
                Err(e) => {
                    &&& e is GivenError
                    &&& mount_error(dev) == Some(e->GivenError_0)
                },
            },
    {
        let block_fs = match CustomBlockFileSystem::mountfs(dev) {
            Ok(f) => f,
            Err(e) => {
                return Err(CustomInodeFileSystemError::GivenError(e));
            },
        };
        let sb = block_fs.superblock;
        let nb_inodes_block: u64 = sb.block_size / DINODE_SIZE;
        Ok(CustomInodeFileSystem::new(block_fs, sb.inodestart, nb_inodes_block))
    }

    /// Gives the device back.
    pub fn unmountfs(self) -> (r: Device)
        ensures
            r == self.block_system.device,
    {
        self.block_system.unmountfs()
    }

    /// A copy of block `i` of the device.
    pub fn b_get(&self, i: u64) -> (r: Result<Block, CustomInodeFileSystemError>)
        requires
            self.block_system.wf(),
        ensures
            from_block(r),
            b_get_post(self@, self.sb(), i, block_result(r)),
    {
        match self.block_system.b_get(i) {
            Ok(b) => Ok(b),
            Err(e) => Err(CustomInodeFileSystemError::GivenError(e)),
        }
    }

    /// Stores `b` as the block of index `b.block_no`.
    pub fn b_put(&mut self, b: &Block) -> (r: Result<(), CustomInodeFileSystemError>)
        requires
            old(self).block_system.wf(),
        ensures
            final(self).block_system.wf(),
            final(self).sb() == old(self).sb(),
            final(self).inode_start == old(self).inode_start,
            final(self).nb_inodes_block == old(self).nb_inodes_block,
            from_block(r),
            b_put_post(old(self)@, old(self).sb(), *b, final(self)@, block_result(r)),
    {
        match self.block_system.b_put(b) {
            Ok(()) => Ok(()),
            Err(e) => Err(CustomInodeFileSystemError::GivenError(e)),
        }
    }

    /// Marks data block `i` as free.
    pub fn b_free(&mut self, i: u64) -> (r: Result<(), CustomInodeFileSystemError>)
        requires
            old(self).block_system.wf(),
        ensures
            final(self).block_system.wf(),
            final(self).sb() == old(self).sb(),
            final(self).inode_start == old(self).inode_start,
            final(self).nb_inodes_block == old(self).nb_inodes_block,
            from_block(r),
            b_free_post(old(self)@, old(self).sb(), i, final(self)@, block_result(r)),
    {
        match self.block_system.b_free(i) {
            Ok(()) => Ok(()),
            Err(e) => Err(CustomInodeFileSystemError::GivenError(e)),
        }
    }

    /// Overwrites data block `i` with zero bytes.
    pub fn b_zero(&mut self, i: u64) -> (r: Result<(), CustomInodeFileSystemError>)
        requires
            old(self).block_system.wf(),
        ensures
            final(self).block_system.wf(),
            final(self).sb() == old(self).sb(),
            final(self).inode_start == old(self).inode_start,
            final(self).nb_inodes_block == old(self).nb_inodes_block,
            from_block(r),
            b_zero_post(old(self)@, old(self).sb(), i, final(self)@, block_result(r)),
    {
        match self.block_system.b_zero(i) {
            Ok(()) => Ok(()),
            Err(e) => Err(CustomInodeFileSystemError::GivenError(e)),
        }
    }

    /// Takes the free data block of least index.
    pub fn b_alloc(&mut self) -> (r: Result<u64, CustomInodeFileSystemError>)
        requires
            old(self).block_system.wf(),
        ensures
            final(self).block_system.wf(),
            final(self).sb() == old(self).sb(),
            final(self).inode_start == old(self).inode_start,
            final(self).nb_inodes_block == old(self).nb_inodes_block,
            from_block(r),
            b_alloc_post(old(self)@, old(self).sb(), final(self)@, block_result(r)),
    {
        match self.block_system.b_alloc() {
            Ok(j) => Ok(j),
            Err(e) => Err(CustomInodeFileSystemError::GivenError(e)),
        }
    }

    /// The cached superblock.
    pub fn sup_get(&self) -> (r: Result<SuperBlock, CustomInodeFileSystemError>)
        ensures
            r == Ok::<SuperBlock, CustomInodeFileSystemError>(self.sb()),
    {
        Ok(self.block_system.superblock)
    }

    /// Writes `sup` to block 0 and makes it the cached superblock.
    pub fn sup_put(&mut self, sup: &SuperBlock) -> (r: Result<(), CustomInodeFileSystemError>)
        requires
            old(self).block_system.wf(),
        ensures
            final(self).block_system.device.wf(),
            final(self).block_system.device.block_size() == old(
                self,
            ).block_system.device.block_size(),
            final(self).block_system.device.nblocks() == old(self).block_system.device.nblocks(),
            final(self).inode_start == old(self).inode_start,
            final(self).nb_inodes_block == old(self).nb_inodes_block,
            from_block(r),
            sup_put_post(
                old(self)@,
                old(self).sb(),
                *sup,
                final(self)@,
                final(self).sb(),
                block_result(r),
            ),
    {
        match self.block_system.sup_put(sup) {
            Ok(()) => Ok(()),
            Err(e) => Err(CustomInodeFileSystemError::GivenError(e)),
        }
    }

    /// The block and the offset in it at which inode `inum` lies, unless its
    /// slot is refused.
    fn inode_pos(&self, inum: u64) -> (r: Result<(u64, u64), CustomInodeFileSystemError>)
        requires
            self.wf(),
        ensures
            match r {
                Ok(p) => {
                    &&& slot_error(self.sb(), inum as int) is None
                    &&& p.0 == inode_block(self.sb(), inum as int)
                    &&& p.0 < self.sb().nblocks
                    &&& p.1 == inode_offset(self.sb(), inum as int)
                    &&& p.1 + 110 <= self.sb().block_size
                },
                Err(e) => slot_error(self.sb(), inum as int) == Some(e),
            },
    {
        let nib: u64 = self.nb_inodes_block;
        if nib == 0 {
            return Err(CustomInodeFileSystemError::APIError(DeviceError::OutOfBounds));
        }
        let q: u64 = inum / nib;
        let m: u64 = inum % nib;
        proof {
            lemma_mod_bound(inum as int, nib as int);
            assert(m * 110 + 110 <= nib * 110) by (nonlinear_arith)
                requires
                    0 <= m < nib,
            ;
        }
        let nblocks: u64 = self.block_system.superblock.nblocks;
        if q >= nblocks || self.inode_start >= nblocks - q {
            return Err(
                CustomInodeFileSystemError::GivenError(
                    CustomBlockFileSystemError::GivenError(DeviceError::BlockIndexOutOfRange),
                ),
            );
        }
        Ok((self.inode_start + q, m * DINODE_SIZE))
    }

    /// Reads inode `i`.
    pub fn i_get(&self, i: u64) -> (r: Result<Inode, CustomInodeFileSystemError>)
        requires
            self.wf(),
        ensures
            i_get_post(self@, self.sb(), i, r),
    {
        if i >= self.block_system.superblock.ninodes {
            return Err(CustomInodeFileSystemError::InodeIndexOutOfBounds);
        }
        let (blk, offset) = match self.inode_pos(i) {
            Ok(p) => p,
            Err(e) => {
                return Err(e);
            },
        };
        let block = match self.b_get(blk) {
            Ok(b) => b,
            Err(e) => {
                return Err(e);
            },
        };
        match block.deserialize_dinode(offset) {
            Ok(d) => Ok(Inode::new(i, d)),
            Err(e) => Err(CustomInodeFileSystemError::APIError(e)),
        }
    }

    /// Writes the record of `ino` into the slot of inode `ino.inum`.
    pub fn i_put(&mut self, ino: &Inode) -> (r: Result<(), CustomInodeFileSystemError>)
        requires
            old(self).wf(),
        ensures
            final(self).wf(),
            final(self).sb() == old(self).sb(),
            i_put_post(old(self)@, old(self).sb(), ino.inum, ino.disk_node@, final(self)@, r),
    {
        let (blk, offset) = match self.inode_pos(ino.inum) {
            Ok(p) => p,
            Err(e) => {
                return Err(e);
            },
        };
        let mut block = match self.b_get(blk) {
            Ok(b) => b,
            Err(e) => {
                return Err(e);
            },
        };
        match block.serialize_dinode(&ino.disk_node, offset) {
            Ok(()) => {},
            Err(e) => {
                return Err(CustomInodeFileSystemError::APIError(e));
            },
        }
        self.b_put(&block)
    }

    /// Releases the data blocks that the first `n` pointers of `db` name, up
    /// to the first that the block layer refuses.
    fn free_direct(&mut self, db: &[u64; 12], n: usize) -> (r: Result<
        (),
        CustomInodeFileSystemError,
    >)
        requires
            old(self).wf(),
            n <= 12,
        ensures
            final(self).wf(),
            final(self).sb() == old(self).sb(),
            final(self)@ == free_from(old(self)@, old(self).sb(), db@, 0, n as int).0,
            match r {
                Ok(()) => free_from(old(self)@, old(self).sb(), db@, 0, n as int).1 is None,
                Err(e) => e is GivenError && free_from(
                    old(self)@,
                    old(self).sb(),
                    db@,
                    0,
                    n as int,
                ).1 == Some(e->GivenError_0),
            },
    {
        let sb = self.block_system.superblock;
        let mut k: usize = 0;
        while k < n
            invariant
                self.wf(),
                self.sb() == sb,
                old(self).sb() == sb,
                k <= n <= 12,
                free_from(old(self)@, sb, db@, 0, n as int) == free_from(
                    self@,
                    sb,
                    db@,
                    k as int,
                    n as int,
                ),
            decreases n - k,
        {
            let element: u64 = db[k];
            if element != 0 {
                if element < sb.datastart {
                    return Err(
                        CustomInodeFileSystemError::GivenError(
                            CustomBlockFileSystemError::DataIndexOutOfBounds,
                        ),
                    );
                }
                match self.b_free(element - sb.datastart) {
                    Ok(()) => {},
                    Err(e) => {
                        return Err(e);
                    },
                }
            }
            k += 1;
        }
        Ok(())
    }

    /// Releases inode `i`: where it has no links, frees the data blocks that
    /// hold its content and marks it free.
    pub fn i_free(&mut self, i: u64) -> (r: Result<(), CustomInodeFileSystemError>)
        requires
            old(self).wf(),
        ensures
            final(self).wf(),
            final(self).sb() == old(self).sb(),
            (final(self)@, r) == i_free_spec(old(self)@, old(self).sb(), i),
    {
        let sb = self.block_system.superblock;
        let mut inode = match self.i_get(i) {
            Ok(ino) => ino,
            Err(e) => {
                return Err(e);
            },
        };
        match inode.disk_node.ft {
            FType::TFree => {
                return Err(CustomInodeFileSystemError::InodeAlreadyFree);
            },
            _ => {},
        }
        if inode.disk_node.nlink == 0 {
            let n = count_used_blocks(inode.disk_node.size, sb.block_size);
            match self.free_direct(&inode.disk_node.direct_blocks, n) {
                Ok(()) => {},
                Err(e) => {
                    return Err(e);
                },
            }
            inode.disk_node.ft = FType::TFree;
            inode.disk_node.direct_blocks = [0u64; 12];
            assert(inode.disk_node@.direct_blocks =~= no_blocks());
            match self.i_put(&inode) {
                Ok(()) => {},
                Err(e) => {
                    return Err(e);
                },
            }
        }
        Ok(())
    }

    /// Takes the free inode of least index, from 1 on, and gives it the type
    /// `ft`, no links and no content.
    pub fn i_alloc(&mut self, ft: FType) -> (r: Result<u64, CustomInodeFileSystemError>)
        requires
            old(self).wf(),
        ensures
            final(self).wf(),
            final(self).sb() == old(self).sb(),
            i_alloc_post(old(self)@, old(self).sb(), ft, final(self)@, r),
    {
        let ninodes: u64 = self.block_system.superblock.ninodes;
        let mut y: u64 = 1;
        while y < ninodes
            invariant
                self.wf(),
                *self == *old(self),
                ninodes == self.sb().ninodes,
                1 <= y,
                y <= ninodes || ninodes == 0,
                all_in_use(self@, self.sb(), y as int),
            decreases ninodes - y,
        {
            let mut inode = match self.i_get(y) {
                Ok(ino) => ino,
                Err(e) => {
                    assert(i_get_spec(self@, self.sb(), (y as int) as u64) == Err::<
                        DInodeView,
                        CustomInodeFileSystemError,
                    >(e));
                    return Err(e);
                },
            };
            match inode.disk_node.ft {
                FType::TFree => {
                    inode.disk_node.ft = ft;
                    inode.disk_node.size = 0;
                    inode.disk_node.nlink = 0;
                    match self.i_put(&inode) {
                        Ok(()) => {},
                        Err(e) => {
                            return Err(e);
                        },
                    }
                    return Ok(y);
                },
                _ => {},
            }
            y += 1;
        }
        Err(CustomInodeFileSystemError::NoFreeInode)
    }

    /// Cuts `inode` down to no content: frees the data blocks that hold its
    /// content, sets its size to 0, clears its block pointers and writes it
    /// back.
    pub fn i_trunc(&mut self, inode: &mut Inode) -> (r: Result<(), CustomInodeFileSystemError>)
        requires
            old(self).wf(),
        ensures
            final(self).wf(),
            final(self).sb() == old(self).sb(),
            final(inode).inum == old(inode).inum,
            (final(self)@, final(inode).disk_node@, r) == i_trunc_spec(
                old(self)@,
                old(self).sb(),
                old(inode).inum,
                old(inode).disk_node@,
            ),
    {
        let sb = self.block_system.superblock;
        let n = count_used_blocks(inode.disk_node.size, sb.block_size);
        match self.free_direct(&inode.disk_node.direct_blocks, n) {
            Ok(()) => {},
            Err(e) => {
                return Err(e);
            },
        }
        let cut = DInode {
            ft: inode.disk_node.ft,
            nlink: inode.disk_node.nlink,
            size: 0,
            direct_blocks: [0u64; 12],
        };
        assert(cut@.direct_blocks =~= no_blocks());
        inode.disk_node = cut;
        let written = Inode::new(inode.inum, cut);
        match self.i_put(&written) {
            Ok(()) => Ok(()),
            Err(e) => Err(e),
        }
    }
}

} // verus!
