//! The read-write layer: the content of an inode as a run of bytes over its
//! direct blocks, read and written at any offset, growing on writes past the
//! end.
use crate::a_block_support::b_alloc_post;
use crate::a_block_support::b_free_post;
use crate::a_block_support::b_get_post;
use crate::a_block_support::b_put_post;
use crate::a_block_support::b_zero_post;
use crate::a_block_support::first_free;
use crate::a_block_support::lemma_first_free_exists;
use crate::a_block_support::lemma_first_free_unique;
use crate::a_block_support::mount_error;
use crate::a_block_support::mounted_sb;
use crate::a_block_support::none_free;
use crate::a_block_support::sup_put_post;
use crate::a_block_support::CustomBlockFileSystemError;
use crate::a_block_support::MAX_BLOCK_SIZE;
use crate::b_inode_support::block_result;
use crate::b_inode_support::count_used_blocks;
use crate::b_inode_support::fresh_inode_disk;
use crate::b_inode_support::from_block;
use crate::b_inode_support::i_alloc_post;
use crate::b_inode_support::i_free_spec;
use crate::b_inode_support::i_get_post;
use crate::b_inode_support::i_put_post;
use crate::b_inode_support::i_trunc_spec;
use crate::b_inode_support::inode_mkfs_error;
use crate::b_inode_support::lemma_put_inode_same;
use crate::b_inode_support::put_inode;
use crate::b_inode_support::slot_error;
use crate::b_inode_support::used_blocks;
use crate::b_inode_support::CustomInodeFileSystem;
use crate::b_inode_support::CustomInodeFileSystemError;
use crate::device::disk_write;
use crate::device::splice;
use crate::device::zeros;
use crate::device::Block;
use crate::device::Buffer;
use crate::device::Device;
use crate::device::DeviceError;
use crate::layout::disk_fits;
use crate::layout::lemma_set_bit;
use crate::layout::sb_valid_spec;
use crate::layout::set_bit;
use crate::types::DInode;
use crate::types::DInodeView;
use crate::types::FType;
use crate::types::Inode;
use crate::types::SuperBlock;
use vstd::arithmetic::div_mod::lemma_div_is_ordered;
use vstd::arithmetic::div_mod::lemma_div_pos_is_pos;
use vstd::arithmetic::div_mod::lemma_fundamental_div_mod;
use vstd::arithmetic::div_mod::lemma_fundamental_div_mod_converse;
use vstd::arithmetic::div_mod::lemma_mod_bound;
use vstd::prelude::*;

verus! {

/// A file system that knows of blocks and inodes and reads and writes the
/// content of inodes.
pub struct CustomInodeRWFileSystem {
    /// The inode layer below.
    pub inode_fs: CustomInodeFileSystem,
}

/// What the read-write layer can refuse.
#[derive(Clone, Copy, Debug, PartialEq, Eq, Structural)]
pub enum CustomInodeRWFileSystemError {
    /// The inode layer refused.
    GivenError(CustomInodeFileSystemError),
    /// The offset lies beyond the end of the content.
    IndexOutOfBounds,
    /// A block or a buffer refused an access.
    APIError(DeviceError),
    /// The buffer holds fewer bytes than are to be written.
    BufTooSmall,
    /// The write would end beyond what twelve blocks hold.
    WriteTooLarge,
}

impl View for CustomInodeRWFileSystem {
    type V = Seq<Seq<u8>>;

    open spec fn view(&self) -> Seq<Seq<u8>> {
        self.inode_fs@
    }
}

/// The result came from the inode layer, or is a success.
pub open spec fn from_inode<T>(r: Result<T, CustomInodeRWFileSystemError>) -> bool {
    r is Err ==> r->Err_0 is GivenError
}

/// The result as the inode layer gave it.
pub open spec fn inode_result<T>(r: Result<T, CustomInodeRWFileSystemError>) -> Result<
    T,
    CustomInodeFileSystemError,
> {
    match r {
        Ok(v) => Ok(v),
        Err(e) => Err(e->GivenError_0),
    }
}

/// The error of a block pointer that names no block of the device.
pub open spec fn block_error() -> CustomInodeRWFileSystemError {
    CustomInodeRWFileSystemError::GivenError(
        CustomInodeFileSystemError::GivenError(
            CustomBlockFileSystemError::GivenError(DeviceError::BlockIndexOutOfRange),
        ),
    )
}

/// The error of a device on which every data block is in use.
pub open spec fn no_block_error() -> CustomInodeRWFileSystemError {
    CustomInodeRWFileSystemError::GivenError(
        CustomInodeFileSystemError::GivenError(CustomBlockFileSystemError::NoFreeDataBlock),
    )
}

/// The lesser of two numbers.
pub open spec fn least(a: int, b: int) -> int {
    if a <= b {
        a
    } else {
        b
    }
}

/// The end of the run of bytes that starts at the content byte `p`, lies in
/// one block and does not reach beyond `end`.
pub open spec fn run_end(sb: SuperBlock, p: int, end: int) -> int {
    least(end, (p / (sb.block_size as int) + 1) * sb.block_size)
}

/// The pointer for the content byte `p` names no block: it is 0, or the
/// byte lies beyond the twelfth block.
pub open spec fn hole_at(sb: SuperBlock, db: Seq<u64>, p: int) -> bool {
    p / (sb.block_size as int) >= 12 || db[p / (sb.block_size as int)] == 0
}

/// The bytes of the content from `p` up to `end`, read block by block up to
/// the first hole, and the error if a pointer names no block of the device.
pub open spec fn read_from(disk: Seq<Seq<u8>>, sb: SuperBlock, db: Seq<u64>, p: int, end: int) -> (
    Seq<u8>,
    Option<CustomInodeRWFileSystemError>,
)
    decreases end - p,
    via read_from_decreases
{
    let b = sb.block_size as int;
    if p >= end || b <= 0 || p < 0 {
        (Seq::<u8>::empty(), None)
    } else if hole_at(sb, db, p) {
        (Seq::<u8>::empty(), None)
    } else if db[p / b] >= sb.nblocks {
        (Seq::<u8>::empty(), Some(block_error()))
    } else {
        let stop = run_end(sb, p, end);
        let chunk = disk[db[p / b] as int].subrange(p % b, p % b + (stop - p));
        let rest = read_from(disk, sb, db, stop, end);
        (chunk + rest.0, rest.1)
    }
}

#[via_fn]
proof fn read_from_decreases(disk: Seq<Seq<u8>>, sb: SuperBlock, db: Seq<u64>, p: int, end: int) {
    if 0 <= p < end && sb.block_size > 0 {
        lemma_run_end(sb, p, end);
    }
}

/// A run starts before it ends, ends at or before `end`, and stays in the
/// block of its first byte.
pub proof fn lemma_run_end(sb: SuperBlock, p: int, end: int)
    requires
        sb.block_size > 0,
        0 <= p < end,
    ensures
        p < run_end(sb, p, end) <= end,
        run_end(sb, p, end) - p <= sb.block_size - p % (sb.block_size as int),
        0 <= p % (sb.block_size as int) < sb.block_size,
        0 <= p / (sb.block_size as int),
        (p / (sb.block_size as int) + 1) * sb.block_size == p - p % (sb.block_size as int)
            + sb.block_size,
{
    let b = sb.block_size as int;
    lemma_fundamental_div_mod(p, b);
    lemma_mod_bound(p, b);
    lemma_div_pos_is_pos(p, b);
    assert((p / b + 1) * b == b * (p / b) + b) by (nonlinear_arith);
}

/// Number of bytes that a read of `n` bytes at `off` into a buffer of
/// `room` bytes asks for.
pub open spec fn read_span(size: u64, off: u64, n: u64, room: int) -> int {
    least(least(n as int, room), size - off)
}

/// What `i_read` makes of the buffer, and what it returns.
pub open spec fn i_read_spec(
    disk: Seq<Seq<u8>>,
    sb: SuperBlock,
    d: DInodeView,
    buf: Seq<u8>,
    off: u64,
    n: u64,
) -> (Seq<u8>, Result<u64, CustomInodeRWFileSystemError>) {
    if off == d.size {
        (buf, Ok(0))
    } else if off > d.size {
        (buf, Err(CustomInodeRWFileSystemError::IndexOutOfBounds))
    } else {
        let got = read_from(
            disk,
            sb,
            d.direct_blocks,
            off as int,
            off + read_span(d.size, off, n, buf.len() as int),
        );
        (
            splice(buf, 0, got.0),
            match got.1 {
                None => Ok(got.0.len() as u64),
                Some(e) => Err(e),
            },
        )
    }
}

/// What taking a free block for each of the pointers `k..stop` makes of the
/// disk and of the pointers, up to the first refusal.
pub open spec fn grow_from(disk: Seq<Seq<u8>>, sb: SuperBlock, db: Seq<u64>, k: int, stop: int)
    -> (Seq<Seq<u8>>, Seq<u64>, Option<CustomInodeRWFileSystemError>)
    decreases stop - k,
{
    if k >= stop {
        (disk, db, None)
    } else if none_free(disk, sb) {
        (disk, db, Some(no_block_error()))
    } else {
        let j = choose|j: int| first_free(disk, sb, j);
        grow_from(
            set_bit(disk, sb, j).update(sb.datastart + j, zeros(sb.block_size as nat)),
            sb,
            db.update(k, (sb.datastart + j) as u64),
            k + 1,
            stop,
        )
    }
}

/// What writing the bytes `data[p - off .. end - off]` over the content
/// bytes `p..end` makes of the disk, block by block up to the first hole,
/// and the error if a pointer names no block of the device.
pub open spec fn write_from(
    disk: Seq<Seq<u8>>,
    sb: SuperBlock,
    db: Seq<u64>,
    data: Seq<u8>,
    off: int,
    p: int,
    end: int,
) -> (Seq<Seq<u8>>, Option<CustomInodeRWFileSystemError>)
    decreases end - p,
    via write_from_decreases
{
    let b = sb.block_size as int;
    if p >= end || b <= 0 || p < 0 {
        (disk, None)
    } else if hole_at(sb, db, p) {
        (disk, None)
    } else if db[p / b] >= sb.nblocks {
        (disk, Some(block_error()))
    } else {
        let stop = run_end(sb, p, end);
        write_from(
            disk_write(disk, db[p / b] as int, p % b, data.subrange(p - off, stop - off)),
            sb,
            db,
            data,
            off,
            stop,
            end,
        )
    }
}

#[via_fn]
proof fn write_from_decreases(
    disk: Seq<Seq<u8>>,
    sb: SuperBlock,
    db: Seq<u64>,
    data: Seq<u8>,
    off: int,
    p: int,
    end: int,
) {
    if 0 <= p < end && sb.block_size > 0 {
        lemma_run_end(sb, p, end);
    }
}

/// Number of blocks that a write ending at `end` adds to content of `size`
/// bytes: as many as the bytes beyond `size` span, while pointers are left.
pub open spec fn blocks_to_add(sb: SuperBlock, size: u64, end: int) -> int {
    let cur = used_blocks(size, sb.block_size);
    if end > cur * sb.block_size {
        least(used_blocks((end - size) as u64, sb.block_size), 12 - cur)
    } else {
        0
    }
}

/// What `i_write` makes of the disk and of the inode's record.
pub open spec fn i_write_spec(
    disk: Seq<Seq<u8>>,
    sb: SuperBlock,
    inum: u64,
    d: DInodeView,
    data: Seq<u8>,
    off: u64,
    n: u64,
) -> (Seq<Seq<u8>>, DInodeView, Result<(), CustomInodeRWFileSystemError>) {
    if off > d.size {
        (disk, d, Err(CustomInodeRWFileSystemError::IndexOutOfBounds))
    } else if data.len() < n {
        (disk, d, Err(CustomInodeRWFileSystemError::BufTooSmall))
    } else if off + n > 12 * sb.block_size {
        (disk, d, Err(CustomInodeRWFileSystemError::WriteTooLarge))
    } else {
        let cur = used_blocks(d.size, sb.block_size);
        let grown = grow_from(
            disk,
            sb,
            d.direct_blocks,
            cur,
            cur + blocks_to_add(sb, d.size, off + n),
        );
        match grown.2 {
            Some(e) => (
                grown.0,
                DInodeView { ft: d.ft, nlink: d.nlink, size: d.size, direct_blocks: grown.1 },
                Err(e),
            ),
            None => {
                let d2 = DInodeView {
                    ft: d.ft,
                    nlink: d.nlink,
                    size: if off + n > d.size {
                        (off + n) as u64
                    } else {
                        d.size
                    },
                    direct_blocks: grown.1,
                };
                match slot_error(sb, inum as int) {
                    Some(e) => (grown.0, d2, Err(CustomInodeRWFileSystemError::GivenError(e))),
                    None => {
                        let written = write_from(
                            put_inode(grown.0, sb, inum as int, d2),
                            sb,
                            grown.1,
                            data,
                            off as int,
                            off as int,
                            off + n,
                        );
                        (
                            written.0,
                            d2,
                            match written.1 {
                                None => Ok(()),
                                Some(e) => Err(e),
                            },
                        )
                    },
                }
            },
        }
    }
}

/// A write that would end beyond what twelve blocks hold fails, and neither
/// the disk nor the inode's record changes.
pub proof fn lemma_write_too_large(
    disk: Seq<Seq<u8>>,
    sb: SuperBlock,
    inum: u64,
    d: DInodeView,
    data: Seq<u8>,
    off: u64,
    n: u64,
)
    requires
        off + n > 12 * sb.block_size,
    ensures
        i_write_spec(disk, sb, inum, d, data, off, n).0 == disk,
        i_write_spec(disk, sb, inum, d, data, off, n).1 == d,
        i_write_spec(disk, sb, inum, d, data, off, n).2 is Err,
{
}

/// The pointers for the content bytes `p..end` name blocks of the device, no
/// two of them the same block.
pub open spec fn blocks_sound(sb: SuperBlock, db: Seq<u64>, p: int, end: int) -> bool {
    let b = sb.block_size as int;
    &&& forall|q: int| p / b <= q <= (end - 1) / b ==> 0 < #[trigger] db[q] < sb.nblocks
    &&& forall|q1: int, q2: int|
        p / b <= q1 <= (end - 1) / b && p / b <= q2 <= (end - 1) / b && q1 != q2 ==> #[trigger] db[q1]
            != #[trigger] db[q2]
}

/// Taking blocks keeps the shape of the disk.
pub proof fn lemma_grow_fits(disk: Seq<Seq<u8>>, sb: SuperBlock, db: Seq<u64>, k: int, stop: int)
    requires
        sb_valid_spec(sb),
        disk_fits(disk, sb),
        0 <= k,
        stop <= db.len(),
    ensures
        disk_fits(grow_from(disk, sb, db, k, stop).0, sb),
        grow_from(disk, sb, db, k, stop).1.len() == db.len(),
    decreases stop - k,
{
    if k < stop && !none_free(disk, sb) {
        lemma_first_free_exists(disk, sb);
        let j = choose|j: int| first_free(disk, sb, j);
        lemma_set_bit(disk, sb, j, j);
        lemma_grow_fits(
            set_bit(disk, sb, j).update(sb.datastart + j, zeros(sb.block_size as nat)),
            sb,
            db.update(k, (sb.datastart + j) as u64),
            k + 1,
            stop,
        );
    }
}

/// Bytes that were written over sound blocks are the bytes that are read:
/// the write meets no hole and no refusal, changes no block but those of
/// the pointers in its range, and a read of the same range gives the bytes
/// back.
pub proof fn lemma_write_read(
    disk: Seq<Seq<u8>>,
    sb: SuperBlock,
    db: Seq<u64>,
    data: Seq<u8>,
    off: int,
    p: int,
    end: int,
)
    requires
        sb.block_size > 0,
        disk_fits(disk, sb),
        db.len() == 12,
        0 <= off <= p <= end,
        end - off <= data.len(),
        end <= 12 * sb.block_size,
        blocks_sound(sb, db, p, end),
    ensures
        write_from(disk, sb, db, data, off, p, end).1 is None,
        disk_fits(write_from(disk, sb, db, data, off, p, end).0, sb),
        forall|x: int|
            0 <= x < disk.len() && (forall|q: int|
                p / (sb.block_size as int) <= q <= (end - 1) / (sb.block_size as int) ==> db[q]
                    != x) ==> #[trigger] write_from(disk, sb, db, data, off, p, end).0[x] == disk[x],
        read_from(write_from(disk, sb, db, data, off, p, end).0, sb, db, p, end) == (
            data.subrange(p - off, end - off),
            None::<CustomInodeRWFileSystemError>,
        ),
    decreases end - p,
{
    let b = sb.block_size as int;
    if p >= end {
        assert(data.subrange(p - off, end - off) =~= Seq::<u8>::empty());
    } else {
        lemma_run_end(sb, p, end);
        let q0 = p / b;
        let hi = (end - 1) / b;
        let stop = run_end(sb, p, end);
        lemma_block_range(sb, p, stop, end);
        assert(q0 <= hi);
        assert(q0 < 12);
        let blk = db[q0] as int;
        let chunk = data.subrange(p - off, stop - off);
        let next = disk_write(disk, blk, p % b, chunk);
        assert(disk_fits(next, sb));
        if stop < end {
            assert(stop / b == q0 + 1);
            assert(blocks_sound(sb, db, stop, end));
        } else {
            assert(blocks_sound(sb, db, stop, end));
        }
        lemma_write_read(next, sb, db, data, off, stop, end);
        let last = write_from(next, sb, db, data, off, stop, end).0;
        assert(last == write_from(disk, sb, db, data, off, p, end).0);
        assert(last[blk] == next[blk]) by {
            if stop < end {
                assert forall|q: int| stop / b <= q <= hi implies db[q] != blk by {
                    assert(q != q0);
                }
            }
        }
        assert forall|x: int|
            0 <= x < disk.len() && (forall|q: int| q0 <= q <= hi ==> db[q] != x) implies last[x]
            == disk[x] by {
            assert(db[q0] != x);
            assert(next[x] == disk[x]);
            assert forall|q: int| stop / b <= q <= hi implies db[q] != x by {
                assert(q0 <= q <= hi);
            }
        }
        let rest = read_from(last, sb, db, stop, end);
        assert(rest == (data.subrange(stop - off, end - off), None::<CustomInodeRWFileSystemError>));
        assert(!hole_at(sb, db, p));
        let got = last[blk].subrange(p % b, p % b + (stop - p));
        assert(got =~= chunk);
        assert(chunk + data.subrange(stop - off, end - off) =~= data.subrange(p - off, end - off));
    }
}

/// The block of the byte at which a run ends: where the run ends before
/// `end`, the next block; and no byte up to `end` lies in a block beyond the
/// block of the last byte.
pub proof fn lemma_block_range(sb: SuperBlock, p: int, stop: int, end: int)
    requires
        sb.block_size > 0,
        0 <= p < end,
        stop == run_end(sb, p, end),
        end <= 12 * sb.block_size,
    ensures
        p / (sb.block_size as int) <= (end - 1) / (sb.block_size as int) < 12,
        p / (sb.block_size as int) <= stop / (sb.block_size as int),
        stop < end ==> stop / (sb.block_size as int) == p / (sb.block_size as int) + 1,
        stop < end ==> stop / (sb.block_size as int) <= (end - 1) / (sb.block_size as int),
{
    let b = sb.block_size as int;
    lemma_run_end(sb, p, end);
    lemma_div_is_ordered(p, end - 1, b);
    lemma_div_is_ordered(p, stop, b);
    lemma_div_is_ordered(end - 1, 12 * b - 1, b);
    lemma_fundamental_div_mod_converse(12 * b - 1, b, 11, b - 1);
    if stop < end {
        lemma_fundamental_div_mod_converse(stop, b, p / b + 1, 0);
        lemma_div_is_ordered(stop, end - 1, b);
    }
}

/// What was written is what is read: after a write of `n` bytes at `off`
/// that succeeds, a read of `n` bytes at `off` into a buffer of at least `n`
/// bytes gives the `n` bytes that were written. This is stated for inodes
/// whose pointers, after the write, name distinct blocks of the device in
/// the range of the write.
pub proof fn lemma_write_then_read(
    disk: Seq<Seq<u8>>,
    sb: SuperBlock,
    inum: u64,
    d: DInodeView,
    data: Seq<u8>,
    off: u64,
    n: u64,
    out: Seq<u8>,
)
    requires
        sb_valid_spec(sb),
        sb.block_size <= MAX_BLOCK_SIZE,
        disk_fits(disk, sb),
        d.direct_blocks.len() == 12,
        out.len() >= n,
        i_write_spec(disk, sb, inum, d, data, off, n).2 is Ok,
        blocks_sound(
            sb,
            i_write_spec(disk, sb, inum, d, data, off, n).1.direct_blocks,
            off as int,
            off + n,
        ),
    ensures
        i_read_spec(
            i_write_spec(disk, sb, inum, d, data, off, n).0,
            sb,
            i_write_spec(disk, sb, inum, d, data, off, n).1,
            out,
            off,
            n,
        ) == (splice(out, 0, data.subrange(0, n as int)), Ok::<u64, CustomInodeRWFileSystemError>(n)),
{
    let cur = used_blocks(d.size, sb.block_size);
    let grown = grow_from(
        disk,
        sb,
        d.direct_blocks,
        cur,
        cur + blocks_to_add(sb, d.size, off + n),
    );
    lemma_grow_fits(disk, sb, d.direct_blocks, cur, cur + blocks_to_add(sb, d.size, off + n));
    let d2 = i_write_spec(disk, sb, inum, d, data, off, n).1;
    assert(off <= d.size);
    assert(data.len() >= n);
    assert(off + n <= 12 * sb.block_size);
    assert(grown.2 is None);
    assert(slot_error(sb, inum as int) is None);
    assert(d2.direct_blocks == grown.1);
    assert(d2.size >= off + n);
    lemma_put_inode_same(grown.0, sb, inum as int, d2);
    let start = put_inode(grown.0, sb, inum as int, d2);
    lemma_write_read(start, sb, d2.direct_blocks, data, off as int, off as int, off + n);
    let post = i_write_spec(disk, sb, inum, d, data, off, n).0;
    assert(post == write_from(start, sb, d2.direct_blocks, data, off as int, off as int, off + n).0);
    assert(data.subrange(off - off, off + n - off) =~= data.subrange(0, n as int));
    if off == d2.size {
        assert(n == 0);
        assert(splice(out, 0, data.subrange(0, n as int)) =~= out);
    } else {
        assert(read_span(d2.size, off, n, out.len() as int) == n);
    }
}

impl CustomInodeRWFileSystem {
    /// The inode layer is well formed.
    pub open spec fn wf(&self) -> bool {
        self.inode_fs.wf()
    }

    /// The cached superblock, as contracts see it.
    pub open spec fn sb(&self) -> SuperBlock {
        self.inode_fs.sb()
    }

    /// Wraps an inode layer.
    pub fn new(inodefs: CustomInodeFileSystem) -> (r: CustomInodeRWFileSystem)
        ensures
            r.inode_fs == inodefs,
    {
        CustomInodeRWFileSystem { inode_fs: inodefs }
    }

    /// Whether `sb` keeps the rules of the layout.
    pub fn sb_valid(sb: &SuperBlock) -> (r: bool)
        ensures
            r == sb_valid_spec(*sb),
    {
        CustomInodeFileSystem::sb_valid(sb)
    }

    /// Makes a file system on a fresh device, with every inode free.
    pub fn mkfs(sb: &SuperBlock) -> (r: Result<
        CustomInodeRWFileSystem,
        CustomInodeRWFileSystemError,
    >)
        ensures
            match r {
                Ok(fs) => {
                    &&& inode_mkfs_error(*sb) is None
                    &&& fs.wf()
                    &&& fs.sb() == *sb
                    &&& fs@ == fresh_inode_disk(*sb)
                },
                Err(e) => e is GivenError && inode_mkfs_error(*sb) == Some(e->GivenError_0),
            },
    {
        match CustomInodeFileSystem::mkfs(sb) {
            Ok(f) => Ok(CustomInodeRWFileSystem::new(f)),
            Err(e) => Err(CustomInodeRWFileSystemError::GivenError(e)),
        }
    }

    /// Takes over a device that holds a file system.
    pub fn mountfs(dev: Device) -> (r: Result<CustomInodeRWFileSystem, CustomInodeRWFileSystemError>)
        requires
            dev.wf(),
        ensures
            match r {
                Ok(fs) => {
                    &&& mount_error(dev) is None
                    &&& fs.wf()
                    &&& fs.inode_fs.block_system.device == dev
                    &&& fs.sb() == mounted_sb(dev)
                },
                Err(e) => {
                    &&& e is GivenError
                    &&& e->GivenError_0 is GivenError
                    &&& mount_error(dev) == Some(e->GivenError_0->GivenError_0)
                },
            },
    {
        match CustomInodeFileSystem::mountfs(dev) {
            Ok(f) => Ok(CustomInodeRWFileSystem::new(f)),
            Err(e) => Err(CustomInodeRWFileSystemError::GivenError(e)),
        }
    }

    /// Gives the device back.
    pub fn unmountfs(self) -> (r: Device)
        ensures
            r == self.inode_fs.block_system.device,
    {
        self.inode_fs.unmountfs()
    }

    /// A copy of block `i` of the device.
    pub fn b_get(&self, i: u64) -> (r: Result<Block, CustomInodeRWFileSystemError>)
        requires
            self.wf(),
        ensures
            from_inode(r),
            from_block(inode_result(r)),
            b_get_post(self@, self.sb(), i, block_result(inode_result(r))),
    {
        match self.inode_fs.b_get(i) {
            Ok(b) => Ok(b),
            Err(e) => Err(CustomInodeRWFileSystemError::GivenError(e)),
        }
    }

    /// Stores `b` as the block of index `b.block_no`.
    pub fn b_put(&mut self, b: &Block) -> (r: Result<(), CustomInodeRWFileSystemError>)
        requires
            old(self).wf(),
        ensures
            final(self).wf(),
            final(self).sb() == old(self).sb(),
            from_inode(r),
            from_block(inode_result(r)),
            b_put_post(old(self)@, old(self).sb(), *b, final(self)@, block_result(inode_result(r))),
    {
        match self.inode_fs.b_put(b) {
            Ok(()) => Ok(()),
            Err(e) => Err(CustomInodeRWFileSystemError::GivenError(e)),
        }
    }

    /// Marks data block `i` as free.
    pub fn b_free(&mut self, i: u64) -> (r: Result<(), CustomInodeRWFileSystemError>)
        requires
            old(self).wf(),
        ensures
            final(self).wf(),
            final(self).sb() == old(self).sb(),
            from_inode(r),
            from_block(inode_result(r)),
            b_free_post(old(self)@, old(self).sb(), i, final(self)@, block_result(inode_result(r))),
    {
        match self.inode_fs.b_free(i) {
            Ok(()) => Ok(()),
            Err(e) => Err(CustomInodeRWFileSystemError::GivenError(e)),
        }
    }

    /// Overwrites data block `i` with zero bytes.
    pub fn b_zero(&mut self, i: u64) -> (r: Result<(), CustomInodeRWFileSystemError>)
        requires
            old(self).wf(),
        ensures
            final(self).wf(),
            final(self).sb() == old(self).sb(),
            from_inode(r),
            from_block(inode_result(r)),
            b_zero_post(old(self)@, old(self).sb(), i, final(self)@, block_result(inode_result(r))),
    {
        match self.inode_fs.b_zero(i) {
            Ok(()) => Ok(()),
            Err(e) => Err(CustomInodeRWFileSystemError::GivenError(e)),
        }
    }

    /// Takes the free data block of least index.
    pub fn b_alloc(&mut self) -> (r: Result<u64, CustomInodeRWFileSystemError>)
        requires
            old(self).wf(),
        ensures
            final(self).wf(),
            final(self).sb() == old(self).sb(),
            from_inode(r),
            from_block(inode_result(r)),
            b_alloc_post(old(self)@, old(self).sb(), final(self)@, block_result(inode_result(r))),
    {
        match self.inode_fs.b_alloc() {
            Ok(j) => Ok(j),
            Err(e) => Err(CustomInodeRWFileSystemError::GivenError(e)),
        }
    }

    /// The cached superblock.
    pub fn sup_get(&self) -> (r: Result<SuperBlock, CustomInodeRWFileSystemError>)
        ensures
            r == Ok::<SuperBlock, CustomInodeRWFileSystemError>(self.sb()),
    {
        Ok(self.inode_fs.block_system.superblock)
    }

    /// Writes `sup` to block 0 and makes it the cached superblock.
    pub fn sup_put(&mut self, sup: &SuperBlock) -> (r: Result<(), CustomInodeRWFileSystemError>)
        requires
            old(self).wf(),
        ensures
            final(self).inode_fs.block_system.device.wf(),
            final(self).inode_fs.block_system.device.block_size() == old(
                self,
            ).inode_fs.block_system.device.block_size(),
            final(self).inode_fs.block_system.device.nblocks() == old(
                self,
            ).inode_fs.block_system.device.nblocks(),
            final(self).inode_fs.inode_start == old(self).inode_fs.inode_start,
            final(self).inode_fs.nb_inodes_block == old(self).inode_fs.nb_inodes_block,
            from_inode(r),
            from_block(inode_result(r)),
            sup_put_post(
                old(self)@,
                old(self).sb(),
                *sup,
                final(self)@,
                final(self).sb(),
                block_result(inode_result(r)),
            ),
    {
        match self.inode_fs.sup_put(sup) {
            Ok(()) => Ok(()),
            Err(e) => Err(CustomInodeRWFileSystemError::GivenError(e)),
        }
    }

    /// Reads inode `i`.
    pub fn i_get(&self, i: u64) -> (r: Result<Inode, CustomInodeRWFileSystemError>)
        requires
            self.wf(),
        ensures
            from_inode(r),
            i_get_post(self@, self.sb(), i, inode_result(r)),
    {
        match self.inode_fs.i_get(i) {
            Ok(ino) => Ok(ino),
            Err(e) => Err(CustomInodeRWFileSystemError::GivenError(e)),
        }
    }

    /// Writes the record of `ino` into the slot of inode `ino.inum`.
    pub fn i_put(&mut self, ino: &Inode) -> (r: Result<(), CustomInodeRWFileSystemError>)
        requires
            old(self).wf(),
        ensures
            final(self).wf(),
            final(self).sb() == old(self).sb(),
            from_inode(r),
            i_put_post(
                old(self)@,
                old(self).sb(),
                ino.inum,
                ino.disk_node@,
                final(self)@,
                inode_result(r),
            ),
    {
        match self.inode_fs.i_put(ino) {
            Ok(()) => Ok(()),
            Err(e) => Err(CustomInodeRWFileSystemError::GivenError(e)),
        }
    }

    /// Releases inode `i`.
    pub fn i_free(&mut self, i: u64) -> (r: Result<(), CustomInodeRWFileSystemError>)
        requires
            old(self).wf(),
        ensures
            final(self).wf(),
            final(self).sb() == old(self).sb(),
            from_inode(r),
            (final(self)@, inode_result(r)) == i_free_spec(old(self)@, old(self).sb(), i),
    {
        match self.inode_fs.i_free(i) {
            Ok(()) => Ok(()),
            Err(e) => Err(CustomInodeRWFileSystemError::GivenError(e)),
        }
    }

    /// Takes the free inode of least index, from 1 on.
    pub fn i_alloc(&mut self, ft: FType) -> (r: Result<u64, CustomInodeRWFileSystemError>)
        requires
            old(self).wf(),
        ensures
            final(self).wf(),
            final(self).sb() == old(self).sb(),
            from_inode(r),
            i_alloc_post(old(self)@, old(self).sb(), ft, final(self)@, inode_result(r)),
    {
        match self.inode_fs.i_alloc(ft) {
            Ok(y) => Ok(y),
            Err(e) => Err(CustomInodeRWFileSystemError::GivenError(e)),
        }
    }

    /// Cuts `inode` down to no content.
    pub fn i_trunc(&mut self, inode: &mut Inode) -> (r: Result<(), CustomInodeRWFileSystemError>)
        requires
            old(self).wf(),
        ensures
            final(self).wf(),
            final(self).sb() == old(self).sb(),
            final(inode).inum == old(inode).inum,
            from_inode(r),
            (final(self)@, final(inode).disk_node@, inode_result(r)) == i_trunc_spec(
                old(self)@,
                old(self).sb(),
                old(inode).inum,
                old(inode).disk_node@,
            ),
    {
        match self.inode_fs.i_trunc(inode) {
            Ok(()) => Ok(()),
            Err(e) => Err(CustomInodeRWFileSystemError::GivenError(e)),
        }
    }


    /// Reads up to `n` bytes of the content of `inode` from offset `off` on
    /// into the start of `buf`, and returns how many were read: as many as
    /// `n`, the buffer and the content after `off` allow, or fewer where a
    /// block pointer in that range is 0.
    pub fn i_read(&self, inode: &Inode, buf: &mut Buffer, off: u64, n: u64) -> (r: Result<
        u64,
        CustomInodeRWFileSystemError,
    >)
        requires
            self.wf(),
        ensures
            (final(buf)@, r) == i_read_spec(
                self@,
                self.sb(),
                inode.disk_node@,
                old(buf)@,
                off,
                n,
            ),
    {
        let size: u64 = inode.disk_node.size;
        if off == size {
            return Ok(0);
        }
        if off > size {
            return Err(CustomInodeRWFileSystemError::IndexOutOfBounds);
        }
        let sb = self.inode_fs.block_system.superblock;
        let room: u64 = buf.len();
        let mut span: u64 = size - off;
        if n < span {
            span = n;
        }
        if room < span {
            span = room;
        }
        let ghost db = inode.disk_node@.direct_blocks;
        let ghost end: int = off + span;
        let ghost mut acc: Seq<u8> = Seq::<u8>::empty();
        let mut done: u64 = 0;
        assert(buf@ =~= splice(old(buf)@, 0, acc));
        assert(acc + read_from(self@, sb, db, off as int, end).0 =~= read_from(
            self@,
            sb,
            db,
            off as int,
            end,
        ).0);
        while done < span
            invariant
                self.wf(),
                sb == self.sb(),
                db == inode.disk_node@.direct_blocks,
                done <= span,
                end == off + span,
                off < inode.disk_node.size,
                span == read_span(inode.disk_node.size, off, n, old(buf)@.len() as int),
                off + span <= inode.disk_node.size,
                span <= old(buf)@.len(),
                buf@.len() == old(buf)@.len(),
                acc.len() == done,
                buf@ == splice(old(buf)@, 0, acc),
                read_from(self@, sb, db, off as int, end) == (
                    acc + read_from(self@, sb, db, off + done, end).0,
                    read_from(self@, sb, db, off + done, end).1,
                ),
            decreases span - done,
        {
            let p: u64 = off + done;
            let q: u64 = p / sb.block_size;
            let within: u64 = p % sb.block_size;
            proof {
                lemma_run_end(sb, p as int, end);
            }
            if q >= 12 {
                assert(acc + Seq::<u8>::empty() =~= acc);
                return Ok(done);
            }
            let element: u64 = inode.disk_node.direct_blocks[q as usize];
            if element == 0 {
                assert(acc + Seq::<u8>::empty() =~= acc);
                return Ok(done);
            }
            let block = match self.inode_fs.b_get(element) {
                Ok(b) => b,
                Err(e) => {
                    assert(acc + Seq::<u8>::empty() =~= acc);
                    return Err(CustomInodeRWFileSystemError::GivenError(e));
                },
            };
            let mut count: u64 = sb.block_size - within;
            if span - done < count {
                count = span - done;
            }
            let mut chunk: Vec<u8> = vec![0u8; count as usize];
            match block.read_data(&mut chunk, within) {
                Ok(()) => {},
                Err(e) => {
                    return Err(CustomInodeRWFileSystemError::APIError(e));
                },
            }
            match buf.write_data(&chunk, done) {
                Ok(()) => {},
                Err(e) => {
                    return Err(CustomInodeRWFileSystemError::APIError(e));
                },
            }
            proof {
                let stop = run_end(sb, p as int, end);
                assert(stop == p + count);
                let rest = read_from(self@, sb, db, stop, end);
                assert(read_from(self@, sb, db, p as int, end) == (chunk@ + rest.0, rest.1));
                assert(buf@ =~= splice(old(buf)@, 0, acc + chunk@));
                assert(acc + (chunk@ + rest.0) =~= (acc + chunk@) + rest.0);
                acc = acc + chunk@;
            }
            done = done + count;
        }
        assert(acc + Seq::<u8>::empty() =~= acc);
        Ok(done)
    }

    /// Takes a free data block for each of the pointers `k0..stop`, up to
    /// the first refusal.
    fn grow(&mut self, pointers: [u64; 12], k0: usize, stop: usize) -> (r: (
        [u64; 12],
        Result<(), CustomInodeRWFileSystemError>,
    ))
        requires
            old(self).wf(),
            k0 <= stop <= 12,
        ensures
            final(self).wf(),
            final(self).sb() == old(self).sb(),
            final(self)@ == grow_from(
                old(self)@,
                old(self).sb(),
                pointers@,
                k0 as int,
                stop as int,
            ).0,
            r.0@ == grow_from(old(self)@, old(self).sb(), pointers@, k0 as int, stop as int).1,
            match r.1 {
                Ok(()) => grow_from(
                    old(self)@,
                    old(self).sb(),
                    pointers@,
                    k0 as int,
                    stop as int,
                ).2 is None,
                Err(e) => grow_from(
                    old(self)@,
                    old(self).sb(),
                    pointers@,
                    k0 as int,
                    stop as int,
                ).2 == Some(e),
            },
    {
        let sb = self.inode_fs.block_system.superblock;
        let mut grown: [u64; 12] = pointers;
        let mut k: usize = k0;
        while k < stop
            invariant
                self.wf(),
                sb == self.sb(),
                sb == old(self).sb(),
                k0 <= k <= stop <= 12,
                grow_from(old(self)@, sb, pointers@, k0 as int, stop as int) == grow_from(
                    self@,
                    sb,
                    grown@,
                    k as int,
                    stop as int,
                ),
            decreases stop - k,
        {
            let ghost before = self@;
            let j: u64 = match self.inode_fs.b_alloc() {
                Ok(j) => j,
                Err(e) => {
                    return (grown, Err(CustomInodeRWFileSystemError::GivenError(e)));
                },
            };
            proof {
                let chosen = choose|c: int| first_free(before, sb, c);
                lemma_first_free_unique(before, sb, chosen, j as int);
            }
            grown[k] = sb.datastart + j;
            k += 1;
        }
        (grown, Ok(()))
    }

    /// Writes the bytes `buf[0 .. end - off]` over the content bytes
    /// `off..end`, block by block up to the first hole.
    fn transfer(&mut self, pointers: &[u64; 12], buf: &Buffer, off: u64, end: u64) -> (r: Result<
        (),
        CustomInodeRWFileSystemError,
    >)
        requires
            old(self).wf(),
            off <= end,
            end - off <= buf@.len(),
        ensures
            final(self).wf(),
            final(self).sb() == old(self).sb(),
            final(self)@ == write_from(
                old(self)@,
                old(self).sb(),
                pointers@,
                buf@,
                off as int,
                off as int,
                end as int,
            ).0,
            match r {
                Ok(()) => write_from(
                    old(self)@,
                    old(self).sb(),
                    pointers@,
                    buf@,
                    off as int,
                    off as int,
                    end as int,
                ).1 is None,
                Err(e) => write_from(
                    old(self)@,
                    old(self).sb(),
                    pointers@,
                    buf@,
                    off as int,
                    off as int,
                    end as int,
                ).1 == Some(e),
            },
    {
        let sb = self.inode_fs.block_system.superblock;
        let mut p: u64 = off;
        while p < end
            invariant
                self.wf(),
                sb == self.sb(),
                sb == old(self).sb(),
                off <= p <= end,
                end - off <= buf@.len(),
                write_from(old(self)@, sb, pointers@, buf@, off as int, off as int, end as int)
                    == write_from(self@, sb, pointers@, buf@, off as int, p as int, end as int),
            decreases end - p,
        {
            let q: u64 = p / sb.block_size;
            let within: u64 = p % sb.block_size;
            proof {
                lemma_run_end(sb, p as int, end as int);
            }
            if q >= 12 {
                return Ok(());
            }
            let element: u64 = pointers[q as usize];
            if element == 0 {
                return Ok(());
            }
            let mut block = match self.inode_fs.b_get(element) {
                Ok(b) => b,
                Err(e) => {
                    return Err(CustomInodeRWFileSystemError::GivenError(e));
                },
            };
            let mut count: u64 = sb.block_size - within;
            if end - p < count {
                count = end - p;
            }
            let mut chunk: Vec<u8> = vec![0u8; count as usize];
            match buf.read_data(&mut chunk, p - off) {
                Ok(()) => {},
                Err(e) => {
                    return Err(CustomInodeRWFileSystemError::APIError(e));
                },
            }
            match block.write_data(&chunk, within) {
                Ok(()) => {},
                Err(e) => {
                    return Err(CustomInodeRWFileSystemError::APIError(e));
                },
            }
            match self.inode_fs.b_put(&block) {
                Ok(()) => {},
                Err(e) => {
                    return Err(CustomInodeRWFileSystemError::GivenError(e));
                },
            }
            p = p + count;
        }
        Ok(())
    }

    /// Writes the first `n` bytes of `buf` over the content of `inode` from
    /// offset `off` on. Where the write ends beyond the blocks that hold the
    /// content, new blocks are taken first; where it ends beyond the
    /// content, the content grows to the write's end. The inode is written
    /// back before the bytes are. The bytes are written block by block; at
    /// a block pointer that is 0 the writing ends.
    pub fn i_write(&mut self, inode: &mut Inode, buf: &Buffer, off: u64, n: u64) -> (r: Result<
        (),
        CustomInodeRWFileSystemError,
    >)
        requires
            old(self).wf(),
        ensures
            final(self).wf(),
            final(self).sb() == old(self).sb(),
            final(inode).inum == old(inode).inum,
            (final(self)@, final(inode).disk_node@, r) == i_write_spec(
                old(self)@,
                old(self).sb(),
                old(inode).inum,
                old(inode).disk_node@,
                buf@,
                off,
                n,
            ),
    {
        let size: u64 = inode.disk_node.size;
        if off > size {
            return Err(CustomInodeRWFileSystemError::IndexOutOfBounds);
        }
        if buf.len() < n {
            return Err(CustomInodeRWFileSystemError::BufTooSmall);
        }
        let sb = self.inode_fs.block_system.superblock;
        let limit: u64 = 12 * sb.block_size;
        if off > limit || n > limit - off {
            return Err(CustomInodeRWFileSystemError::WriteTooLarge);
        }
        let end: u64 = off + n;
        let cur: usize = count_used_blocks(size, sb.block_size);
        proof {
            assert(cur * sb.block_size <= 12 * MAX_BLOCK_SIZE) by (nonlinear_arith)
                requires
                    0 <= cur <= 12,
                    0 <= sb.block_size <= MAX_BLOCK_SIZE,
            ;
            assert(cur * sb.block_size >= 0) by (nonlinear_arith)
                requires
                    0 <= cur,
                    0 <= sb.block_size,
            ;
        }
        let mut add: usize = 0;
        if end > (cur as u64) * sb.block_size {
            add = count_used_blocks(end - size, sb.block_size);
            if 12 - cur < add {
                add = 12 - cur;
            }
        }
        let (pointers, grown) = self.grow(inode.disk_node.direct_blocks, cur, cur + add);
        match grown {
            Ok(()) => {},
            Err(e) => {
                inode.disk_node.direct_blocks = pointers;
                return Err(e);
            },
        }
        let record = DInode {
            ft: inode.disk_node.ft,
            nlink: inode.disk_node.nlink,
            size: if end > size {
                end
            } else {
                size
            },
            direct_blocks: pointers,
        };
        inode.disk_node = record;
        let written = Inode::new(inode.inum, record);
        match self.inode_fs.i_put(&written) {
            Ok(()) => {},
            Err(e) => {
                return Err(CustomInodeRWFileSystemError::GivenError(e));
            },
        }
        match self.transfer(&pointers, buf, off, end) {
            Ok(()) => Ok(()),
            Err(e) => Err(e),
        }
    }
}

} // verus!
