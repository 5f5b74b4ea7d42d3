//! Where things lie on the device: the validity of a superblock and the
//! position of a data block's bit in the free-block bitmap.
use crate::device::disk_write;
use crate::types::SuperBlock;
use vstd::arithmetic::div_mod::*;
use vstd::arithmetic::mul::*;
use vstd::prelude::*;

verus! {

/// The regions of a superblock are ordered, large enough for what they hold,
/// and fit on the device.
pub open spec fn sb_valid_spec(sb: SuperBlock) -> bool {
    &&& sb.inodestart > 0
    &&& sb.inodestart < sb.bmapstart
    &&& sb.bmapstart < sb.datastart
    &&& 110 * sb.ninodes <= (sb.bmapstart - sb.inodestart) * sb.block_size
    &&& (sb.datastart - sb.bmapstart) * sb.block_size * 8 >= sb.ndatablocks
    &&& sb.datastart + sb.ndatablocks <= sb.nblocks
    &&& 1 + (sb.bmapstart - sb.inodestart) + (sb.datastart - sb.bmapstart) + sb.ndatablocks
        <= sb.nblocks
}

/// The disk has the number of blocks and the block size that `sb` names.
pub open spec fn disk_fits(disk: Seq<Seq<u8>>, sb: SuperBlock) -> bool {
    &&& disk.len() == sb.nblocks
    &&& forall|i: int| 0 <= i < disk.len() ==> (#[trigger] disk[i]).len() == sb.block_size
}

/// Index of the block that holds the bit of data block `j`.
pub open spec fn bit_block(sb: SuperBlock, j: int) -> int {
    sb.bmapstart + j / (sb.block_size * 8)
}

/// Offset, in its block, of the byte that holds the bit of data block `j`.
pub open spec fn bit_byte(sb: SuperBlock, j: int) -> int {
    (j % (sb.block_size * 8)) / 8
}

/// The bit of data block `j` within its byte, least significant bit first.
pub open spec fn bit_mask(j: int) -> u8 {
    1u8 << ((j % 8) as u8)
}

/// Whether the bitmap marks data block `j` as in use.
pub open spec fn bitmap_bit(disk: Seq<Seq<u8>>, sb: SuperBlock, j: int) -> bool {
    disk[bit_block(sb, j)][bit_byte(sb, j)] & bit_mask(j) != 0
}

/// The disk with the bit of data block `j` set.
pub open spec fn set_bit(disk: Seq<Seq<u8>>, sb: SuperBlock, j: int) -> Seq<Seq<u8>> {
    disk_write(
        disk,
        bit_block(sb, j),
        bit_byte(sb, j),
        seq![disk[bit_block(sb, j)][bit_byte(sb, j)] | bit_mask(j)],
    )
}

/// The disk with the bit of data block `j` cleared.
pub open spec fn clear_bit(disk: Seq<Seq<u8>>, sb: SuperBlock, j: int) -> Seq<Seq<u8>> {
    disk_write(
        disk,
        bit_block(sb, j),
        bit_byte(sb, j),
        seq![disk[bit_block(sb, j)][bit_byte(sb, j)] & !bit_mask(j)],
    )
}

/// The bit of a data block lies in the bitmap region, inside its block.
pub proof fn lemma_bit_pos(sb: SuperBlock, j: int)
    requires
        sb_valid_spec(sb),
        0 <= j < sb.ndatablocks,
    ensures
        sb.block_size > 0,
        sb.bmapstart <= bit_block(sb, j) < sb.datastart,
        0 <= bit_byte(sb, j) < sb.block_size,
        bit_block(sb, j) == sb.bmapstart + (j / 8) / (sb.block_size as int),
        bit_byte(sb, j) == (j / 8) % (sb.block_size as int),
{
    let b = sb.block_size as int;
    let n = sb.datastart - sb.bmapstart;
    if b == 0 {
        assert(n * b * 8 == 0) by (nonlinear_arith)
            requires
                b == 0,
        ;
    }
    lemma_div_denominator(j, 8, b);
    lemma_breakdown(j, 8, b);
    assert(8 * b == b * 8);
    assert(j % (b * 8) == 8 * ((j / 8) % b) + j % 8);
    assert((8 * ((j / 8) % b) + j % 8) / 8 == (j / 8) % b) by {
        lemma_fundamental_div_mod_converse(8 * ((j / 8) % b) + j % 8, 8, (j / 8) % b, j % 8);
    }
    lemma_mod_bound(j / 8, b);
    assert(j < (b * 8) * n) by (nonlinear_arith)
        requires
            j < n * b * 8,
    ;
    lemma_multiply_divide_lt(j, b * 8, n);
    lemma_div_pos_is_pos(j, b * 8);
}

/// Two data blocks that share a bitmap block, a byte and a bit are the same.
pub proof fn lemma_bit_pos_distinct(sb: SuperBlock, j: int, k: int)
    requires
        sb_valid_spec(sb),
        0 <= j < sb.ndatablocks,
        0 <= k < sb.ndatablocks,
        bit_block(sb, j) == bit_block(sb, k),
        bit_byte(sb, j) == bit_byte(sb, k),
        j % 8 == k % 8,
    ensures
        j == k,
{
    lemma_bit_pos(sb, j);
    lemma_bit_pos(sb, k);
    let b = sb.block_size as int;
    lemma_fundamental_div_mod(j / 8, b);
    lemma_fundamental_div_mod(k / 8, b);
    assert(j / 8 == k / 8);
}

proof fn lemma_mask_bits(x: u8, z: u8, w: u8)
    by (bit_vector)
    requires
        z < 8,
        w < 8,
    ensures
        (x | (1u8 << z)) & (1u8 << z) != 0,
        (x & !(1u8 << z)) & (1u8 << z) == 0,
        z != w ==> (x | (1u8 << z)) & (1u8 << w) == x & (1u8 << w),
        z != w ==> (x & !(1u8 << z)) & (1u8 << w) == x & (1u8 << w),
{
}

/// After a bit is set it reads as set, and every other bit reads as before.
pub proof fn lemma_set_bit(disk: Seq<Seq<u8>>, sb: SuperBlock, j: int, k: int)
    requires
        sb_valid_spec(sb),
        disk_fits(disk, sb),
        0 <= j < sb.ndatablocks,
        0 <= k < sb.ndatablocks,
    ensures
        disk_fits(set_bit(disk, sb, j), sb),
        bitmap_bit(set_bit(disk, sb, j), sb, j),
        k != j ==> bitmap_bit(set_bit(disk, sb, j), sb, k) == bitmap_bit(disk, sb, k),
{
    lemma_bit_pos(sb, j);
    lemma_bit_pos(sb, k);
    let x = disk[bit_block(sb, j)][bit_byte(sb, j)];
    lemma_mask_bits(x, (j % 8) as u8, (k % 8) as u8);
    if k != j && bit_block(sb, j) == bit_block(sb, k) && bit_byte(sb, j) == bit_byte(sb, k) {
        if j % 8 == k % 8 {
            lemma_bit_pos_distinct(sb, j, k);
        }
    }
}

/// After a bit is cleared it reads as clear, and every other bit reads as
/// before.
pub proof fn lemma_clear_bit(disk: Seq<Seq<u8>>, sb: SuperBlock, j: int, k: int)
    requires
        sb_valid_spec(sb),
        disk_fits(disk, sb),
        0 <= j < sb.ndatablocks,
        0 <= k < sb.ndatablocks,
    ensures
        disk_fits(clear_bit(disk, sb, j), sb),
        !bitmap_bit(clear_bit(disk, sb, j), sb, j),
        k != j ==> bitmap_bit(clear_bit(disk, sb, j), sb, k) == bitmap_bit(disk, sb, k),
{
    lemma_bit_pos(sb, j);
    lemma_bit_pos(sb, k);
    let x = disk[bit_block(sb, j)][bit_byte(sb, j)];
    lemma_mask_bits(x, (j % 8) as u8, (k % 8) as u8);
    if k != j && bit_block(sb, j) == bit_block(sb, k) && bit_byte(sb, j) == bit_byte(sb, k) {
        if j % 8 == k % 8 {
            lemma_bit_pos_distinct(sb, j, k);
        }
    }
}

/// Writing outside the bitmap region leaves every bit as it was.
pub proof fn lemma_bits_outside(
    disk: Seq<Seq<u8>>,
    sb: SuperBlock,
    b: int,
    content: Seq<u8>,
    k: int,
)
    requires
        sb_valid_spec(sb),
        disk.len() == sb.nblocks,
        0 <= k < sb.ndatablocks,
        0 <= b < disk.len(),
        b < sb.bmapstart || b >= sb.datastart,
    ensures
        bitmap_bit(disk.update(b, content), sb, k) == bitmap_bit(disk, sb, k),
{
    lemma_bit_pos(sb, k);
}

/// The position of the bit of data block `j`: its block, its byte in the
/// block, and its mask in the byte.
pub fn bit_pos(sb: &SuperBlock, j: u64) -> (r: (u64, u64, u8))
    requires
        sb_valid_spec(*sb),
        j < sb.ndatablocks,
    ensures
        r.0 == bit_block(*sb, j as int),
        r.1 == bit_byte(*sb, j as int),
        r.2 == bit_mask(j as int),
        sb.bmapstart <= r.0 < sb.datastart,
        r.1 < sb.block_size,
{
    proof {
        lemma_bit_pos(*sb, j as int);
    }
    let q: u64 = j / 8;
    let blk: u64 = sb.bmapstart + q / sb.block_size;
    let byte: u64 = q % sb.block_size;
    let z: u8 = (j % 8) as u8;
    (blk, byte, 1u8 << z)
}

} // verus!
