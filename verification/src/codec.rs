//! The byte encodings of the on-disk records.
//!
//! Every integer is stored little-endian. A superblock is its seven counts in
//! the order of the struct's fields (56 bytes). An inode is a four-byte type
//! tag, the two-byte link count, the eight-byte size and the twelve block
//! pointers (110 bytes).
use crate::device::splice;
use crate::device::Block;
use crate::device::DeviceError;
use crate::types::DInode;
use crate::types::DInodeView;
use crate::types::FType;
use crate::types::SuperBlock;
use vstd::bytes::*;
use vstd::prelude::*;
use vstd::slice::slice_subrange;

verus! {

/// The encoding of a superblock.
pub open spec fn sb_bytes(sb: SuperBlock) -> Seq<u8> {
    spec_u64_to_le_bytes(sb.block_size) + spec_u64_to_le_bytes(sb.nblocks) + spec_u64_to_le_bytes(
        sb.ninodes,
    ) + spec_u64_to_le_bytes(sb.inodestart) + spec_u64_to_le_bytes(sb.ndatablocks)
        + spec_u64_to_le_bytes(sb.bmapstart) + spec_u64_to_le_bytes(sb.datastart)
}

/// The superblock that 56 bytes encode.
pub open spec fn sb_parse(b: Seq<u8>) -> SuperBlock {
    SuperBlock {
        block_size: spec_u64_from_le_bytes(b.subrange(0, 8)),
        nblocks: spec_u64_from_le_bytes(b.subrange(8, 16)),
        ninodes: spec_u64_from_le_bytes(b.subrange(16, 24)),
        inodestart: spec_u64_from_le_bytes(b.subrange(24, 32)),
        ndatablocks: spec_u64_from_le_bytes(b.subrange(32, 40)),
        bmapstart: spec_u64_from_le_bytes(b.subrange(40, 48)),
        datastart: spec_u64_from_le_bytes(b.subrange(48, 56)),
    }
}

/// Decoding an encoded superblock gives the superblock back.
pub proof fn lemma_sb_roundtrip(sb: SuperBlock)
    ensures
        sb_bytes(sb).len() == 56,
        sb_parse(sb_bytes(sb)) == sb,
{
    lemma_auto_spec_u64_to_from_le_bytes();
    let b = sb_bytes(sb);
    assert(b.subrange(0, 8) =~= spec_u64_to_le_bytes(sb.block_size));
    assert(b.subrange(8, 16) =~= spec_u64_to_le_bytes(sb.nblocks));
    assert(b.subrange(16, 24) =~= spec_u64_to_le_bytes(sb.ninodes));
    assert(b.subrange(24, 32) =~= spec_u64_to_le_bytes(sb.inodestart));
    assert(b.subrange(32, 40) =~= spec_u64_to_le_bytes(sb.ndatablocks));
    assert(b.subrange(40, 48) =~= spec_u64_to_le_bytes(sb.bmapstart));
    assert(b.subrange(48, 56) =~= spec_u64_to_le_bytes(sb.datastart));
}

/// The tag that stands for a file type on disk.
pub open spec fn ftype_tag(ft: FType) -> u32 {
    match ft {
        FType::TDir => 0,
        FType::TFile => 1,
        FType::TFree => 2,
    }
}

/// The encoding of the first `n` block pointers of `db`.
pub open spec fn blocks_bytes(db: Seq<u64>, n: nat) -> Seq<u8>
    decreases n,
{
    if n == 0 {
        Seq::<u8>::empty()
    } else {
        blocks_bytes(db, (n - 1) as nat) + spec_u64_to_le_bytes(db[n - 1])
    }
}

/// The encoding of an inode record.
pub open spec fn dinode_bytes(d: DInodeView) -> Seq<u8> {
    spec_u32_to_le_bytes(ftype_tag(d.ft)) + spec_u16_to_le_bytes(d.nlink) + spec_u64_to_le_bytes(
        d.size,
    ) + blocks_bytes(d.direct_blocks, 12)
}

/// The inode record that 110 bytes encode, if their type tag is one of the
/// three known.
pub open spec fn dinode_parse(b: Seq<u8>) -> Option<DInodeView> {
    let tag = spec_u32_from_le_bytes(b.subrange(0, 4));
    if tag > 2 {
        None
    } else {
        Some(
            DInodeView {
                ft: if tag == 0 {
                    FType::TDir
                } else if tag == 1 {
                    FType::TFile
                } else {
                    FType::TFree
                },
                nlink: spec_u16_from_le_bytes(b.subrange(4, 6)),
                size: spec_u64_from_le_bytes(b.subrange(6, 14)),
                direct_blocks: Seq::new(
                    12,
                    |k: int| spec_u64_from_le_bytes(b.subrange(14 + 8 * k, 22 + 8 * k)),
                ),
            },
        )
    }
}

/// The encoded block pointers take eight bytes each, in order.
pub proof fn lemma_blocks_bytes(db: Seq<u64>, n: nat)
    ensures
        blocks_bytes(db, n).len() == 8 * n,
        forall|k: int|
            0 <= k < n ==> #[trigger] blocks_bytes(db, n).subrange(8 * k, 8 * k + 8)
                == spec_u64_to_le_bytes(db[k]),
    decreases n,
{
    lemma_auto_spec_u64_to_from_le_bytes();
    if n > 0 {
        lemma_blocks_bytes(db, (n - 1) as nat);
        let prev = blocks_bytes(db, (n - 1) as nat);
        let cur = blocks_bytes(db, n);
        assert forall|k: int| 0 <= k < n implies #[trigger] cur.subrange(8 * k, 8 * k + 8)
            == spec_u64_to_le_bytes(db[k]) by {
            if k < n - 1 {
                assert(cur.subrange(8 * k, 8 * k + 8) =~= prev.subrange(8 * k, 8 * k + 8));
            } else {
                assert(cur.subrange(8 * k, 8 * k + 8) =~= spec_u64_to_le_bytes(db[k]));
            }
        }
    }
}

/// Decoding an encoded inode record gives the record back.
pub proof fn lemma_dinode_roundtrip(d: DInodeView)
    requires
        d.direct_blocks.len() == 12,
    ensures
        dinode_bytes(d).len() == 110,
        dinode_parse(dinode_bytes(d)) == Some(d),
{
    lemma_auto_spec_u64_to_from_le_bytes();
    lemma_auto_spec_u32_to_from_le_bytes();
    lemma_auto_spec_u16_to_from_le_bytes();
    lemma_blocks_bytes(d.direct_blocks, 12);
    let b = dinode_bytes(d);
    let bb = blocks_bytes(d.direct_blocks, 12);
    assert(b.subrange(0, 4) =~= spec_u32_to_le_bytes(ftype_tag(d.ft)));
    assert(b.subrange(4, 6) =~= spec_u16_to_le_bytes(d.nlink));
    assert(b.subrange(6, 14) =~= spec_u64_to_le_bytes(d.size));
    let p = dinode_parse(b)->Some_0;
    assert forall|k: int| 0 <= k < 12 implies p.direct_blocks[k] == d.direct_blocks[k] by {
        assert(b.subrange(14 + 8 * k, 22 + 8 * k) =~= bb.subrange(8 * k, 8 * k + 8));
    }
    assert(p.direct_blocks =~= d.direct_blocks);
}

/// Appends the encoding of `x` to `out`.
fn push_u64(out: &mut Vec<u8>, x: u64)
    ensures
        final(out)@ == old(out)@ + spec_u64_to_le_bytes(x),
{
    let mut b = u64_to_le_bytes(x);
    out.append(&mut b);
}

/// The integer encoded by the eight bytes of `b` from `off` on.
fn get_u64(b: &Vec<u8>, off: usize) -> (r: u64)
    requires
        off + 8 <= b@.len(),
    ensures
        r == spec_u64_from_le_bytes(b@.subrange(off as int, off + 8)),
{
    let n: usize = b.len();
    u64_from_le_bytes(slice_subrange(b.as_slice(), off, off + 8))
}

/// Encodes a superblock.
pub fn encode_superblock(sb: &SuperBlock) -> (r: Vec<u8>)
    ensures
        r@ == sb_bytes(*sb),
        r@.len() == 56,
{
    let mut out: Vec<u8> = Vec::new();
    push_u64(&mut out, sb.block_size);
    push_u64(&mut out, sb.nblocks);
    push_u64(&mut out, sb.ninodes);
    push_u64(&mut out, sb.inodestart);
    push_u64(&mut out, sb.ndatablocks);
    push_u64(&mut out, sb.bmapstart);
    push_u64(&mut out, sb.datastart);
    proof {
        lemma_sb_roundtrip(*sb);
        assert(out@ =~= sb_bytes(*sb));
    }
    out
}

/// Decodes the superblock held by the 56 bytes of `b` from `off` on.
pub fn decode_superblock(b: &Vec<u8>, off: usize) -> (r: SuperBlock)
    requires
        off + 56 <= b@.len(),
    ensures
        r == sb_parse(b@.subrange(off as int, off + 56)),
{
    let n: usize = b.len();
    let ghost s = b@.subrange(off as int, off + 56);
    proof {
        assert(s.subrange(0, 8) =~= b@.subrange(off as int, off + 8));
        assert(s.subrange(8, 16) =~= b@.subrange(off + 8, off + 16));
        assert(s.subrange(16, 24) =~= b@.subrange(off + 16, off + 24));
        assert(s.subrange(24, 32) =~= b@.subrange(off + 24, off + 32));
        assert(s.subrange(32, 40) =~= b@.subrange(off + 32, off + 40));
        assert(s.subrange(40, 48) =~= b@.subrange(off + 40, off + 48));
        assert(s.subrange(48, 56) =~= b@.subrange(off + 48, off + 56));
    }
    SuperBlock {
        block_size: get_u64(b, off),
        nblocks: get_u64(b, off + 8),
        ninodes: get_u64(b, off + 16),
        inodestart: get_u64(b, off + 24),
        ndatablocks: get_u64(b, off + 32),
        bmapstart: get_u64(b, off + 40),
        datastart: get_u64(b, off + 48),
    }
}

/// Encodes an inode record.
pub fn encode_dinode(d: &DInode) -> (r: Vec<u8>)
    ensures
        r@ == dinode_bytes(d@),
        r@.len() == 110,
{
    let tag: u32 = match d.ft {
        FType::TDir => 0,
        FType::TFile => 1,
        FType::TFree => 2,
    };
    let mut out: Vec<u8> = u32_to_le_bytes(tag);
    let mut nl = u16_to_le_bytes(d.nlink);
    out.append(&mut nl);
    push_u64(&mut out, d.size);
    let ghost head = out@;
    let mut k: usize = 0;
    while k < 12
        invariant
            k <= 12,
            out@ == head + blocks_bytes(d.direct_blocks@, k as nat),
        decreases 12 - k,
    {
        push_u64(&mut out, d.direct_blocks[k]);
        k += 1;
        assert(out@ =~= head + blocks_bytes(d.direct_blocks@, k as nat));
    }
    proof {
        lemma_dinode_roundtrip(d@);
        assert(out@ =~= dinode_bytes(d@));
    }
    out
}

/// Decodes the inode record held by the 110 bytes of `b` from `off` on.
pub fn decode_dinode(b: &Vec<u8>, off: usize) -> (r: Option<DInode>)
    requires
        off + 110 <= b@.len(),
    ensures
        match r {
            Some(d) => dinode_parse(b@.subrange(off as int, off + 110)) == Some(d@),
            None => dinode_parse(b@.subrange(off as int, off + 110)) is None,
        },
{
    let n: usize = b.len();
    let ghost s = b@.subrange(off as int, off + 110);
    proof {
        assert(s.subrange(0, 4) =~= b@.subrange(off as int, off + 4));
        assert(s.subrange(4, 6) =~= b@.subrange(off + 4, off + 6));
        assert(s.subrange(6, 14) =~= b@.subrange(off + 6, off + 14));
    }
    let tag: u32 = u32_from_le_bytes(slice_subrange(b.as_slice(), off, off + 4));
    let ft = if tag == 0 {
        FType::TDir
    } else if tag == 1 {
        FType::TFile
    } else if tag == 2 {
        FType::TFree
    } else {
        return None;
    };
    let nlink: u16 = u16_from_le_bytes(slice_subrange(b.as_slice(), off + 4, off + 6));
    let size: u64 = get_u64(b, off + 6);
    let mut db: [u64; 12] = [0u64; 12];
    let mut k: usize = 0;
    while k < 12
        invariant
            k <= 12,
            off + 110 <= b@.len(),
            b@.len() == n,
            s == b@.subrange(off as int, off + 110),
            forall|j: int|
                0 <= j < k ==> db@[j] == spec_u64_from_le_bytes(
                    s.subrange(14 + 8 * j, 22 + 8 * j),
                ),
        decreases 12 - k,
    {
        assert(s.subrange(14 + 8 * k, 22 + 8 * k) =~= b@.subrange(
            off + 14 + 8 * k,
            off + 22 + 8 * k,
        ));
        db[k] = get_u64(b, off + 14 + 8 * k);
        k += 1;
    }
    let d = DInode { ft, nlink, size, direct_blocks: db };
    assert(d@.direct_blocks =~= dinode_parse(s)->Some_0.direct_blocks);
    Some(d)
}

impl Block {
    /// Writes the encoding of `sb` into the block from `offset` on.
    pub fn serialize_superblock(&mut self, sb: &SuperBlock, offset: u64) -> (r: Result<
        (),
        DeviceError,
    >)
        ensures
            final(self).block_no == old(self).block_no,
            r is Ok <==> offset + 56 <= old(self)@.len(),
            r is Ok ==> final(self)@ == splice(old(self)@, offset as int, sb_bytes(*sb)),
            r is Err ==> r->Err_0 == DeviceError::OutOfBounds && final(self)@ == old(self)@,
    {
        let bytes = encode_superblock(sb);
        self.write_data(&bytes, offset)
    }

    /// Reads the superblock encoded in the block from `offset` on.
    pub fn deserialize_superblock(&self, offset: u64) -> (r: Result<SuperBlock, DeviceError>)
        ensures
            r is Ok <==> offset + 56 <= self@.len(),
            r is Ok ==> r->Ok_0 == sb_parse(self@.subrange(offset as int, offset + 56)),
            r is Err ==> r->Err_0 == DeviceError::OutOfBounds,
    {
        let n: usize = self.contents.len();
        if n < 56 || offset > (n - 56) as u64 {
            return Err(DeviceError::OutOfBounds);
        }
        Ok(decode_superblock(&self.contents, offset as usize))
    }

    /// Writes the encoding of `d` into the block from `offset` on.
    pub fn serialize_dinode(&mut self, d: &DInode, offset: u64) -> (r: Result<(), DeviceError>)
        ensures
            final(self).block_no == old(self).block_no,
            r is Ok <==> offset + 110 <= old(self)@.len(),
            r is Ok ==> final(self)@ == splice(old(self)@, offset as int, dinode_bytes(d@)),
            r is Err ==> r->Err_0 == DeviceError::OutOfBounds && final(self)@ == old(self)@,
    {
        let bytes = encode_dinode(d);
        self.write_data(&bytes, offset)
    }

    /// Reads the inode record encoded in the block from `offset` on.
    pub fn deserialize_dinode(&self, offset: u64) -> (r: Result<DInode, DeviceError>)
        ensures
            match r {
                Ok(d) => offset + 110 <= self@.len() && dinode_parse(
                    self@.subrange(offset as int, offset + 110),
                ) == Some(d@),
                Err(DeviceError::OutOfBounds) => offset + 110 > self@.len(),
                Err(DeviceError::Malformed) => offset + 110 <= self@.len() && dinode_parse(
                    self@.subrange(offset as int, offset + 110),
                ) is None,
                Err(_) => false,
            },
    {
        let n: usize = self.contents.len();
        if n < 110 || offset > (n - 110) as u64 {
            return Err(DeviceError::OutOfBounds);
        }
        match decode_dinode(&self.contents, offset as usize) {
            Some(d) => Ok(d),
            None => Err(DeviceError::Malformed),
        }
    }
}

} // verus!
