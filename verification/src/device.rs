//! The block device and the byte containers that travel to and from it.
//!
//! A [`Device`] is an array of blocks of one size, held in memory. Its view is
//! the sequence of the blocks' contents. A [`Block`] is the content of one
//! block together with the index it was read from or is to be written to; a
//! [`Buffer`] is a bare run of bytes.
use vstd::prelude::*;
use vstd::slice::slice_to_vec;

verus! {

/// What the device and the byte containers can refuse.
#[derive(Clone, Copy, Debug, PartialEq, Eq, Structural)]
pub enum DeviceError {
    /// A block index at or beyond the number of blocks of the device.
    BlockIndexOutOfRange,
    /// A block whose length differs from the device's block size.
    BlockSizeMismatch,
    /// An access that reaches beyond the end of a block or buffer.
    OutOfBounds,
    /// Bytes that are not the encoding of any record.
    Malformed,
    /// A record that has no encoding.
    Unencodable,
    /// A geometry whose block size or block count cannot be addressed.
    TooLarge,
}

/// `s` with the bytes from `off` on replaced by `d`.
pub open spec fn splice(s: Seq<u8>, off: int, d: Seq<u8>) -> Seq<u8> {
    Seq::new(
        s.len(),
        |i: int|
            if off <= i < off + d.len() {
                d[i - off]
            } else {
                s[i]
            },
    )
}

/// A run of `n` zero bytes.
pub open spec fn zeros(n: nat) -> Seq<u8> {
    Seq::new(n, |i: int| 0u8)
}

/// A disk of `nblocks` blocks of `block_size` zero bytes each.
pub open spec fn zero_disk(block_size: nat, nblocks: nat) -> Seq<Seq<u8>> {
    Seq::new(nblocks, |i: int| zeros(block_size))
}

/// `disk` with `d` written into block `b` from byte `off` on.
pub open spec fn disk_write(disk: Seq<Seq<u8>>, b: int, off: int, d: Seq<u8>) -> Seq<Seq<u8>> {
    disk.update(b, splice(disk[b], off, d))
}

/// Copies `src[off .. off + dst.len()]` over `dst`, if that range lies in `src`.
pub fn copy_out(src: &Vec<u8>, dst: &mut Vec<u8>, off: u64) -> (r: Result<(), DeviceError>)
    ensures
        r is Ok <==> off + old(dst)@.len() <= src@.len(),
        r is Ok ==> final(dst)@ == src@.subrange(off as int, off + old(dst)@.len()),
        r is Err ==> r == Err::<(), DeviceError>(DeviceError::OutOfBounds) && final(dst)@ == old(
            dst,
        )@,
{
    let n: usize = dst.len();
    let m: usize = src.len();
    if n > m {
        return Err(DeviceError::OutOfBounds);
    }
    if off > (m - n) as u64 {
        return Err(DeviceError::OutOfBounds);
    }
    let start: usize = off as usize;
    let mut i: usize = 0;
    while i < n
        invariant
            i <= n,
            n == dst@.len(),
            m == src@.len(),
            start + n <= m,
            forall|k: int| 0 <= k < i ==> dst@[k] == src@[start + k],
        decreases n - i,
    {
        dst[i] = src[start + i];
        i += 1;
    }
    assert(dst@ =~= src@.subrange(off as int, off + n));
    Ok(())
}

/// Copies `src` over `dst[off .. off + src.len()]`, if that range lies in `dst`.
pub fn copy_in(dst: &mut Vec<u8>, src: &Vec<u8>, off: u64) -> (r: Result<(), DeviceError>)
    ensures
        r is Ok <==> off + src@.len() <= old(dst)@.len(),
        r is Ok ==> final(dst)@ == splice(old(dst)@, off as int, src@),
        r is Err ==> r == Err::<(), DeviceError>(DeviceError::OutOfBounds) && final(dst)@ == old(
            dst,
        )@,
{
    let n: usize = src.len();
    let m: usize = dst.len();
    if n > m {
        return Err(DeviceError::OutOfBounds);
    }
    if off > (m - n) as u64 {
        return Err(DeviceError::OutOfBounds);
    }
    let start: usize = off as usize;
    let mut i: usize = 0;
    while i < n
        invariant
            i <= n,
            n == src@.len(),
            m == dst@.len(),
            m == old(dst)@.len(),
            start + n <= m,
            forall|k: int| 0 <= k < i ==> dst@[start + k] == src@[k],
            forall|k: int| 0 <= k < m && !(start <= k < start + i) ==> dst@[k] == old(dst)@[k],
        decreases n - i,
    {
        dst[start + i] = src[i];
        i += 1;
    }
    assert(dst@ =~= splice(old(dst)@, off as int, src@));
    Ok(())
}

/// A run of bytes.
#[derive(Clone, Debug, PartialEq, Eq)]
pub struct Buffer {
    pub contents: Vec<u8>,
}

impl View for Buffer {
    type V = Seq<u8>;

    open spec fn view(&self) -> Seq<u8> {
        self.contents@
    }
}

impl Buffer {
    /// A buffer that holds `data`.
    pub fn new(data: Vec<u8>) -> (r: Buffer)
        ensures
            r@ == data@,
    {
        Buffer { contents: data }
    }

    /// A buffer of `len` zero bytes.
    pub fn new_zero(len: u64) -> (r: Buffer)
        requires
            len <= usize::MAX,
        ensures
            r@ == zeros(len as nat),
    {
        let contents: Vec<u8> = vec![0u8; len as usize];
        assert(contents@ =~= zeros(len as nat));
        Buffer { contents }
    }

    /// Number of bytes held.
    pub fn len(&self) -> (r: u64)
        ensures
            r == self@.len(),
    {
        self.contents.len() as u64
    }

    /// The bytes held.
    pub fn contents_as_ref(&self) -> (r: &Vec<u8>)
        ensures
            r@ == self@,
    {
        &self.contents
    }

    /// Fills `data` with the bytes from `offset` on.
    pub fn read_data(&self, data: &mut Vec<u8>, offset: u64) -> (r: Result<(), DeviceError>)
        ensures
            r is Ok <==> offset + old(data)@.len() <= self@.len(),
            r is Ok ==> final(data)@ == self@.subrange(offset as int, offset + old(data)@.len()),
            r is Err ==> r == Err::<(), DeviceError>(DeviceError::OutOfBounds) && final(data)@
                == old(data)@,
    {
        copy_out(&self.contents, data, offset)
    }

    /// Overwrites the bytes from `offset` on with `data`.
    pub fn write_data(&mut self, data: &Vec<u8>, offset: u64) -> (r: Result<(), DeviceError>)
        ensures
            r is Ok <==> offset + data@.len() <= old(self)@.len(),
            r is Ok ==> final(self)@ == splice(old(self)@, offset as int, data@),
            r is Err ==> r == Err::<(), DeviceError>(DeviceError::OutOfBounds) && final(self)@
                == old(self)@,
    {
        copy_in(&mut self.contents, data, offset)
    }
}

/// The content of one block of the device, with the block's index.
#[derive(Clone, Debug, PartialEq, Eq)]
pub struct Block {
    pub block_no: u64,
    pub contents: Vec<u8>,
}

impl View for Block {
    type V = Seq<u8>;

    open spec fn view(&self) -> Seq<u8> {
        self.contents@
    }
}

impl Block {
    /// The block with index `block_no` that holds `data`.
    pub fn new(block_no: u64, data: Vec<u8>) -> (r: Block)
        ensures
            r.block_no == block_no,
            r@ == data@,
    {
        Block { block_no, contents: data }
    }

    /// The block with index `block_no` that holds `len` zero bytes.
    pub fn new_zero(block_no: u64, len: u64) -> (r: Block)
        requires
            len <= usize::MAX,
        ensures
            r.block_no == block_no,
            r@ == zeros(len as nat),
    {
        let contents: Vec<u8> = vec![0u8; len as usize];
        assert(contents@ =~= zeros(len as nat));
        Block { block_no, contents }
    }

    /// Number of bytes held.
    pub fn len(&self) -> (r: u64)
        ensures
            r == self@.len(),
    {
        self.contents.len() as u64
    }

    /// The bytes held.
    pub fn contents_as_ref(&self) -> (r: &Vec<u8>)
        ensures
            r@ == self@,
    {
        &self.contents
    }

    /// Fills `data` with the bytes from `offset` on.
    pub fn read_data(&self, data: &mut Vec<u8>, offset: u64) -> (r: Result<(), DeviceError>)
        ensures
            r is Ok <==> offset + old(data)@.len() <= self@.len(),
            r is Ok ==> final(data)@ == self@.subrange(offset as int, offset + old(data)@.len()),
            r is Err ==> r == Err::<(), DeviceError>(DeviceError::OutOfBounds) && final(data)@
                == old(data)@,
    {
        copy_out(&self.contents, data, offset)
    }

    /// Overwrites the bytes from `offset` on with `data`.
    pub fn write_data(&mut self, data: &Vec<u8>, offset: u64) -> (r: Result<(), DeviceError>)
        ensures
            final(self).block_no == old(self).block_no,
            r is Ok <==> offset + data@.len() <= old(self)@.len(),
            r is Ok ==> final(self)@ == splice(old(self)@, offset as int, data@),
            r is Err ==> r == Err::<(), DeviceError>(DeviceError::OutOfBounds) && final(self)@
                == old(self)@,
    {
        copy_in(&mut self.contents, data, offset)
    }
}

/// An array of `nblocks` blocks of `block_size` bytes each.
pub struct Device {
    block_size: u64,
    nblocks: u64,
    blocks: Vec<Vec<u8>>,
}

impl View for Device {
    type V = Seq<Seq<u8>>;

    closed spec fn view(&self) -> Seq<Seq<u8>> {
        Seq::new(self.blocks@.len(), |i: int| self.blocks@[i]@)
    }
}

impl Device {
    /// Bytes per block, as contracts see it.
    pub closed spec fn spec_block_size(&self) -> u64 {
        self.block_size
    }

    /// Number of blocks, as contracts see it.
    pub closed spec fn spec_nblocks(&self) -> u64 {
        self.nblocks
    }

    /// The device holds `nblocks` blocks, each of `block_size` bytes.
    pub open spec fn wf(&self) -> bool {
        &&& self.block_size() <= usize::MAX
        &&& self.nblocks() <= usize::MAX
        &&& self@.len() == self.nblocks()
        &&& forall|i: int|
            0 <= i < self@.len() ==> (#[trigger] self@[i]).len() == self.block_size()
    }

    /// Bytes per block.
    #[verifier::when_used_as_spec(spec_block_size)]
    pub fn block_size(&self) -> (r: u64)
        ensures
            r == self.block_size(),
    {
        self.block_size
    }

    /// Number of blocks.
    #[verifier::when_used_as_spec(spec_nblocks)]
    pub fn nblocks(&self) -> (r: u64)
        ensures
            r == self.nblocks(),
    {
        self.nblocks
    }

    /// A device of the given geometry, filled with zero bytes. It is refused
    /// only where a block's size or the number of blocks cannot be addressed
    /// on this machine.
    pub fn new(block_size: u64, nblocks: u64) -> (r: Result<Device, DeviceError>)
        ensures
            r is Ok <==> block_size <= usize::MAX && nblocks <= usize::MAX,
            r is Err ==> r->Err_0 == DeviceError::TooLarge,
            r is Ok ==> {
                &&& r->Ok_0.wf()
                &&& r->Ok_0.block_size() == block_size
                &&& r->Ok_0.nblocks() == nblocks
                &&& r->Ok_0@ == zero_disk(block_size as nat, nblocks as nat)
            },
    {
        if block_size > usize::MAX as u64 || nblocks > usize::MAX as u64 {
            return Err(DeviceError::TooLarge);
        }
        let n: usize = nblocks as usize;
        let mut blocks: Vec<Vec<u8>> = Vec::new();
        let mut i: usize = 0;
        while i < n
            invariant
                i <= n,
                block_size <= usize::MAX,
                blocks@.len() == i,
                forall|k: int| 0 <= k < i ==> (#[trigger] blocks@[k])@ == zeros(block_size as nat),
            decreases n - i,
        {
            let b: Vec<u8> = vec![0u8; block_size as usize];
            assert(b@ =~= zeros(block_size as nat));
            blocks.push(b);
            i += 1;
        }
        let dev = Device { block_size, nblocks, blocks };
        assert(dev@ =~= zero_disk(block_size as nat, nblocks as nat));
        Ok(dev)
    }

    /// A copy of block `i`.
    pub fn read_block(&self, i: u64) -> (r: Result<Block, DeviceError>)
        requires
            self.wf(),
        ensures
            r is Ok <==> i < self.nblocks(),
            r is Err ==> r->Err_0 == DeviceError::BlockIndexOutOfRange,
            r is Ok ==> r->Ok_0.block_no == i && r->Ok_0@ == self@[i as int],
    {
        if i >= self.nblocks {
            return Err(DeviceError::BlockIndexOutOfRange);
        }
        let n: usize = self.blocks.len();
        assert(self@.len() == n);
        assert(self@[i as int] == self.blocks@[i as int]@);
        let contents: Vec<u8> = slice_to_vec(self.blocks[i as usize].as_slice());
        Ok(Block { block_no: i, contents })
    }

    /// Stores `b` as the block of index `b.block_no`.
    pub fn write_block(&mut self, b: &Block) -> (r: Result<(), DeviceError>)
        requires
            old(self).wf(),
        ensures
            final(self).wf(),
            final(self).block_size() == old(self).block_size(),
            final(self).nblocks() == old(self).nblocks(),
            r == if b.block_no >= old(self).nblocks() {
                Err::<(), DeviceError>(DeviceError::BlockIndexOutOfRange)
            } else if b@.len() != old(self).block_size() {
                Err::<(), DeviceError>(DeviceError::BlockSizeMismatch)
            } else {
                Ok::<(), DeviceError>(())
            },
            r is Ok ==> final(self)@ == old(self)@.update(b.block_no as int, b@),
            r is Err ==> final(self)@ == old(self)@,
    {
        if b.block_no >= self.nblocks {
            return Err(DeviceError::BlockIndexOutOfRange);
        }
        if b.contents.len() as u64 != self.block_size {
            return Err(DeviceError::BlockSizeMismatch);
        }
        let n: usize = self.blocks.len();
        assert(self@.len() == n);
        let contents: Vec<u8> = slice_to_vec(b.contents.as_slice());
        let idx: usize = b.block_no as usize;
        self.blocks[idx] = contents;
        assert(self@ =~= old(self)@.update(b.block_no as int, b@));
        Ok(())
    }
}

} // verus!
