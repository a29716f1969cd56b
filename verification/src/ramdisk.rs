//! A RAM disk driver backed by heap memory or a static slice.
use vstd::prelude::*;

use crate::dev::{DevError, DevResult, DeviceType};

verus! {

/// The size in bytes of one block of a RAM disk.
pub const BLOCK_SIZE: usize = 512;

/// The smallest multiple of the block size that is at least `size`.
pub open spec fn align_up_spec(size: int) -> int {
    (size + BLOCK_SIZE - 1) / (BLOCK_SIZE as int) * (BLOCK_SIZE as int)
}

/// The byte offset at which block `block_id` starts.
pub open spec fn block_offset(block_id: u64) -> int {
    block_id * BLOCK_SIZE
}

/// A request on `block_id` with a buffer of `len` bytes covers whole blocks
/// and lies inside a disk of `disk_len` bytes.
pub open spec fn request_in_range(disk_len: int, block_id: u64, len: int) -> bool {
    &&& 0 <= len
    &&& len % (BLOCK_SIZE as int) == 0
    &&& block_offset(block_id) + len <= disk_len
}

/// What a read of `len` bytes at block `block_id` gives back from a disk that
/// holds `disk`, or `None` where the request is refused.
pub open spec fn read_spec(disk: Seq<u8>, block_id: u64, len: int) -> Option<Seq<u8>> {
    if request_in_range(disk.len() as int, block_id, len) {
        Some(disk.subrange(block_offset(block_id), block_offset(block_id) + len))
    } else {
        None
    }
}

/// What a disk that holds `disk` holds after `data` is written at block
/// `block_id`, or `None` where the request is refused.
pub open spec fn write_spec(disk: Seq<u8>, block_id: u64, data: Seq<u8>) -> Option<Seq<u8>> {
    if request_in_range(disk.len() as int, block_id, data.len() as int) {
        let off = block_offset(block_id);
        Some(disk.subrange(0, off) + data + disk.subrange(off + data.len(), disk.len() as int))
    } else {
        None
    }
}

/// What a disk that holds `disk` holds after a write of `data` at block
/// `block_id`: the written disk where the write is served, `disk` where it
/// is refused.
pub open spec fn write_step(disk: Seq<u8>, block_id: u64, data: Seq<u8>) -> Seq<u8> {
    match write_spec(disk, block_id, data) {
        Some(after) => after,
        None => disk,
    }
}

/// An operation on a block device: a read of `len` bytes, a write of
/// `data`, each at block `block_id`, or a flush.
pub enum DiskOp {
    Read { block_id: u64, len: usize },
    Write { block_id: u64, data: Seq<u8> },
    Flush,
}

/// What a disk that holds `disk` holds after `op`: reads and flushes leave
/// the bytes as they are, a write is applied where it is served.
pub open spec fn op_step(disk: Seq<u8>, op: DiskOp) -> Seq<u8> {
    match op {
        DiskOp::Read { .. } => disk,
        DiskOp::Write { block_id, data } => write_step(disk, block_id, data),
        DiskOp::Flush => disk,
    }
}

/// What a disk that holds `disk` holds after the operations `ops` in turn.
pub open spec fn apply_ops(disk: Seq<u8>, ops: Seq<DiskOp>) -> Seq<u8>
    decreases ops.len(),
{
    if ops.len() == 0 {
        disk
    } else {
        op_step(apply_ops(disk, ops.drop_last()), ops.last())
    }
}

/// No sequence of reads, writes and flushes resizes a disk: it keeps its
/// length, and a disk of whole blocks stays one, with the same number of
/// blocks.
pub proof fn lemma_ops_keep_size(disk: Seq<u8>, ops: Seq<DiskOp>)
    ensures
        apply_ops(disk, ops).len() == disk.len(),
        disk.len() % (BLOCK_SIZE as nat) == 0 ==> {
            &&& apply_ops(disk, ops).len() % (BLOCK_SIZE as nat) == 0
            &&& apply_ops(disk, ops).len() / (BLOCK_SIZE as nat) * (BLOCK_SIZE as nat)
                == disk.len()
        },
    decreases ops.len(),
{
    if ops.len() > 0 {
        lemma_ops_keep_size(disk, ops.drop_last());
    }
}

/// Rounds `val` up to a multiple of the block size.
fn align_up(val: usize) -> (r: usize)
    requires
        val + BLOCK_SIZE - 1 <= usize::MAX,
    ensures
        r == align_up_spec(val as int),
{
    proof {
        lemma_align_up_mask(val);
    }
    (val + (BLOCK_SIZE - 1)) & !(BLOCK_SIZE - 1)
}

proof fn lemma_align_up_mask(val: usize)
    requires
        val + 511 <= usize::MAX,
    ensures
        ((val + 511) as usize) & !511usize == align_up_spec(val as int),
{
    let v = (val + 511) as usize;
    assert(v & !511usize == v - v % 512) by (bit_vector);
    assert(v - v % 512 == v / 512 * 512);
}

/// The block size rounding is the least multiple of the block size that is
/// not below `size`.
pub proof fn lemma_align_up(size: int)
    requires
        size >= 0,
    ensures
        align_up_spec(size) % (BLOCK_SIZE as int) == 0,
        size <= align_up_spec(size) < size + BLOCK_SIZE,
{
    let q = (size + 511) / 512;
    assert(q * 512 % 512 == 0) by (nonlinear_arith);
}

/// A read of `len` bytes at block `b` is served exactly when `len` is a
/// whole number of blocks and the bytes `b * 512 ..  b * 512 + len` lie on
/// the disk, and then gives exactly those bytes: byte `i` of the result is
/// byte `b * 512 + i` of the disk.
pub proof fn lemma_read_gives_block_bytes(disk: Seq<u8>, b: u64, len: int)
    requires
        len >= 0,
    ensures
        read_spec(disk, b, len) is Some <==> (len % 512 == 0 && b * 512 + len <= disk.len()),
        read_spec(disk, b, len) is Some ==> {
            &&& read_spec(disk, b, len).unwrap().len() == len
            &&& forall|i: int|
                0 <= i < len ==> #[trigger] read_spec(disk, b, len).unwrap()[i] == disk[b * 512
                    + i]
        },
{
}

/// A write of `data` at block `b` is served exactly when `data` is a whole
/// number of blocks that fits on the disk from byte `b * 512` on; then byte
/// `b * 512 + i` of the disk becomes byte `i` of `data`, every other byte
/// stays, and the length stays.
pub proof fn lemma_write_puts_block_bytes(disk: Seq<u8>, b: u64, data: Seq<u8>)
    ensures
        write_spec(disk, b, data) is Some <==> (data.len() % 512 == 0 && b * 512 + data.len()
            <= disk.len()),
        write_spec(disk, b, data) is Some ==> {
            let after = write_spec(disk, b, data).unwrap();
            &&& after.len() == disk.len()
            &&& forall|i: int| 0 <= i < data.len() ==> #[trigger] after[b * 512 + i] == data[i]
            &&& forall|j: int|
                0 <= j < disk.len() && !(b * 512 <= j < b * 512 + data.len()) ==> #[trigger] after[j]
                    == disk[j]
        },
{
    if write_spec(disk, b, data) is Some {
        let after = write_spec(disk, b, data).unwrap();
        assert forall|i: int| 0 <= i < data.len() implies #[trigger] after[b * 512 + i]
            == data[i] by {
            assert(after[b * 512 + i] == (disk.subrange(0, b * 512) + data)[b * 512 + i]);
        }
    }
}

/// A read of the blocks that a write has just written gives back the bytes
/// that were written.
pub proof fn lemma_read_after_write(disk: Seq<u8>, block_id: u64, data: Seq<u8>)
    requires
        write_spec(disk, block_id, data) is Some,
    ensures
        read_spec(write_spec(disk, block_id, data).unwrap(), block_id, data.len() as int) == Some(
            data,
        ),
{
    let after = write_spec(disk, block_id, data).unwrap();
    let off = block_offset(block_id);
    assert(after.subrange(off, off + data.len()) =~= data);
}

/// A write leaves every byte range that it does not overlap as it was: a
/// read there gives what it gave before the write.
pub proof fn lemma_write_keeps_other_blocks(
    disk: Seq<u8>,
    block_id: u64,
    data: Seq<u8>,
    other_id: u64,
    len: int,
)
    requires
        write_spec(disk, block_id, data) is Some,
        block_offset(other_id) + len <= block_offset(block_id) || block_offset(block_id)
            + data.len() <= block_offset(other_id),
    ensures
        read_spec(write_spec(disk, block_id, data).unwrap(), other_id, len) == read_spec(
            disk,
            other_id,
            len,
        ),
{
    let after = write_spec(disk, block_id, data).unwrap();
    if request_in_range(disk.len() as int, other_id, len) {
        let o = block_offset(other_id);
        assert(after.subrange(o, o + len) =~= disk.subrange(o, o + len));
    }
}

/// A write keeps the disk's length.
pub proof fn lemma_write_keeps_length(disk: Seq<u8>, block_id: u64, data: Seq<u8>)
    requires
        write_spec(disk, block_id, data) is Some,
    ensures
        write_spec(disk, block_id, data).unwrap().len() == disk.len(),
{
}

/// Of two writes of the same length to the same blocks, the second one
/// decides what the disk holds.
pub proof fn lemma_write_overwrites(
    disk: Seq<u8>,
    block_id: u64,
    first: Seq<u8>,
    second: Seq<u8>,
)
    requires
        write_spec(disk, block_id, first) is Some,
        second.len() == first.len(),
    ensures
        write_spec(write_spec(disk, block_id, first).unwrap(), block_id, second) == write_spec(
            disk,
            block_id,
            second,
        ),
{
    let after = write_spec(disk, block_id, first).unwrap();
    let off = block_offset(block_id);
    assert(after.subrange(0, off) + second + after.subrange(off + second.len(), after.len() as int)
        =~= disk.subrange(0, off) + second + disk.subrange(off + second.len(), disk.len() as int));
}

/// Writing back the bytes that a read returned leaves the disk as it was.
pub proof fn lemma_write_back_read(disk: Seq<u8>, block_id: u64, len: int)
    requires
        read_spec(disk, block_id, len) is Some,
    ensures
        write_spec(disk, block_id, read_spec(disk, block_id, len).unwrap()) == Some(disk),
{
    let data = read_spec(disk, block_id, len).unwrap();
    let off = block_offset(block_id);
    assert(disk.subrange(0, off) + data + disk.subrange(off + data.len(), disk.len() as int)
        =~= disk);
}

/// On a disk of whole blocks, a request is served exactly when it covers
/// whole blocks and its last block is a block of the disk.
pub proof fn lemma_request_in_blocks(disk_len: int, block_id: u64, len: int)
    requires
        disk_len >= 0,
        disk_len % (BLOCK_SIZE as int) == 0,
        len >= 0,
    ensures
        request_in_range(disk_len, block_id, len) <==> (len % (BLOCK_SIZE as int) == 0
            && block_id + len / (BLOCK_SIZE as int) <= disk_len / (BLOCK_SIZE as int)),
{
}

/// A RAM disk driver.
pub enum RamDisk {
    /// A RAM disk backed by heap memory.
    Heap(Vec<u8>),
    /// A RAM disk backed by a static slice.
    Static(&'static mut [u8]),
}

impl View for RamDisk {
    type V = Seq<u8>;

    /// The bytes that the disk holds.
    open spec fn view(&self) -> Seq<u8> {
        match self {
            RamDisk::Heap(v) => v@,
            RamDisk::Static(s) => s@,
        }
    }
}

/// Writes `src` into `dst` from byte `offset` on.
fn copy_into(dst: &mut [u8], offset: usize, src: &[u8])
    requires
        offset + src@.len() <= old(dst)@.len(),
    ensures
        final(dst)@ == old(dst)@.subrange(0, offset as int) + src@ + old(dst)@.subrange(
            offset + src@.len(),
            old(dst)@.len() as int,
        ),
{
    let n = src.len();
    let dlen = dst.len();
    let mut i: usize = 0;
    while i < n
        invariant
            n == src@.len(),
            dlen == old(dst)@.len(),
            i <= n,
            offset + n <= old(dst)@.len(),
            dst@.len() == old(dst)@.len(),
            forall|j: int| 0 <= j < i ==> #[trigger] dst@[offset + j] == src@[j],
            forall|j: int|
                0 <= j < dst@.len() && !(offset <= j < offset + i) ==> #[trigger] dst@[j]
                    == old(dst)@[j],
        decreases n - i,
    {
        dst[offset + i] = src[i];
        i = i + 1;
    }
    assert(dst@ =~= old(dst)@.subrange(0, offset as int) + src@ + old(dst)@.subrange(
        offset + src@.len(),
        old(dst)@.len() as int,
    )) by {
        assert forall|j: int| 0 <= j < dst@.len() implies dst@[j] == (old(dst)@.subrange(
            0,
            offset as int,
        ) + src@ + old(dst)@.subrange(offset + src@.len(), old(dst)@.len() as int))[j] by {
            if offset <= j < offset + n {
                assert(dst@[offset + (j - offset)] == src@[j - offset]);
            }
        }
    }
}

/// Fills `dst` with the bytes of `src` from byte `offset` on.
fn copy_out(dst: &mut [u8], src: &[u8], offset: usize)
    requires
        offset + old(dst)@.len() <= src@.len(),
    ensures
        final(dst)@ == src@.subrange(offset as int, offset + old(dst)@.len()),
{
    let n = dst.len();
    let slen = src.len();
    let mut i: usize = 0;
    while i < n
        invariant
            slen == src@.len(),
            n == dst@.len(),
            n == old(dst)@.len(),
            i <= n,
            offset + n <= src@.len(),
            forall|j: int| 0 <= j < i ==> #[trigger] dst@[j] == src@[offset + j],
        decreases n - i,
    {
        dst[i] = src[offset + i];
        i = i + 1;
    }
    assert(dst@ =~= src@.subrange(offset as int, offset + n));
}

impl RamDisk {
    /// The disk's length is a whole number of blocks.
    pub open spec fn wf(&self) -> bool {
        self@.len() % (BLOCK_SIZE as nat) == 0
    }

    /// Creates a new RAM disk with the given size hint.
    ///
    /// The actual size of the RAM disk will be aligned upwards to the block
    /// size (512 bytes). Every byte of the new disk is zero. The bytes are
    /// held in a `Vec<u8>`, whose address is aligned to a byte only, not to
    /// the block size.
    pub fn new_heap(size_hint: usize) -> (r: Self)
        requires
            size_hint + BLOCK_SIZE - 1 <= usize::MAX,
        ensures
            r.wf(),
            r is Heap,
            r@ == Seq::new(align_up_spec(size_hint as int) as nat, |_i: int| 0u8),
            r@.len() % 512 == 0,
            size_hint <= r@.len() < size_hint + 512,
            forall|i: int| 0 <= i < r@.len() ==> #[trigger] r@[i] == 0,
    {
        let size = align_up(size_hint);
        proof {
            lemma_align_up(size_hint as int);
        }
        let v: Vec<u8> = vec![0u8; size];
        let r = RamDisk::Heap(v);
        assert(r@ =~= Seq::new(align_up_spec(size_hint as int) as nat, |_i: int| 0u8));
        r
    }

    /// Creates a new RAM disk from the given static buffer.
    ///
    /// The buffer must be aligned to the block size and its size must be a
    /// multiple of the block size; the address is the caller's to check.
    pub fn new_static(buf: &'static mut [u8]) -> (r: Self)
        requires
            old(buf)@.len() % (BLOCK_SIZE as nat) == 0,
        ensures
            r.wf(),
            r is Static,
            r@ == old(buf)@,
    {
        RamDisk::Static(buf)
    }

    /// Creates a RAM disk that holds `data`, followed by zeros up to the next
    /// block boundary.
    pub fn from(data: &[u8]) -> (r: Self)
        requires
            data@.len() + BLOCK_SIZE - 1 <= usize::MAX,
        ensures
            r.wf(),
            r is Heap,
            r@.len() == align_up_spec(data@.len() as int),
            r@.subrange(0, data@.len() as int) == data@,
            forall|i: int| data@.len() <= i < r@.len() ==> r@[i] == 0,
            r@.len() % 512 == 0,
            data@.len() <= r@.len() < data@.len() + 512,
            forall|i: int| 0 <= i < data@.len() ==> #[trigger] r@[i] == data@[i],
    {
        let mut this = RamDisk::new_heap(data.len());
        proof {
            lemma_align_up(data@.len() as int);
        }
        this.copy_in(0, data);
        assert(this@.subrange(0, data@.len() as int) =~= data@);
        this
    }

    /// The whole disk as bytes.
    pub fn deref(&self) -> (r: &[u8])
        ensures
            r@ == self@,
    {
        match self {
            RamDisk::Heap(v) => v.as_slice(),
            RamDisk::Static(s) => &**s,
        }
    }

    /// The whole disk as mutable bytes.
    pub fn deref_mut(&mut self) -> (r: &mut [u8])
        ensures
            r@ == old(self)@,
            final(self)@ == final(r)@,
            *final(self) is Static <==> *old(self) is Static,
    {
        match self {
            RamDisk::Heap(v) => v.as_mut_slice(),
            RamDisk::Static(s) => &mut **s,
        }
    }

    /// Writes `src` into the disk from byte `offset` on.
    fn copy_in(&mut self, offset: usize, src: &[u8])
        requires
            offset + src@.len() <= old(self)@.len(),
        ensures
            *final(self) is Heap <==> *old(self) is Heap,
            final(self)@ == old(self)@.subrange(0, offset as int) + src@ + old(self)@.subrange(
                offset + src@.len(),
                old(self)@.len() as int,
            ),
    {
        match self {
            RamDisk::Heap(v) => copy_into(v.as_mut_slice(), offset, src),
            RamDisk::Static(s) => copy_into(&mut **s, offset, src),
        }
    }

    /// The number of bytes the disk holds.
    pub fn len(&self) -> (r: usize)
        ensures
            r == self@.len(),
    {
        match self {
            RamDisk::Heap(v) => v.len(),
            RamDisk::Static(s) => s.len(),
        }
    }

    /// The type of the device: a block device.
    pub fn device_type(&self) -> (r: DeviceType)
        ensures
            r == DeviceType::Block,
    {
        DeviceType::Block
    }

    /// The name of the device.
    pub fn device_name(&self) -> (r: &'static str)
        ensures
            r@ == "ramdisk"@,
    {
        "ramdisk"
    }

    /// The number of whole blocks on the disk.
    pub fn num_blocks(&self) -> (r: u64)
        ensures
            r == self@.len() / (BLOCK_SIZE as nat),
            self.wf() ==> r * BLOCK_SIZE == self@.len(),
    {
        (self.len() / BLOCK_SIZE) as u64
    }

    /// The size of a block in bytes.
    pub fn block_size(&self) -> (r: usize)
        ensures
            r == BLOCK_SIZE,
    {
        BLOCK_SIZE
    }

    /// Checks a request on `block_id` with a buffer of `len` bytes and gives
    /// the byte offset at which it starts.
    fn request_offset(&self, block_id: u64, len: usize) -> (r: DevResult<usize>)
        requires
            self@.len() < usize::MAX,
        ensures
            r is Ok <==> request_in_range(self@.len() as int, block_id, len as int),
            r matches Ok(off) ==> off == block_offset(block_id),
            r is Err ==> r == Err::<usize, DevError>(DevError::InvalidParam),
    {
        let disk_len = self.len();
        if len % BLOCK_SIZE != 0 {
            return Err(DevError::InvalidParam);
        }
        let block_id: usize = match usize::try_from(block_id) {
            Ok(b) => b,
            Err(_) => return Err(DevError::InvalidParam),
        };
        let offset = match block_id.checked_mul(BLOCK_SIZE) {
            Some(o) => o,
            None => return Err(DevError::InvalidParam),
        };
        if offset.saturating_add(len) > disk_len {
            return Err(DevError::InvalidParam);
        }
        Ok(offset)
    }

    /// Reads whole blocks starting at block `block_id` into `buf`.
    ///
    /// The request is refused with `InvalidParam`, and `buf` left as it was,
    /// unless `buf` holds whole blocks that all lie on the disk. (No disk in
    /// memory reaches `usize::MAX` bytes.)
    pub fn read_block(&mut self, block_id: u64, buf: &mut [u8]) -> (r: DevResult)
        requires
            old(self)@.len() < usize::MAX,
        ensures
            final(self)@ == old(self)@,
            final(self)@ == op_step(old(self)@, DiskOp::Read { block_id, len: old(buf)@.len() as usize }),
            *final(self) is Static <==> *old(self) is Static,
            r is Ok <==> request_in_range(old(self)@.len() as int, block_id, old(buf)@.len() as int),
            r is Ok ==> read_spec(old(self)@, block_id, old(buf)@.len() as int) == Some(final(buf)@),
            r is Err ==> r == Err::<(), DevError>(DevError::InvalidParam) && final(buf)@ == old(buf)@,
            r is Ok <==> (old(buf)@.len() % 512 == 0 && block_id * 512 + old(buf)@.len() <= old(
                self,
            )@.len()),
            r is Ok ==> final(buf)@.len() == old(buf)@.len() && forall|i: int|
                0 <= i < final(buf)@.len() ==> #[trigger] final(buf)@[i] == old(self)@[block_id
                    * 512 + i],
    {
        let offset = match self.request_offset(block_id, buf.len()) {
            Ok(o) => o,
            Err(e) => return Err(e),
        };
        copy_out(buf, self.deref(), offset);
        Ok(())
    }

    /// Writes the whole blocks in `buf` to the disk from block `block_id` on.
    ///
    /// The request is refused with `InvalidParam`, and the disk left as it
    /// was, unless `buf` holds whole blocks that all lie on the disk. (No
    /// disk in memory reaches `usize::MAX` bytes.)
    pub fn write_block(&mut self, block_id: u64, buf: &[u8]) -> (r: DevResult)
        requires
            old(self)@.len() < usize::MAX,
        ensures
            *final(self) is Static <==> *old(self) is Static,
            old(self).wf() ==> final(self).wf(),
            final(self)@.len() == old(self)@.len(),
            r is Ok <==> request_in_range(old(self)@.len() as int, block_id, buf@.len() as int),
            r is Ok ==> write_spec(old(self)@, block_id, buf@) == Some(final(self)@),
            final(self)@ == write_step(old(self)@, block_id, buf@),
            final(self)@ == op_step(old(self)@, DiskOp::Write { block_id, data: buf@ }),
            r is Err ==> r == Err::<(), DevError>(DevError::InvalidParam) && final(self)@ == old(
                self,
            )@,
            r is Ok <==> (buf@.len() % 512 == 0 && block_id * 512 + buf@.len() <= old(
                self,
            )@.len()),
            r is Ok ==> forall|i: int|
                0 <= i < buf@.len() ==> #[trigger] final(self)@[block_id * 512 + i] == buf@[i],
            forall|j: int|
                0 <= j < old(self)@.len() && !(block_id * 512 <= j < block_id * 512 + buf@.len())
                    ==> #[trigger] final(self)@[j] == old(self)@[j],
    {
        let offset = match self.request_offset(block_id, buf.len()) {
            Ok(o) => o,
            Err(e) => return Err(e),
        };
        self.copy_in(offset, buf);
        Ok(())
    }

    /// Flushes the disk: there is nothing to do for memory.
    pub fn flush(&mut self) -> (r: DevResult)
        ensures
            r == Ok::<(), DevError>(()),
            final(self)@ == old(self)@,
            final(self)@ == op_step(old(self)@, DiskOp::Flush),
            *final(self) is Static <==> *old(self) is Static,
    {
        Ok(())
    }
}

impl Default for RamDisk {
    /// An empty RAM disk.
    fn default() -> (r: Self)
        ensures
            r@ == Seq::<u8>::empty(),
            r is Heap,
    {
        RamDisk::Heap(Vec::new())
    }
}

} // verus!
