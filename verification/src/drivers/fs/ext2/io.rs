//! Moving file bytes between a block buffer and the caller's buffer, one block at a time.
use vstd::prelude::*;
use crate::drivers::fs::ext2::Inode;
use crate::hal::fs::HalIOCtx;

verus! {

/// Where a transfer stands: the block of the file it is in, the offset inside that block,
/// and the bytes moved so far.
#[derive(Debug)]
pub struct Progress {
    pub block_idx: u32,
    pub offset: u32,
    pub bytes_written: usize,
}

impl Progress {
    /// The position of byte `head` of a file with blocks of `block_size` bytes, nothing
    /// moved yet.
    pub fn at_head(head: usize, block_size: u32) -> (p: Progress)
        requires
            block_size > 0,
        ensures
            p.block_idx == (head as u32) / block_size,
            p.offset == (head as u32) % block_size,
            p.bytes_written == 0,
    {
        Progress { block_idx: head as u32 / block_size, offset: head as u32 % block_size, bytes_written: 0 }
    }
}

/// How many bytes a read of one block moves: from the block offset to the block's end, but
/// no further than the file's end (counted from `head`) or the target's room.
pub open spec fn read_count(offset: int, block_size: int, head: int, size: int, room: int) -> int {
    let in_block = block_size - offset;
    let in_file = if size > head { size - head } else { 0 };
    let n1 = if in_block < in_file { in_block } else { in_file };
    let n = if n1 < room { n1 } else { room };
    if n < 0 { 0 } else { n }
}

/// Copies the file bytes of the current block from `buf` into `target`: from the block
/// offset on, while the head is before the file's end (as a `u32`) and the target has room.
/// When the whole rest of the block was copied, the progress moves to the start of the next
/// block.
pub fn read_till_next_block(
    inode: &Inode,
    block_size: u32,
    target: &mut Vec<u8>,
    ctx: &mut HalIOCtx,
    progress: &mut Progress,
    buf: &[u8],
)
    requires
        old(progress).offset <= block_size,
        block_size <= buf@.len(),
        old(progress).bytes_written <= old(target)@.len(),
        old(ctx).head + block_size <= usize::MAX,
        old(ctx).head + block_size <= u32::MAX,
        old(progress).block_idx < u32::MAX,
    ensures
        ({
            let n = read_count(old(progress).offset as int, block_size as int, old(ctx).head as int,
                inode.i_size as int, old(target)@.len() - old(progress).bytes_written);
            let w = old(progress).bytes_written as int;
            let o = old(progress).offset as int;
            &&& final(target)@ == old(target)@.take(w) + buf@.subrange(o, o + n) + old(target)@.skip(w + n)
            &&& final(progress).bytes_written == w + n
            &&& final(ctx).head == old(ctx).head + n
            &&& if o + n == block_size {
                final(progress).block_idx == old(progress).block_idx + 1 && final(progress).offset == 0
            } else {
                final(progress).block_idx == old(progress).block_idx && final(progress).offset == old(progress).offset
            }
        }),
{
    let ghost t0 = target@;
    let ghost w0 = progress.bytes_written as int;
    let ghost h0 = ctx.head as int;
    let ghost o = progress.offset as int;
    let mut i: u32 = progress.offset;
    while i < block_size
        invariant
            t0 == old(target)@,
            w0 == old(progress).bytes_written,
            h0 == old(ctx).head,
            o == old(progress).offset,
            o <= i <= block_size,
            block_size <= buf@.len(),
            h0 + block_size <= usize::MAX,
            h0 + block_size <= u32::MAX,
            progress.bytes_written == w0 + (i - o),
            ctx.head == h0 + (i - o),
            progress.bytes_written <= target@.len(),
            target@.len() == t0.len(),
            forall|k: int| 0 <= k < t0.len() && (k < w0 || k >= w0 + (i - o)) ==> #[trigger] target@[k] == t0[k],
            forall|k: int| w0 <= k < w0 + (i - o) ==> #[trigger] target@[k] == buf@[o + k - w0],
            progress.block_idx == old(progress).block_idx,
            progress.offset == old(progress).offset,
            i - o <= read_count(o, block_size as int, h0, inode.i_size as int, t0.len() - w0),
            i - o < read_count(o, block_size as int, h0, inode.i_size as int, t0.len() - w0) || i == block_size
                || read_count(o, block_size as int, h0, inode.i_size as int, t0.len() - w0) == i - o,
        decreases block_size - i,
    {
        if ctx.head as u32 >= inode.i_size {
            assert(read_count(o, block_size as int, h0, inode.i_size as int, t0.len() - w0) == i - o);
            assert(target@ =~= t0.take(w0) + buf@.subrange(o, i as int) + t0.skip(w0 + (i - o)));
            return;
        }
        if progress.bytes_written >= target.len() {
            assert(read_count(o, block_size as int, h0, inode.i_size as int, t0.len() - w0) == i - o);
            assert(target@ =~= t0.take(w0) + buf@.subrange(o, i as int) + t0.skip(w0 + (i - o)));
            return;
        }
        target.set(progress.bytes_written, buf[i as usize]);
        progress.bytes_written += 1;
        ctx.head += 1;
        i = i + 1;
    }
    assert(target@ =~= t0.take(w0) + buf@.subrange(o, i as int) + t0.skip(w0 + (i - o)));
    progress.block_idx += 1;
    progress.offset = 0;
}

/// The file size after `k` bytes were written from the head `h` of a file of `s` bytes:
/// the file reaches at least to the end of what was written, and a write of nothing leaves
/// the size alone.
pub open spec fn grown_size(s: int, h: int, k: int) -> int {
    if k > 0 && h + k > s {
        h + k
    } else {
        s
    }
}

/// How many bytes a write into one block moves: from the block offset to the block's end,
/// or to the input's end, from `w` bytes already written.
pub open spec fn write_count(offset: int, block_size: int, input_len: int, w: int) -> int {
    let room = block_size - offset;
    if input_len - w < room {
        input_len - w
    } else {
        room
    }
}

/// Copies input bytes into the current block `buf`: from the block offset on, to the block's
/// end or the input's end.  The file's size grows to the head's new position where that is
/// past the file's end.  The progress then moves to the next block.
pub fn write_till_next_block(
    inode: &mut Inode,
    block_size: u32,
    input: &[u8],
    ctx: &mut HalIOCtx,
    progress: &mut Progress,
    buf: &mut Vec<u8>,
)
    requires
        old(progress).offset <= block_size,
        block_size <= old(buf)@.len(),
        old(progress).bytes_written <= input@.len(),
        old(ctx).head + write_count(old(progress).offset as int, block_size as int, input@.len() as int,
            old(progress).bytes_written as int) <= u32::MAX,
        old(progress).block_idx < u32::MAX,
    ensures
        ({
            let o = old(progress).offset as int;
            let w = old(progress).bytes_written as int;
            let n = write_count(o, block_size as int, input@.len() as int, w);
            &&& final(buf)@ == old(buf)@.take(o) + input@.subrange(w, w + n) + old(buf)@.skip(o + n)
            &&& final(progress).bytes_written == w + n
            &&& final(ctx).head == old(ctx).head + n
            &&& final(progress).block_idx == old(progress).block_idx + 1
            &&& final(progress).offset == 0
            &&& final(inode).i_size == grown_size(old(inode).i_size as int, old(ctx).head as int, n)
            &&& final(inode).i_block == old(inode).i_block
        }),
{
    let ghost b0 = buf@;
    let ghost w0 = progress.bytes_written as int;
    let ghost o = progress.offset as int;
    let ghost h0 = ctx.head as int;
    let ghost s0 = inode.i_size as int;
    let ghost n = write_count(o, block_size as int, input@.len() as int, w0);
    let mut i: u32 = progress.offset;
    while i < block_size
        invariant
            b0 == old(buf)@,
            w0 == old(progress).bytes_written,
            h0 == old(ctx).head,
            s0 == old(inode).i_size,
            o == old(progress).offset,
            n == write_count(o, block_size as int, input@.len() as int, w0),
            o <= i <= block_size,
            i - o <= n,
            block_size <= buf@.len(),
            buf@.len() == b0.len(),
            h0 + n <= u32::MAX,
            inode.i_size == grown_size(s0, h0, i - o),
            inode.i_block == old(inode).i_block,
            progress.bytes_written == w0 + (i - o),
            progress.bytes_written <= input@.len(),
            ctx.head == h0 + (i - o),
            forall|k: int| 0 <= k < b0.len() && (k < o || k >= i) ==> #[trigger] buf@[k] == b0[k],
            forall|k: int| o <= k < i ==> #[trigger] buf@[k] == input@[w0 + k - o],
            progress.block_idx == old(progress).block_idx,
        ensures
            i - o == n,
            buf@.len() == b0.len(),
            progress.bytes_written == w0 + n,
            ctx.head == h0 + n,
            inode.i_size == grown_size(s0, h0, n),
            inode.i_block == old(inode).i_block,
            forall|k: int| 0 <= k < b0.len() && (k < o || k >= i) ==> #[trigger] buf@[k] == b0[k],
            forall|k: int| o <= k < i ==> #[trigger] buf@[k] == input@[w0 + k - o],
            progress.block_idx == old(progress).block_idx,
        decreases block_size - i,
    {
        if progress.bytes_written >= input.len() {
            break;
        }
        buf.set(i as usize, input[progress.bytes_written]);
        progress.bytes_written += 1;
        ctx.head += 1;
        i = i + 1;
        if ctx.head as u32 > inode.i_size {
            inode.i_size = ctx.head as u32;
        }
    }
    proof {
        assert(buf@ =~= b0.take(o) + input@.subrange(w0, w0 + n) + b0.skip(o + n));
    }
    progress.block_idx += 1;
    progress.offset = 0;
}

/// Bytes written into a block from an offset are what a read from that offset gives back,
/// as far as the read reaches: the block as writing leaves it, then the target as reading
/// from it leaves it, holds the input bytes at the target position.
pub proof fn lemma_write_then_read(
    block: Seq<u8>,
    input: Seq<u8>,
    offset: int,
    from: int,
    n: int,
    target: Seq<u8>,
    at: int,
    m: int,
)
    requires
        0 <= offset,
        0 <= m <= n,
        offset + n <= block.len(),
        0 <= from,
        from + n <= input.len(),
        0 <= at,
        at + m <= target.len(),
    ensures
        ({
            let written = block.take(offset) + input.subrange(from, from + n) + block.skip(offset + n);
            let read = target.take(at) + written.subrange(offset, offset + m) + target.skip(at + m);
            read.subrange(at, at + m) == input.subrange(from, from + m)
        }),
{
    let written = block.take(offset) + input.subrange(from, from + n) + block.skip(offset + n);
    let read = target.take(at) + written.subrange(offset, offset + m) + target.skip(at + m);
    assert(read.subrange(at, at + m) =~= input.subrange(from, from + m));
}

} // verus!
