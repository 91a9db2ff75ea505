//! Pools of fixed-size DMA buffers: 64 slots, a mask of the taken ones, and the rule that
//! a request takes the lowest free slot.
use vstd::prelude::*;
use crate::hal::buffer::Buffer;

verus! {

pub const PAGE_SIZE: usize = 4096;
pub const SECTOR_SIZE: usize = 512;

/// Whether slot `i` is taken in `mask`.
pub open spec fn taken(mask: u64, i: int) -> bool {
    (mask >> (i as u64)) & 1 == 1
}

/// A pool of 64 buffers of `size` bytes each.
pub struct DiskIOBufferPool {
    pub size: usize,
    pub buffers: [u64; 64],
    pub mask: u64,
}

/// A buffer taken from a pool: its slot (none where the pool was full and the buffer was
/// allocated apart) and its address.
#[derive(Debug, Clone, Copy, PartialEq, Eq, Structural)]
pub struct DiskIOBufferPoolHandle {
    pub size: usize,
    pub idx: Option<u8>,
    pub inner: u64,
}

/// The number of pages that 64 buffers of `n` bytes span.
pub open spec fn frame_count(n: int) -> int {
    (n * 64 + PAGE_SIZE - 1) / (PAGE_SIZE as int)
}

impl DiskIOBufferPool {
    /// A pool of buffers of `n` bytes carved from the pages at `frames`: each page holds
    /// `4096 / n` buffers, in
    /// order, until 64 are placed; nothing is taken.
    pub fn new(n: usize, frames: &Vec<u64>) -> (p: Self)
        requires
            0 < n <= PAGE_SIZE,
            PAGE_SIZE % n == 0,
            frames@.len() == frame_count(n as int),
            forall|k: int| 0 <= k < frames@.len() ==> frames@[k] + PAGE_SIZE <= u64::MAX,
        ensures
            p.mask == 0,
            p.size == n,
            forall|j: int| 0 <= j < 64 ==> #[trigger] p.buffers@[j] == frames@[j / (PAGE_SIZE / n) as int] + (j % (PAGE_SIZE / n) as int) * n,
    {
        let per = PAGE_SIZE / n;
        let mut buffers = [0u64; 64];
        let mut idx: usize = 0;
        let mut f: usize = 0;
        proof {
            assert(per >= 1) by (nonlinear_arith)
                requires
                    0 < n <= PAGE_SIZE,
                    per == PAGE_SIZE / n,
            ;
            assert(per * n == PAGE_SIZE) by (nonlinear_arith)
                requires
                    0 < n,
                    PAGE_SIZE % n == 0,
                    per == PAGE_SIZE / n,
            ;
            assert(frame_count(n as int) * per >= 64) by (nonlinear_arith)
                requires
                    per * n == 4096,
                    0 < n <= 4096,
            ;
        }
        while f < frames.len()
            invariant
                per == PAGE_SIZE / n,
                per >= 1,
                per * n == PAGE_SIZE,
                frames@.len() == frame_count(n as int),
                frames@.len() * per >= 64,
                forall|k: int| 0 <= k < frames@.len() ==> frames@[k] + PAGE_SIZE <= u64::MAX,
                f <= frames@.len(),
                idx == if f * per < 64 { f * per } else { 64 },
                forall|j: int| 0 <= j < idx ==> #[trigger] buffers@[j] == frames@[j / per as int] + (j % per as int) * n,
            decreases frames@.len() - f,
        {
            let addr = frames[f];
            let mut i: usize = 0;
            assert((f + 1) * per == f * per + per) by (nonlinear_arith);
            while i < per
                invariant
                    per == PAGE_SIZE / n,
                    per >= 1,
                    per * n == PAGE_SIZE,
                    f < frames@.len(),
                    addr == frames@[f as int],
                    addr + PAGE_SIZE <= u64::MAX,
                    (f + 1) * per == f * per + per,
                    i <= per,
                    idx == if f * per + i < 64 { f * per + i } else { 64 },
                    forall|j: int| 0 <= j < idx ==> #[trigger] buffers@[j] == frames@[j / per as int] + (j % per as int) * n,
                ensures
                    idx == if (f + 1) * per < 64 { (f + 1) * per } else { 64 },
                    forall|j: int| 0 <= j < idx ==> #[trigger] buffers@[j] == frames@[j / per as int] + (j % per as int) * n,
                decreases per - i,
            {
                if idx >= 64 {
                    break;
                }
                proof {
                    assert(i * n < PAGE_SIZE) by (nonlinear_arith)
                        requires
                            i < per,
                            per * n == PAGE_SIZE,
                            n > 0,
                    ;
                    assert((idx as int) / (per as int) == f && (idx as int) % (per as int) == i) by (nonlinear_arith)
                        requires
                            idx == f * per + i,
                            i < per,
                            per >= 1,
                    ;
                }
                buffers[idx] = addr + (i * n) as u64;
                idx += 1;
                i = i + 1;
            }
            f = f + 1;
        }
        proof {
            assert(idx == 64);
        }
        DiskIOBufferPool { size: n, buffers, mask: 0 }
    }

    /// Takes the lowest free slot: the number of taken slots counted up from slot 0 (the
    /// mask's trailing ones).  Its bit is set and its buffer comes back; a full pool gives
    /// no slot (the caller allocates one apart).
    pub fn get_buffer(&mut self) -> (h: Option<(u8, u64)>)
        ensures
            match h {
                Some((i, addr)) => {
                    &&& i < 64
                    &&& !taken(old(self).mask, i as int)
                    &&& forall|j: int| 0 <= j < i ==> #[trigger] taken(old(self).mask, j)
                    &&& final(self).mask == old(self).mask | (1u64 << (i as u64))
                    &&& addr == old(self).buffers@[i as int]
                },
                None => (forall|j: int| 0 <= j < 64 ==> #[trigger] taken(old(self).mask, j)) && final(self).mask == old(self).mask,
            },
            final(self).buffers == old(self).buffers,
            final(self).size == old(self).size,
    {
        let mut i: u64 = 0;
        while i < 64
            invariant
                i <= 64,
                self.mask == old(self).mask,
                self.buffers == old(self).buffers,
                self.size == old(self).size,
                forall|j: int| 0 <= j < i ==> #[trigger] taken(self.mask, j),
            decreases 64 - i,
        {
            let m = self.mask;
            if (m >> i) & 1 == 0 {
                self.mask = m | (1u64 << i);
                return Some((i as u8, self.buffers[i as usize]));
            }
            assert((m >> i) & 1 != 0 ==> (m >> i) & 1 == 1) by (bit_vector);
            assert(taken(m, i as int));
            i = i + 1;
        }
        None
    }

    /// Gives slot `idx` back: its bit is cleared.
    pub fn release(&mut self, idx: u8)
        requires
            idx < 64,
        ensures
            final(self).mask == old(self).mask & !(1u64 << (idx as u64)),
            final(self).buffers == old(self).buffers,
            final(self).size == old(self).size,
    {
        self.mask = self.mask & !(1u64 << (idx as u64));
    }
}

impl DiskIOBufferPoolHandle {
    /// The buffer the handle holds: its address and the pool's buffer size.
    pub fn get_buffer(&self) -> (b: Buffer)
        ensures
            b.inner == self.inner,
            b.len == self.size,
    {
        Buffer { inner: self.inner, len: self.size }
    }
}

/// Taking the lowest free slot of a pool and giving it back leaves the mask as it was.
pub proof fn lemma_take_release(mask: u64, i: u64)
    requires
        i < 64,
        (mask >> i) & 1 == 0,
    ensures
        (mask | (1u64 << i)) & !(1u64 << i) == mask,
{
    assert((mask | (1u64 << i)) & !(1u64 << i) == mask) by (bit_vector)
        requires
            i < 64,
            (mask >> i) & 1 == 0,
    ;
}

/// A slot that was taken is not handed out again before it is released: after slot `i` is
/// taken, slot `i` counts as taken.
pub proof fn lemma_taken_not_reissued(mask: u64, i: u64)
    requires
        i < 64,
    ensures
        taken(mask | (1u64 << i), i as int),
{
    assert(((mask | (1u64 << i)) >> i) & 1 == 1) by (bit_vector)
        requires
            i < 64,
    ;
}

/// The slots of the live handles of a pool: each one at most once, each a slot of the
/// pool, and each marked taken in the mask.
pub open spec fn handles_ok(mask: u64, held: Seq<u64>) -> bool {
    &&& held.no_duplicates()
    &&& forall|k: int| 0 <= k < held.len() ==> #[trigger] held[k] < 64 && taken(mask, held[k] as int)
}

/// Setting bit `i` keeps every other taken bit, and clearing bit `x` keeps every bit but `x`.
proof fn lemma_mask_bits(mask: u64, i: u64, j: u64)
    requires
        i < 64,
        j < 64,
    ensures
        (mask >> j) & 1 == 1 ==> ((mask | (1u64 << i)) >> j) & 1 == 1,
        (mask >> j) & 1 == 1 && i != j ==> ((mask & !(1u64 << i)) >> j) & 1 == 1,
{
    assert(((mask >> j) & 1 == 1 ==> ((mask | (1u64 << i)) >> j) & 1 == 1) && ((mask >> j) & 1 == 1 && i != j
        ==> ((mask & !(1u64 << i)) >> j) & 1 == 1)) by (bit_vector)
        requires
            i < 64,
            j < 64,
    ;
}

/// Two live handles never hold the same slot: taking a free slot (as `get_buffer` does)
/// adds a handle whose slot no live handle holds, and the live handles stay distinct.
pub proof fn lemma_take_keeps_handles_distinct(mask: u64, held: Seq<u64>, i: u64)
    requires
        handles_ok(mask, held),
        i < 64,
        !taken(mask, i as int),
    ensures
        !held.contains(i),
        handles_ok(mask | (1u64 << i), held.push(i)),
{
    let after = held.push(i);
    assert(!held.contains(i)) by {
        if held.contains(i) {
            let k = choose|k: int| 0 <= k < held.len() && held[k] == i;
            assert(taken(mask, held[k] as int));
        }
    }
    lemma_taken_not_reissued(mask, i);
    assert forall|k: int| 0 <= k < after.len() implies #[trigger] after[k] < 64 && taken(mask | (1u64 << i), after[k] as int) by {
        if k < held.len() {
            assert(after[k] == held[k]);
            assert(held[k] < 64 && taken(mask, held[k] as int));
            lemma_mask_bits(mask, i, held[k]);
        }
    }
    assert forall|a: int, b: int| 0 <= a < after.len() && 0 <= b < after.len() && a != b implies after[a] != after[b] by {
        if a < held.len() && b < held.len() {
            assert(after[a] == held[a] && after[b] == held[b]);
        } else if a < held.len() {
            assert(after[a] == held[a] && held.contains(held[a]));
        } else if b < held.len() {
            assert(after[b] == held[b] && held.contains(held[b]));
        }
    }
}

/// Releasing the slot of a live handle (as `release` does) leaves the other live handles
/// distinct and their slots taken.
pub proof fn lemma_release_keeps_handles_distinct(mask: u64, held: Seq<u64>, k: int)
    requires
        handles_ok(mask, held),
        0 <= k < held.len(),
    ensures
        handles_ok(mask & !(1u64 << held[k]), held.remove(k)),
{
    let x = held[k];
    assert(x < 64);
    let after = held.remove(k);
    assert forall|m: int| 0 <= m < after.len() implies #[trigger] after[m] < 64 && taken(mask & !(1u64 << x), after[m] as int) by {
        let src = if m < k { m } else { m + 1 };
        assert(after[m] == held[src]);
        assert(held[src] < 64 && taken(mask, held[src] as int));
        assert(held[src] != x);
        lemma_mask_bits(mask, x, held[src]);
    }
    assert forall|a: int, b: int| 0 <= a < after.len() && 0 <= b < after.len() && a != b implies after[a] != after[b] by {
        let sa = if a < k { a } else { a + 1 };
        let sb = if b < k { b } else { b + 1 };
        assert(after[a] == held[sa] && after[b] == held[sb]);
    }
}

} // verus!
