//! Block allocation: free blocks are taken from a group's block bitmap and held as pending
//! until their bits and the groups' free counts are written back.
use vstd::prelude::*;
use crate::drivers::fs::ext2::bitmap::{bit_set, clear_bit, lemma_set_then_clear, set_bit, test_bit, with_bit, without_bit};
use crate::drivers::fs::ext2::layout::{fits_i64, BufferManager, Ext2BlockGroup, GroupManager, IoHandler};
use crate::hal::fs::HalFsIOErr;
use crate::utils::bytes::{le16, put_le, read_u16_le, write_le};

verus! {

/// A block taken for a file: its first sector, its index inside its group, the group,
/// and its index on the whole file system.
#[derive(Debug, Clone, Copy, PartialEq, Eq, Structural)]
pub struct AllocatedBlock {
    pub addr: i64,
    /// relative to the block group
    pub block_relatve_idx: u32,
    pub gr_number: i64,
    pub block_global_idx: u32,
}

/// The block that bit `idx` of the bitmap of `group` stands for, where groups have
/// `blocks_per_group` blocks.
pub open spec fn block_of_bit(group: Ext2BlockGroup, blocks_per_group: u32, idx: int) -> AllocatedBlock {
    AllocatedBlock {
        addr: (group.spec_group_lba() + idx * group.sectors_per_block) as i64,
        block_relatve_idx: idx as u32,
        gr_number: group.group_number,
        block_global_idx: ((group.group_number as u32) * blocks_per_group + idx) as u32,
    }
}

/// Whether the block of bit `idx` may be taken: its bit is clear and it is not pending.
pub open spec fn bit_is_free(
    bm: Seq<u8>,
    pending: Seq<AllocatedBlock>,
    group: Ext2BlockGroup,
    blocks_per_group: u32,
    idx: int,
) -> bool {
    !bit_set(bm, idx) && !pending.contains(block_of_bit(group, blocks_per_group, idx))
}

/// The blocks that a scan of the bitmap from bit `from` takes when `num` more are wanted:
/// the free ones, in the order of their bits, until `num` are found or the bitmap ends.
pub open spec fn blocks_taken(
    bm: Seq<u8>,
    pending: Seq<AllocatedBlock>,
    group: Ext2BlockGroup,
    blocks_per_group: u32,
    from: int,
    num: nat,
) -> Seq<AllocatedBlock>
    decreases 8 * bm.len() - from, num,
{
    if from >= 8 * bm.len() || from < 0 || num == 0 {
        Seq::empty()
    } else if bit_is_free(bm, pending, group, blocks_per_group, from) {
        seq![block_of_bit(group, blocks_per_group, from)] + blocks_taken(
            bm,
            pending,
            group,
            blocks_per_group,
            from + 1,
            (num - 1) as nat,
        )
    } else {
        blocks_taken(bm, pending, group, blocks_per_group, from + 1, num)
    }
}

/// Every block that a scan from `from` takes stands for a bit at `from` or later.
proof fn lemma_taken_after(
    bm: Seq<u8>,
    pending: Seq<AllocatedBlock>,
    group: Ext2BlockGroup,
    blocks_per_group: u32,
    from: int,
    num: nat,
)
    requires
        0 <= from,
        8 * bm.len() <= u32::MAX + 1,
    ensures
        forall|k: int|
            0 <= k < blocks_taken(bm, pending, group, blocks_per_group, from, num).len() ==> from
                <= (#[trigger] blocks_taken(bm, pending, group, blocks_per_group, from, num)[k]).block_relatve_idx
                < 8 * bm.len(),
        blocks_taken(bm, pending, group, blocks_per_group, from, num).len() <= num,
    decreases 8 * bm.len() - from, num,
{
    if from >= 8 * bm.len() || num == 0 {
    } else {
        lemma_taken_after(bm, pending, group, blocks_per_group, from + 1, (num - 1) as nat);
        lemma_taken_after(bm, pending, group, blocks_per_group, from + 1, num);
    }
}

/// The allocator's state: the groups it may take blocks from, the blocks taken but not yet
/// written back, and the blocks freed but not yet counted in their groups.
#[derive(Debug, Clone)]
pub struct BlockAllocator {
    pub block_groups_count: i64,
    pub group_manager: GroupManager,
    pub io_handler: IoHandler,
    pub buffer_manager: BufferManager,
    pub allocated_block_indices: Vec<AllocatedBlock>,
    pub unwritten_freed_blocks: Vec<u32>,
}

impl BlockAllocator {
    /// An allocator with nothing pending.
    pub fn new(
        block_groups_count: i64,
        group_manager: GroupManager,
        io_handler: IoHandler,
        buffer_manager: BufferManager,
    ) -> (a: Self)
        ensures
            a.block_groups_count == block_groups_count,
            a.group_manager == group_manager,
            a.io_handler == io_handler,
            a.buffer_manager == buffer_manager,
            a.allocated_block_indices@ == Seq::<AllocatedBlock>::empty(),
            a.unwritten_freed_blocks@ == Seq::<u32>::empty(),
    {
        BlockAllocator {
            block_groups_count,
            group_manager,
            io_handler,
            buffer_manager,
            allocated_block_indices: Vec::new(),
            unwritten_freed_blocks: Vec::new(),
        }
    }

    /// Whether `b` is pending.
    fn is_pending(&self, b: &AllocatedBlock) -> (r: bool)
        ensures
            r == self.allocated_block_indices@.contains(*b),
    {
        let mut i: usize = 0;
        while i < self.allocated_block_indices.len()
            invariant
                i <= self.allocated_block_indices@.len(),
                forall|j: int| 0 <= j < i ==> self.allocated_block_indices@[j] != *b,
            decreases self.allocated_block_indices@.len() - i,
        {
            let p = self.allocated_block_indices[i];
            if p.addr == b.addr && p.block_relatve_idx == b.block_relatve_idx && p.gr_number
                == b.gr_number && p.block_global_idx == b.block_global_idx {
                assert(self.allocated_block_indices@[i as int] == *b);
                return true;
            }
            i = i + 1;
        }
        false
    }

    /// Takes up to `num` blocks of `group`, whose block bitmap is `bitmap`: the blocks of the
    /// clear bits, in order, that are not already pending.  They are added to the pending
    /// blocks and returned; fewer than `num` come back when the bitmap has no more.
    pub fn allocate_in_bitmap(&mut self, group: &Ext2BlockGroup, bitmap: &[u8], num: usize) -> (r: Vec<
        AllocatedBlock,
    >)
        requires
            group.group_lba_fits(),
            8 * bitmap@.len() <= u32::MAX + 1,
            8 * bitmap@.len() <= usize::MAX,
            bitmap@.len() > 0 ==> (group.group_number as u32) * (old(self).group_manager.blocks_per_group as int) + 8
                * bitmap@.len() - 1 <= u32::MAX,
            bitmap@.len() > 0 ==> fits_i64((8 * bitmap@.len() - 1) * group.sectors_per_block),
            bitmap@.len() > 0 ==> fits_i64(group.spec_group_lba() + (8 * bitmap@.len() - 1) * group.sectors_per_block),
            group.sectors_per_block >= 0,
        ensures
            r@ == blocks_taken(
                bitmap@,
                old(self).allocated_block_indices@,
                *group,
                old(self).group_manager.blocks_per_group,
                0,
                num as nat,
            ),
            final(self).allocated_block_indices@ == old(self).allocated_block_indices@ + r@,
            final(self).unwritten_freed_blocks == old(self).unwritten_freed_blocks,
            final(self).group_manager == old(self).group_manager,
            final(self).io_handler == old(self).io_handler,
            final(self).buffer_manager == old(self).buffer_manager,
            final(self).block_groups_count == old(self).block_groups_count,
    {
        let ghost pending0 = self.allocated_block_indices@;
        let bpg = self.group_manager.blocks_per_group;
        let ghost total = blocks_taken(bitmap@, pending0, *group, bpg, 0, num as nat);
        let group_lba = group.get_group_lba();
        let mut taken: Vec<AllocatedBlock> = Vec::new();
        let mut left: usize = num;
        let mut idx: usize = 0;
        proof {
            lemma_taken_after(bitmap@, pending0, *group, bpg, 0, num as nat);
        }
        while idx < 8 * bitmap.len()
            invariant
                pending0 == old(self).allocated_block_indices@,
                bpg == self.group_manager.blocks_per_group,
                bpg == old(self).group_manager.blocks_per_group,
                self.unwritten_freed_blocks == old(self).unwritten_freed_blocks,
                self.group_manager == old(self).group_manager,
                self.io_handler == old(self).io_handler,
                self.buffer_manager == old(self).buffer_manager,
                self.block_groups_count == old(self).block_groups_count,
                group_lba == group.spec_group_lba(),
                group.sectors_per_block >= 0,
                8 * bitmap@.len() <= u32::MAX + 1,
                8 * bitmap@.len() <= usize::MAX,
                bitmap@.len() > 0 ==> (group.group_number as u32) * (bpg as int) + 8 * bitmap@.len() - 1 <= u32::MAX,
                bitmap@.len() > 0 ==> fits_i64((8 * bitmap@.len() - 1) * group.sectors_per_block),
                bitmap@.len() > 0 ==> fits_i64(group.spec_group_lba() + (8 * bitmap@.len() - 1) * group.sectors_per_block),
                idx <= 8 * bitmap@.len(),
                left <= num,
                self.allocated_block_indices@ == pending0 + taken@,
                total == taken@ + blocks_taken(bitmap@, pending0, *group, bpg, idx as int, left as nat),
                forall|k: int| 0 <= k < taken@.len() ==> (#[trigger] taken@[k]).block_relatve_idx < idx,
            ensures
                left == 0 || idx >= 8 * bitmap@.len(),
            decreases 8 * bitmap@.len() - idx,
        {
            if left == 0 {
                break;
            }
            let ghost cur = blocks_taken(bitmap@, pending0, *group, bpg, idx as int, left as nat);
            if test_bit(bitmap, idx) {
                idx = idx + 1;
                continue;
            }
            proof {
                assert(idx <= 8 * bitmap@.len() - 1);
                assert(idx * group.sectors_per_block <= (8 * bitmap@.len() - 1) * group.sectors_per_block)
                    by (nonlinear_arith)
                    requires
                        idx <= 8 * bitmap@.len() - 1,
                        group.sectors_per_block >= 0,
                ;
                assert(0 <= idx * group.sectors_per_block) by (nonlinear_arith)
                    requires
                        group.sectors_per_block >= 0,
                ;
                assert(group.spec_group_lba() >= i64::MIN);
            }
            let addr = group_lba + (idx as i64) * group.sectors_per_block;
            let global_idx = group.group_number as u32 * bpg + idx as u32;
            let block = AllocatedBlock {
                addr,
                block_relatve_idx: idx as u32,
                gr_number: group.group_number,
                block_global_idx: global_idx,
            };
            assert(block == block_of_bit(*group, bpg, idx as int));
            let ghost old_pending = self.allocated_block_indices@;
            let pending = self.is_pending(&block);
            proof {
                // a block taken in this scan has a smaller bit, so it is not this one
                if !pending0.contains(block) {
                    if old_pending.contains(block) {
                        let w = choose|w: int| 0 <= w < old_pending.len() && old_pending[w] == block;
                        assert(taken@[w - pending0.len()] == block);
                        assert(false);
                    }
                } else {
                    let w = choose|w: int| 0 <= w < pending0.len() && pending0[w] == block;
                    assert(old_pending[w] == block);
                }
                assert(pending == pending0.contains(block));
            }
            if pending {
                idx = idx + 1;
                continue;
            }
            self.allocated_block_indices.push(block);
            taken.push(block);
            proof {
                assert(self.allocated_block_indices@ =~= pending0 + taken@);
                assert(cur == seq![block] + blocks_taken(bitmap@, pending0, *group, bpg, idx + 1, (left - 1) as nat));
                assert(total =~= taken@ + blocks_taken(bitmap@, pending0, *group, bpg, idx + 1, (left - 1) as nat));
            }
            left = left - 1;
            idx = idx + 1;
        }
        proof {
            assert(blocks_taken(bitmap@, pending0, *group, bpg, idx as int, left as nat) =~= Seq::<AllocatedBlock>::empty());
            assert(total =~= taken@);
        }
        taken
    }

    /// Holds a freed block until its group's free count is written; a block already held
    /// is held once.
    pub fn add_freed_block(&mut self, block: u32)
        ensures
            old(self).unwritten_freed_blocks@.no_duplicates() ==> final(self).unwritten_freed_blocks@.no_duplicates(),
            final(self).unwritten_freed_blocks@.contains(block),
            old(self).unwritten_freed_blocks@.contains(block) ==> final(self).unwritten_freed_blocks@
                == old(self).unwritten_freed_blocks@,
            !old(self).unwritten_freed_blocks@.contains(block) ==> final(self).unwritten_freed_blocks@
                == old(self).unwritten_freed_blocks@.push(block),
            final(self).allocated_block_indices == old(self).allocated_block_indices,
            final(self).group_manager == old(self).group_manager,
            final(self).io_handler == old(self).io_handler,
            final(self).buffer_manager == old(self).buffer_manager,
            final(self).block_groups_count == old(self).block_groups_count,
    {
        let mut i: usize = 0;
        while i < self.unwritten_freed_blocks.len()
            invariant
                i <= self.unwritten_freed_blocks@.len(),
                forall|j: int| 0 <= j < i ==> self.unwritten_freed_blocks@[j] != block,
            decreases self.unwritten_freed_blocks@.len() - i,
        {
            if self.unwritten_freed_blocks[i] == block {
                assert(self.unwritten_freed_blocks@[i as int] == block);
                return;
            }
            i = i + 1;
        }
        let ghost before = self.unwritten_freed_blocks@;
        self.unwritten_freed_blocks.push(block);
        proof {
            assert(self.unwritten_freed_blocks@[before.len() as int] == block);
            if before.no_duplicates() {
                assert forall|a: int, b: int| 0 <= a < self.unwritten_freed_blocks@.len() && 0 <= b
                    < self.unwritten_freed_blocks@.len() && a != b implies self.unwritten_freed_blocks@[a]
                    != self.unwritten_freed_blocks@[b] by {
                    if a < before.len() && b < before.len() {
                        assert(self.unwritten_freed_blocks@[a] == before[a]);
                        assert(self.unwritten_freed_blocks@[b] == before[b]);
                    } else if a < before.len() {
                        assert(self.unwritten_freed_blocks@[a] == before[a]);
                    } else if b < before.len() {
                        assert(self.unwritten_freed_blocks@[b] == before[b]);
                    }
                }
            }
        }
    }

    /// The group of each held freed block, in the order held: the block's index divided by
    /// the blocks per group.  Writing the freed blocks back adds one to the free count of
    /// the group named at each position.
    pub fn freed_block_groups(&self) -> (r: Vec<i64>)
        requires
            self.group_manager.blocks_per_group > 0,
        ensures
            r@.len() == self.unwritten_freed_blocks@.len(),
            forall|k: int| 0 <= k < r@.len() ==> #[trigger] r@[k] == self.unwritten_freed_blocks@[k]
                / self.group_manager.blocks_per_group,
    {
        let bpg = self.group_manager.blocks_per_group;
        let mut r: Vec<i64> = Vec::new();
        let mut i: usize = 0;
        while i < self.unwritten_freed_blocks.len()
            invariant
                bpg == self.group_manager.blocks_per_group,
                bpg > 0,
                i <= self.unwritten_freed_blocks@.len(),
                r@.len() == i,
                forall|k: int| 0 <= k < i ==> #[trigger] r@[k] == self.unwritten_freed_blocks@[k] / bpg,
            decreases self.unwritten_freed_blocks@.len() - i,
        {
            r.push((self.unwritten_freed_blocks[i] / bpg) as i64);
            i = i + 1;
        }
        r
    }

    /// Forgets the held freed blocks once their groups' free counts are written.
    pub fn clear_freed_blocks(&mut self)
        ensures
            final(self).unwritten_freed_blocks@.len() == 0,
            final(self).allocated_block_indices == old(self).allocated_block_indices,
            final(self).group_manager == old(self).group_manager,
            final(self).block_groups_count == old(self).block_groups_count,
    {
        self.unwritten_freed_blocks = Vec::new();
    }

    /// Whether the allocation of `wanted` blocks succeeded once `got` were found: it
    /// fails with no space left when any are missing.
    pub fn check_allocation(wanted: usize, got: usize) -> (r: Result<(), HalFsIOErr>)
        ensures
            r is Ok <==> got >= wanted,
            r matches Err(e) ==> e is NoSpaceLeft,
    {
        if got < wanted {
            return Err(HalFsIOErr::NoSpaceLeft);
        }
        Ok(())
    }

    /// The groups that pending blocks belong to, each with how many, in the order the groups
    /// first occur.
    pub fn allocated_per_group(&self) -> (r: Vec<(i64, i64)>)
        requires
            self.allocated_block_indices@.len() <= i64::MAX,
        ensures
            forall|k: int| 0 <= k < r@.len() ==> #[trigger] r@[k].1 == count_in_group(self.allocated_block_indices@, r@[k].0),
            forall|k: int| 0 <= k < r@.len() ==> #[trigger] r@[k].1 >= 1,
            forall|j: int| 0 <= j < self.allocated_block_indices@.len() ==> group_listed(r@, (#[trigger] self.allocated_block_indices@[j]).gr_number),
            forall|k: int, l: int| 0 <= k < l < r@.len() ==> r@[k].0 != r@[l].0,
    {
        let ghost all = self.allocated_block_indices@;
        let mut r: Vec<(i64, i64)> = Vec::new();
        let mut i: usize = 0;
        while i < self.allocated_block_indices.len()
            invariant
                all == self.allocated_block_indices@,
                all.len() <= i64::MAX,
                i <= all.len(),
                forall|k: int| 0 <= k < r@.len() ==> #[trigger] r@[k].1 == count_in_group(all.take(i as int), r@[k].0),
                forall|k: int| 0 <= k < r@.len() ==> #[trigger] r@[k].1 >= 1,
                forall|j: int| 0 <= j < i ==> group_listed(r@, (#[trigger] all[j]).gr_number),
                forall|k: int, l: int| 0 <= k < l < r@.len() ==> r@[k].0 != r@[l].0,
            decreases all.len() - i,
        {
            let g = self.allocated_block_indices[i].gr_number;
            proof {
                assert(all.take(i + 1).drop_last() =~= all.take(i as int));
                assert(all.take(i + 1).last() == all[i as int]);
                lemma_count_le(all.take(i as int), g);
            }
            let mut k: usize = 0;
            let mut found = false;
            while k < r.len() && !found
                invariant
                    k <= r@.len(),
                    forall|m: int| 0 <= m < k ==> r@[m].0 != g,
                    found ==> k < r@.len() && r@[k as int].0 == g,
                decreases r@.len() - k + if found { 0int } else { 1 },
            {
                if r[k].0 == g {
                    found = true;
                } else {
                    k = k + 1;
                }
            }
            let ghost r0 = r@;
            if found {
                let c = r[k].1;
                r.set(k, (g, c + 1));
            } else {
                r.push((g, 1));
                proof {
                    lemma_count_none(all.take(i as int), g, r0);
                }
            }
            proof {
                assert forall|m: int| 0 <= m < r0.len() implies r@[m].0 == r0[m].0 by {}
                assert forall|j: int| 0 <= j < i + 1 implies group_listed(r@, (#[trigger] all[j]).gr_number) by {
                    if j < i {
                        lemma_listed_kept(r0, r@, all[j].gr_number);
                    } else {
                        if found {
                            assert(r@[k as int].0 == g);
                        } else {
                            assert(r@[r0.len() as int].0 == g);
                        }
                    }
                }
                assert forall|m: int| 0 <= m < r@.len() implies #[trigger] r@[m].1 == count_in_group(all.take(i + 1), r@[m].0) by {
                    if m < r0.len() && r0[m].0 != g {
                        assert(r@[m] == r0[m]);
                    }
                }
                assert forall|m: int| 0 <= m < r@.len() implies #[trigger] r@[m].1 >= 1 by {
                    if m < r0.len() && !(found && m == k) {
                        assert(r@[m] == r0[m]);
                    }
                }
            }
            i = i + 1;
        }
        assert(all.take(all.len() as int) =~= all);
        r
    }
}

/// Whether the group `g` is among the groups of `r`.
pub open spec fn group_listed(r: Seq<(i64, i64)>, g: i64) -> bool {
    exists|k: int| 0 <= k < r.len() && r[k].0 == g
}

/// A listed group stays listed where the groups of the earlier entries are kept.
proof fn lemma_listed_kept(r0: Seq<(i64, i64)>, r: Seq<(i64, i64)>, g: i64)
    requires
        group_listed(r0, g),
        r0.len() <= r.len(),
        forall|m: int| 0 <= m < r0.len() ==> r[m].0 == r0[m].0,
    ensures
        group_listed(r, g),
{
    let k = choose|k: int| 0 <= k < r0.len() && r0[k].0 == g;
    assert(r[k].0 == g);
}

/// How many of the blocks `s` belong to group `g`.
pub open spec fn count_in_group(s: Seq<AllocatedBlock>, g: i64) -> int
    decreases s.len(),
{
    if s.len() == 0 {
        0
    } else {
        count_in_group(s.drop_last(), g) + if s.last().gr_number == g { 1int } else { 0 }
    }
}

/// No more blocks belong to a group than there are.
proof fn lemma_count_le(s: Seq<AllocatedBlock>, g: i64)
    ensures
        0 <= count_in_group(s, g) <= s.len(),
    decreases s.len(),
{
    if s.len() > 0 {
        lemma_count_le(s.drop_last(), g);
    }
}

/// Where every block's group is listed and `g` is not, no block belongs to `g`.
proof fn lemma_count_none(s: Seq<AllocatedBlock>, g: i64, r: Seq<(i64, i64)>)
    requires
        forall|j: int| 0 <= j < s.len() ==> group_listed(r, (#[trigger] s[j]).gr_number),
        forall|m: int| 0 <= m < r.len() ==> r[m].0 != g,
    ensures
        count_in_group(s, g) == 0,
    decreases s.len(),
{
    if s.len() > 0 {
        assert forall|j: int| 0 <= j < s.drop_last().len() implies group_listed(r, (#[trigger] s.drop_last()[j]).gr_number) by {
            assert(s.drop_last()[j] == s[j]);
        }
        lemma_count_none(s.drop_last(), g, r);
        let j = s.len() - 1;
        assert(group_listed(r, s[j].gr_number));
    }
}

/// Marks block `block_idx` as used in the bitmap `bitmap`, at the bit of its index as the
/// allocator's write-back addresses it.
pub fn mark_block_used(bitmap: &mut Vec<u8>, block_idx: u32)
    requires
        (block_idx as int) / 8 < old(bitmap)@.len(),
    ensures
        final(bitmap)@ == with_bit(old(bitmap)@, block_idx as int),
        final(bitmap)@.len() == old(bitmap)@.len(),
        bit_set(final(bitmap)@, block_idx as int),
        forall|j: int| 0 <= j < 8 * old(bitmap)@.len() && j != block_idx ==> #[trigger] bit_set(final(bitmap)@, j) == bit_set(old(bitmap)@, j),
{
    set_bit(bitmap, block_idx as usize);
}

/// Marks the block `block` of groups of `blocks_per_group` blocks as free in its group's
/// bitmap: the bit of its index inside the group.
pub fn mark_block_free(bitmap: &mut Vec<u8>, block: u32, blocks_per_group: u32)
    requires
        blocks_per_group > 0,
        ((block % blocks_per_group) as int) / 8 < old(bitmap)@.len(),
    ensures
        final(bitmap)@ == without_bit(old(bitmap)@, (block % blocks_per_group) as int),
        final(bitmap)@.len() == old(bitmap)@.len(),
        !bit_set(final(bitmap)@, (block % blocks_per_group) as int),
        forall|j: int| 0 <= j < 8 * old(bitmap)@.len() && j != block % blocks_per_group ==> #[trigger] bit_set(final(bitmap)@, j) == bit_set(old(bitmap)@, j),
{
    clear_bit(bitmap, (block % blocks_per_group) as usize);
}

/// Takes `n` from the free-block count of the descriptor at `off` of `buf`.
pub fn take_free_blocks(buf: &mut Vec<u8>, off: usize, n: u16)
    requires
        off + 14 <= old(buf).len(),
        le16(old(buf)@, off + 12) >= n,
    ensures
        final(buf)@ == put_le(old(buf)@, off + 12, 2, le16(old(buf)@, off + 12) - n),
{
    let c = read_u16_le(buf.as_slice(), off + 12);
    write_le(buf, off + 12, 2, (c - n) as u128);
}

/// Adds one to the free-block count of the descriptor at `off` of `buf`, as the
/// write-back of a freed block does: the block counts as free again.
pub fn count_freed_block(buf: &mut Vec<u8>, off: usize)
    requires
        off + 14 <= old(buf).len(),
        le16(old(buf)@, off + 12) < u16::MAX,
    ensures
        final(buf)@ == put_le(old(buf)@, off + 12, 2, le16(old(buf)@, off + 12) + 1),
{
    let c = read_u16_le(buf.as_slice(), off + 12);
    write_le(buf, off + 12, 2, (c + 1) as u128);
}

/// A free block of the first group that is marked used and then freed leaves its bitmap as
/// it was.
pub proof fn lemma_used_then_freed(bitmap: Seq<u8>, block: u32, blocks_per_group: u32)
    requires
        block < blocks_per_group,
        (block as int) / 8 < bitmap.len(),
        !bit_set(bitmap, block as int),
    ensures
        without_bit(with_bit(bitmap, block as int), (block % blocks_per_group) as int) == bitmap,
{
    vstd::arithmetic::div_mod::lemma_small_mod(block as nat, blocks_per_group as nat);
    lemma_set_then_clear(bitmap, block as int);
}

} // verus!
