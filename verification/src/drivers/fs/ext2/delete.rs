//! Deleting a file: which blocks are freed and in what order, and what the counts and the
//! inode become.  The caller reads the tables and writes the bitmaps back.
use vstd::prelude::*;
use crate::drivers::fs::ext2::block_iterator::{INODE_BLOCK_LIMIT, INODE_DOUBLE_IND_BLOCK_LIMIT, INODE_IND_BLOCK_LIMIT};
use crate::drivers::fs::ext2::{Inode, SuperBlock};
use crate::hal::fs::HalFsIOErr;
use crate::serialize::DvDeErr;
use crate::utils::bytes::{le32, read_u32_le};

verus! {

/// The pointers of a table, from pointer `i` on, that freeing it goes through: those before
/// the first zero among the first 256; `None` where the table ends before a pointer that
/// is read.
pub open spec fn pointers_to_free(t: Seq<u8>, i: int) -> Option<Seq<u32>>
    decreases 256 - i,
{
    if i < 0 || i >= 256 {
        Some(Seq::empty())
    } else if 4 * i + 4 > t.len() {
        None
    } else if le32(t, 4 * i) == 0 {
        Some(Seq::empty())
    } else {
        match pointers_to_free(t, i + 1) {
            Some(rest) => Some(seq![le32(t, 4 * i) as u32] + rest),
            None => None,
        }
    }
}

/// The blocks that freeing the table `table` frees before the table itself: its pointers up
/// to the first zero.
pub fn table_pointers_to_free(table: &[u8]) -> (r: Result<Vec<u32>, HalFsIOErr>)
    ensures
        match pointers_to_free(table@, 0) {
            Some(p) => r is Ok && r->Ok_0@ == p,
            None => r matches Err(HalFsIOErr::DeserializationErr(DvDeErr::WrongBufferSize)),
        },
{
    let mut acc: Vec<u32> = Vec::new();
    let mut i: usize = 0;
    while i < 256
        invariant
            i <= 256,
            match pointers_to_free(table@, i as int) {
                Some(rest) => pointers_to_free(table@, 0) == Some(acc@ + rest),
                None => pointers_to_free(table@, 0) is None,
            },
        decreases 256 - i,
    {
        if table.len() < 4 * i + 4 {
            return Err(HalFsIOErr::DeserializationErr(DvDeErr::WrongBufferSize));
        }
        let v = read_u32_le(table, 4 * i);
        if v == 0 {
            assert(acc@ + Seq::<u32>::empty() =~= acc@);
            return Ok(acc);
        }
        proof {
            match pointers_to_free(table@, i + 1) {
                Some(rest) => {
                    assert(acc@ + (seq![v] + rest) =~= acc@.push(v) + rest);
                },
                None => {},
            }
        }
        acc.push(v);
        i = i + 1;
    }
    assert(acc@ + Seq::<u32>::empty() =~= acc@);
    Ok(acc)
}

/// The direct pointers freed, from pointer `i` on: those before the first zero.
pub open spec fn direct_to_free(blocks: Seq<u32>, i: int) -> Seq<u32>
    decreases 12 - i,
{
    if i < 0 || i >= 12 || blocks[i] == 0 {
        Seq::empty()
    } else {
        seq![blocks[i]] + direct_to_free(blocks, i + 1)
    }
}

/// Whether a zero direct pointer ends the freeing before the tables.
pub open spec fn stops_at_direct(blocks: Seq<u32>) -> bool {
    exists|i: int| 0 <= i < 12 && blocks[i] == 0
}

/// The direct blocks that freeing an inode's blocks frees, in order, and whether the
/// freeing stops there: a zero pointer ends it, and nothing after it is freed or counted.
pub fn direct_blocks_to_free(inode: &Inode) -> (r: (Vec<u32>, bool))
    ensures
        r.0@ == direct_to_free(inode.i_block@, 0),
        r.1 == stops_at_direct(inode.i_block@),
{
    let mut acc: Vec<u32> = Vec::new();
    let mut i: usize = 0;
    while i < 12
        invariant
            i <= 12,
            direct_to_free(inode.i_block@, 0) == acc@ + direct_to_free(inode.i_block@, i as int),
            forall|j: int| 0 <= j < i ==> inode.i_block@[j] != 0,
        decreases 12 - i,
    {
        let b = inode.i_block[i];
        if b == 0 {
            assert(acc@ + Seq::<u32>::empty() =~= acc@);
            return (acc, true);
        }
        assert(acc@ + (seq![b] + direct_to_free(inode.i_block@, i + 1)) =~= acc@.push(b) + direct_to_free(
            inode.i_block@,
            i + 1,
        ));
        acc.push(b);
        i = i + 1;
    }
    assert(acc@ + Seq::<u32>::empty() =~= acc@);
    (acc, false)
}

/// The tables that freeing an inode's blocks goes through after the direct blocks: the
/// single, double and triple indirect ones, each when the inode counts more blocks than
/// the ranges before it hold.
pub fn tables_to_free(inode: &Inode) -> (r: (Option<u32>, Option<u32>, Option<u32>))
    ensures
        r.0 == if inode.i_blocks > INODE_BLOCK_LIMIT { Some(inode.i_block@[12]) } else { None::<u32> },
        r.1 == if inode.i_blocks > INODE_IND_BLOCK_LIMIT { Some(inode.i_block@[13]) } else { None::<u32> },
        r.2 == if inode.i_blocks > INODE_DOUBLE_IND_BLOCK_LIMIT { Some(inode.i_block@[14]) } else { None::<u32> },
{
    let single = if inode.i_blocks > INODE_BLOCK_LIMIT { Some(inode.i_block[12]) } else { None };
    let double = if inode.i_blocks > INODE_IND_BLOCK_LIMIT { Some(inode.i_block[13]) } else { None };
    let triple = if inode.i_blocks > INODE_DOUBLE_IND_BLOCK_LIMIT { Some(inode.i_block[14]) } else { None };
    (single, double, triple)
}

impl SuperBlock {
    /// Counts the blocks of `inode` as free once they all were freed: its block count
    /// divided by the block size.
    pub fn count_freed_blocks(&mut self, inode: &Inode)
        requires
            old(self).s_log_block_size <= 21,
            old(self).s_free_blocks_count + inode.i_blocks / (1024u32 << old(self).s_log_block_size) <= u32::MAX,
        ensures
            final(self).s_free_blocks_count == old(self).s_free_blocks_count + inode.i_blocks / (1024u32
                << old(self).s_log_block_size),
            *final(self) == (SuperBlock { s_free_blocks_count: final(self).s_free_blocks_count, ..*old(self) }),
    {
        let bs = self.block_size();
        proof {
            assert(bs > 0) by {
                vstd::arithmetic::power2::lemma_pow2_pos(self.s_log_block_size as nat);
            }
        }
        self.s_free_blocks_count = self.s_free_blocks_count + inode.i_blocks / bs;
    }

    /// Counts one more free inode.
    pub fn count_freed_inode(&mut self)
        requires
            old(self).s_free_inodes_count < u32::MAX,
        ensures
            *final(self) == (SuperBlock { s_free_inodes_count: (old(self).s_free_inodes_count + 1) as u32, ..*old(self) }),
    {
        self.s_free_inodes_count = self.s_free_inodes_count + 1;
    }
}

impl Inode {
    /// Drops one link to the inode; whether none is left, so that it is freed.
    pub fn unlink(&mut self) -> (gone: bool)
        requires
            old(self).i_links_count > 0,
        ensures
            *final(self) == (Inode { i_links_count: (old(self).i_links_count - 1) as u16, ..*old(self) }),
            gone == (final(self).i_links_count == 0),
    {
        self.i_links_count = self.i_links_count - 1;
        self.i_links_count == 0
    }

    /// Marks the inode deleted at `time`, with no blocks.
    pub fn release(&mut self, time: u32)
        ensures
            *final(self) == (Inode { i_dtime: time, i_blocks: 0, ..*old(self) }),
    {
        self.i_dtime = time;
        self.i_blocks = 0;
    }
}

} // verus!
