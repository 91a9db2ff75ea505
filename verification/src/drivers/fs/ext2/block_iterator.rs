//! Walking the blocks of an inode: the twelve direct pointers, then the single, double and
//! triple indirect tables.  The walk is a state machine: each step either names the disk
//! access it needs next (a pointer table to load, a table to write back, a block to zero,
//! a block to allocate) or gives the data block of the current index.
use vstd::prelude::*;
use crate::drivers::fs::ext2::allocator::AllocatedBlock;
use crate::drivers::fs::ext2::layout::IoHandler;
use crate::drivers::fs::ext2::Inode;
use crate::utils::bytes::{le32, put_le, read_u32_le, write_le};

verus! {

/// The direct pointers of an inode.
pub const INODE_BLOCK_LIMIT: u32 = 12;
/// Pointers in one indirect table of the nominal block size.
pub const IND_BLOCK_ADDR_COUNT: u32 = 256;
/// The first index past the single indirect table.
pub const INODE_IND_BLOCK_LIMIT: u32 = 268;
/// The first index past the double indirect table.
pub const INODE_DOUBLE_IND_BLOCK_LIMIT: u32 = 65804;
/// The first index past the triple indirect table.
pub const INODE_TRIPLE_IND_BLOCK_LIMIT: u32 = 16843020;
/// Pointers per block of the nominal block size.
pub const ADDR_PER_BLOCK: u32 = 256;

/// The pointer tables that the walk caches.
#[derive(Debug, Clone, Copy, PartialEq, Eq, Structural)]
pub enum TableLevel {
    Single,
    Double,
    Triple,
}

/// What reading the current block needs next.
#[derive(Debug, Clone, Copy, PartialEq, Eq, Structural)]
pub enum BlockFetch {
    /// Read `block` into the cache of `level`, then ask again; with `record` the cache
    /// remembers which block it holds.
    LoadTable { level: TableLevel, block: u32, record: bool },
    /// The current block is `block`: read it into the caller's buffer.
    Data { block: u32 },
    /// The current block is a hole: fill the caller's buffer with zeros.
    Zeroed,
    /// The index is past what the inode can address.
    Terminated,
}

/// What making the current block exist needs next.
#[derive(Debug, Clone, Copy, PartialEq, Eq, Structural)]
pub enum BlockSet {
    /// Allocate one block in the iterator's group and hand it to `provide_block`.
    Allocate,
    /// Read `block` into the cache of `level`, then ask again.
    LoadTable { level: TableLevel, block: u32, record: bool },
    /// Write the cache of `level` back to `block`.
    WriteTable { level: TableLevel, block: u32 },
    /// Write a zeroed block to `block`.
    ClearBlock { block: u32 },
    /// The current block is `block`.
    Done { block: u32 },
}

/// Where a block handed to `provide_block` goes.
#[derive(Debug, Clone, Copy, PartialEq, Eq, Structural)]
pub enum PointerSlot {
    /// The data pointer `i` of the inode.
    Direct(usize),
    /// The inode's pointer `i` to an indirect table.
    TableRoot(usize),
    /// The pointer at byte `off` of the cached table of `level`.
    TableEntry(TableLevel, usize),
}

/// The iterator over an inode's blocks.
pub struct InodeBlockIterator {
    pub blocks: [u32; 15],
    pub group_number: i64,
    pub block_size: usize,
    pub io_handler: IoHandler,
    pub cur_ind_buf: Option<Vec<u8>>,
    pub cur_ind_buf_block_idx: u32,
    pub cur_double_ind_buf: Option<Vec<u8>>,
    pub cur_double_ind_buf_block_idx: u32,
    pub cur_triple_ind_buf: Option<Vec<u8>>,
    pub cur_triple_ind_buf_block_idx: u32,
    /// will be initialized as aligned up i_size
    pub blocks_limit: usize,
    pub cur_idx: usize,
    pub cur_block_idx: u32,
    /// Disk writes that must happen before the walk to set a block goes on.
    pub pending: Vec<BlockSet>,
    /// Where the next allocated block goes.
    pub awaiting: Option<PointerSlot>,
    /// The blocks allocated while setting the current block.
    pub allocated: Vec<AllocatedBlock>,
}

/// The bytes of an optional table.
pub open spec fn table_view(t: Option<Vec<u8>>) -> Option<Seq<u8>> {
    match t {
        Some(v) => Some(v@),
        None => None,
    }
}

/// The pointer stored at byte `off` of a table.
pub open spec fn ptr_at(t: Seq<u8>, off: int) -> u32 {
    le32(t, off) as u32
}

/// The step for the data pointer `b`: a hole where it is zero.
pub open spec fn fetch_data(b: u32) -> BlockFetch {
    if b == 0 {
        BlockFetch::Zeroed
    } else {
        BlockFetch::Data { block: b }
    }
}

/// The offsets into the double and the single table of index `i` counted from the start
/// of a double indirect range, with `nb` pointers per table.
pub open spec fn split2(i: int, nb: int) -> (int, int) {
    ((i / nb) * 4, (i % nb) * 4)
}

impl InodeBlockIterator {
    /// The pointers in a table of this iterator's block size.
    pub open spec fn nb(&self) -> int {
        (self.block_size / 4) as int
    }

    /// Whether the cached tables are whole blocks, as this iterator loads them.
    pub open spec fn tables_ok(&self) -> bool {
        &&& self.block_size >= 1024
        &&& (self.cur_ind_buf matches Some(t) ==> t@.len() == self.block_size)
        &&& (self.cur_double_ind_buf matches Some(t) ==> t@.len() == self.block_size)
        &&& (self.cur_triple_ind_buf matches Some(t) ==> t@.len() == self.block_size)
    }

    /// The step through the single indirect table `ind_idx` to the pointer at byte `off`,
    /// with the current block it sets, if any.
    pub open spec fn spec_fetch_ind(&self, off: int, ind_idx: u32) -> (BlockFetch, Option<u32>) {
        if ind_idx == 0 {
            (BlockFetch::Zeroed, None)
        } else if self.cur_ind_buf is None {
            (BlockFetch::LoadTable { level: TableLevel::Single, block: self.blocks@[12], record: true }, None)
        } else if ind_idx != self.cur_ind_buf_block_idx {
            (BlockFetch::LoadTable { level: TableLevel::Single, block: ind_idx, record: true }, None)
        } else {
            let b = ptr_at(self.cur_ind_buf->0@, off);
            (fetch_data(b), Some(b))
        }
    }

    /// The step through the double indirect table `dbl_idx`.
    pub open spec fn spec_fetch_double(&self, off_dbl: int, off_ind: int, dbl_idx: u32) -> (BlockFetch, Option<u32>) {
        if dbl_idx == 0 {
            (BlockFetch::Zeroed, None)
        } else if self.cur_double_ind_buf is None {
            (BlockFetch::LoadTable { level: TableLevel::Double, block: self.blocks@[13], record: true }, None)
        } else if dbl_idx != self.cur_double_ind_buf_block_idx {
            (BlockFetch::LoadTable { level: TableLevel::Double, block: dbl_idx, record: true }, None)
        } else {
            self.spec_fetch_ind(off_ind, ptr_at(self.cur_double_ind_buf->0@, off_dbl))
        }
    }

    /// The next step of reading the block at the current index, with the current block it
    /// sets, if any.  Below twelve the inode's own pointer is used; past it the tables are
    /// indexed at four bytes per pointer, as setting a block indexes them.
    pub open spec fn spec_fetch(&self) -> (BlockFetch, Option<u32>) {
        let i = (self.cur_idx as u32) as int;
        let nb = self.nb();
        if i < INODE_BLOCK_LIMIT {
            (fetch_data(self.blocks@[self.cur_idx as int]), Some(self.blocks@[self.cur_idx as int]))
        } else if i < INODE_IND_BLOCK_LIMIT {
            self.spec_fetch_ind((self.cur_idx - INODE_BLOCK_LIMIT) * 4, self.blocks@[12])
        } else if i < INODE_DOUBLE_IND_BLOCK_LIMIT {
            let j = self.cur_idx - INODE_IND_BLOCK_LIMIT;
            self.spec_fetch_double(split2(j, nb).0, split2(j, nb).1, self.blocks@[13])
        } else if i < INODE_TRIPLE_IND_BLOCK_LIMIT {
            let j = self.cur_idx - INODE_DOUBLE_IND_BLOCK_LIMIT;
            if self.blocks@[14] == 0 {
                (BlockFetch::Zeroed, None)
            } else if self.cur_triple_ind_buf is None {
                (BlockFetch::LoadTable { level: TableLevel::Triple, block: self.blocks@[14], record: false }, None)
            } else {
                self.spec_fetch_double(
                    ((j / nb) % nb) * 4,
                    (j % nb) * 4,
                    ptr_at(self.cur_triple_ind_buf->0@, (j / (nb * nb)) * 4),
                )
            }
        } else {
            (BlockFetch::Terminated, None)
        }
    }

    /// An iterator at the first block of an inode with pointers `blocks` and `blocks_limit`
    /// blocks, in group `group_number`.
    pub fn new(blocks: [u32; 15], group_number: i64, block_size: usize, io_handler: IoHandler, blocks_limit: usize) -> (it: Self)
        ensures
            it.blocks == blocks,
            it.group_number == group_number,
            it.block_size == block_size,
            it.io_handler == io_handler,
            it.blocks_limit == blocks_limit,
            it.cur_idx == 0,
            it.cur_block_idx == 0,
            it.cur_ind_buf is None && it.cur_double_ind_buf is None && it.cur_triple_ind_buf is None,
            it.cur_ind_buf_block_idx == 0 && it.cur_double_ind_buf_block_idx == 0 && it.cur_triple_ind_buf_block_idx == 0,
            it.pending@.len() == 0,
            it.awaiting is None,
            it.allocated@.len() == 0,
    {
        InodeBlockIterator {
            blocks,
            group_number,
            block_size,
            io_handler,
            cur_ind_buf: None,
            cur_ind_buf_block_idx: 0,
            cur_double_ind_buf: None,
            cur_double_ind_buf_block_idx: 0,
            cur_triple_ind_buf: None,
            cur_triple_ind_buf_block_idx: 0,
            blocks_limit,
            cur_idx: 0,
            cur_block_idx: 0,
            pending: Vec::new(),
            awaiting: None,
            allocated: Vec::new(),
        }
    }

    /// Moves the walk `count` blocks on.
    pub fn skip(&mut self, count: usize)
        requires
            old(self).cur_idx + count <= usize::MAX,
        ensures
            final(self).cur_idx == old(self).cur_idx + count,
            final(self).blocks == old(self).blocks,
            final(self).blocks_limit == old(self).blocks_limit,
    {
        self.cur_idx += count;
    }

    /// Moves the walk past the inode's last block.
    pub fn skip_to_end(&mut self)
        ensures
            final(self).cur_idx == old(self).blocks_limit,
            final(self).blocks == old(self).blocks,
            final(self).blocks_limit == old(self).blocks_limit,
    {
        self.cur_idx = self.blocks_limit;
    }

    /// The index of the current block.
    pub fn cur_idx(&mut self) -> (r: usize)
        ensures
            r == old(self).cur_idx,
            *final(self) == *old(self),
    {
        self.cur_idx
    }

    /// The inode's block pointers as the walk has set them.
    pub fn get_blocks_array(&self) -> (r: [u32; 15])
        ensures
            r == self.blocks,
    {
        self.blocks
    }

    /// The inode's block pointers as the walk has set them.
    pub fn into_blocks_array(self) -> (r: [u32; 15])
        ensures
            r == self.blocks,
    {
        self.blocks
    }

    /// Whether `next` ends here: the current index is at or past the inode's size.
    pub fn is_exhausted(&self) -> (b: bool)
        ensures
            b == (self.cur_idx >= self.blocks_limit),
    {
        self.cur_idx >= self.blocks_limit
    }

    /// Moves to the next block once the current one has been read or set.
    pub fn advance(&mut self)
        requires
            old(self).cur_idx < usize::MAX,
        ensures
            final(self).cur_idx == old(self).cur_idx + 1,
            final(self).blocks == old(self).blocks,
            final(self).blocks_limit == old(self).blocks_limit,
    {
        self.cur_idx += 1;
    }

    /// The block that the current element reports.
    pub fn cur_block_idx(&self) -> (r: u32)
        ensures
            r == self.cur_block_idx,
    {
        self.cur_block_idx
    }

    /// Puts `data`, read from `block`, in the cache of `level`; with `record` the cache
    /// remembers `block`.
    pub fn load_table(&mut self, level: TableLevel, block: u32, record: bool, data: Vec<u8>)
        requires
            data@.len() == old(self).block_size,
        ensures
            level == TableLevel::Single ==> table_view(final(self).cur_ind_buf) == Some(data@)
                && final(self).cur_ind_buf_block_idx == if record { block } else { old(self).cur_ind_buf_block_idx },
            level != TableLevel::Single ==> final(self).cur_ind_buf == old(self).cur_ind_buf
                && final(self).cur_ind_buf_block_idx == old(self).cur_ind_buf_block_idx,
            level == TableLevel::Double ==> table_view(final(self).cur_double_ind_buf) == Some(data@)
                && final(self).cur_double_ind_buf_block_idx == if record { block } else { old(self).cur_double_ind_buf_block_idx },
            level != TableLevel::Double ==> final(self).cur_double_ind_buf == old(self).cur_double_ind_buf
                && final(self).cur_double_ind_buf_block_idx == old(self).cur_double_ind_buf_block_idx,
            level == TableLevel::Triple ==> table_view(final(self).cur_triple_ind_buf) == Some(data@)
                && final(self).cur_triple_ind_buf_block_idx == if record { block } else { old(self).cur_triple_ind_buf_block_idx },
            level != TableLevel::Triple ==> final(self).cur_triple_ind_buf == old(self).cur_triple_ind_buf
                && final(self).cur_triple_ind_buf_block_idx == old(self).cur_triple_ind_buf_block_idx,
            final(self).blocks == old(self).blocks,
            final(self).cur_idx == old(self).cur_idx,
            final(self).cur_block_idx == old(self).cur_block_idx,
            final(self).block_size == old(self).block_size,
            final(self).blocks_limit == old(self).blocks_limit,
            final(self).group_number == old(self).group_number,
            final(self).pending == old(self).pending,
            final(self).awaiting == old(self).awaiting,
            final(self).allocated == old(self).allocated,
    {
        match level {
            TableLevel::Single => {
                self.cur_ind_buf = Some(data);
                if record {
                    self.cur_ind_buf_block_idx = block;
                }
            },
            TableLevel::Double => {
                self.cur_double_ind_buf = Some(data);
                if record {
                    self.cur_double_ind_buf_block_idx = block;
                }
            },
            TableLevel::Triple => {
                self.cur_triple_ind_buf = Some(data);
                if record {
                    self.cur_triple_ind_buf_block_idx = block;
                }
            },
        }
    }

    /// The step through the single table, as `spec_fetch_ind` says.
    fn fetch_ind(&mut self, off: usize, ind_idx: u32) -> (r: BlockFetch)
        requires
            old(self).tables_ok(),
            off + 4 <= old(self).block_size,
        ensures
            r == old(self).spec_fetch_ind(off as int, ind_idx).0,
            old(self).spec_fetch_ind(off as int, ind_idx).1 matches Some(b) ==> final(self).cur_block_idx == b,
            old(self).spec_fetch_ind(off as int, ind_idx).1 is None ==> final(self).cur_block_idx == old(self).cur_block_idx,
            final(self).blocks == old(self).blocks,
            final(self).cur_idx == old(self).cur_idx,
            final(self).cur_ind_buf == old(self).cur_ind_buf,
            final(self).cur_double_ind_buf == old(self).cur_double_ind_buf,
            final(self).cur_triple_ind_buf == old(self).cur_triple_ind_buf,
    {
        if ind_idx == 0 {
            return BlockFetch::Zeroed;
        }
        match &self.cur_ind_buf {
            None => BlockFetch::LoadTable { level: TableLevel::Single, block: self.blocks[12], record: true },
            Some(t) => {
                if ind_idx != self.cur_ind_buf_block_idx {
                    BlockFetch::LoadTable { level: TableLevel::Single, block: ind_idx, record: true }
                } else {
                    let b = read_u32_le(t.as_slice(), off);
                    self.cur_block_idx = b;
                    if b == 0 {
                        BlockFetch::Zeroed
                    } else {
                        BlockFetch::Data { block: b }
                    }
                }
            },
        }
    }

    /// The step through the double table, as `spec_fetch_double` says.
    fn fetch_double(&mut self, off_dbl: usize, off_ind: usize, dbl_idx: u32) -> (r: BlockFetch)
        requires
            old(self).tables_ok(),
            off_dbl + 4 <= old(self).block_size,
            off_ind + 4 <= old(self).block_size,
        ensures
            r == old(self).spec_fetch_double(off_dbl as int, off_ind as int, dbl_idx).0,
            old(self).spec_fetch_double(off_dbl as int, off_ind as int, dbl_idx).1 matches Some(b) ==> final(self).cur_block_idx == b,
            old(self).spec_fetch_double(off_dbl as int, off_ind as int, dbl_idx).1 is None ==> final(self).cur_block_idx == old(self).cur_block_idx,
            final(self).blocks == old(self).blocks,
            final(self).cur_idx == old(self).cur_idx,
            final(self).cur_ind_buf == old(self).cur_ind_buf,
            final(self).cur_double_ind_buf == old(self).cur_double_ind_buf,
            final(self).cur_triple_ind_buf == old(self).cur_triple_ind_buf,
    {
        if dbl_idx == 0 {
            return BlockFetch::Zeroed;
        }
        let ind_idx = match &self.cur_double_ind_buf {
            None => {
                return BlockFetch::LoadTable { level: TableLevel::Double, block: self.blocks[13], record: true };
            },
            Some(t) => {
                if dbl_idx != self.cur_double_ind_buf_block_idx {
                    return BlockFetch::LoadTable { level: TableLevel::Double, block: dbl_idx, record: true };
                }
                read_u32_le(t.as_slice(), off_dbl)
            },
        };
        self.fetch_ind(off_ind, ind_idx)
    }

    /// The next step of reading the block at the current index, as `spec_fetch` says: a
    /// table to load, the data block, a hole, or the end.
    pub fn get(&mut self) -> (r: BlockFetch)
        requires
            old(self).tables_ok(),
            old(self).cur_idx <= u32::MAX,
            (old(self).block_size / 4) * (old(self).block_size / 4) <= usize::MAX,
        ensures
            r == old(self).spec_fetch().0,
            old(self).spec_fetch().1 matches Some(b) ==> final(self).cur_block_idx == b,
            old(self).spec_fetch().1 is None ==> final(self).cur_block_idx == old(self).cur_block_idx,
            final(self).blocks == old(self).blocks,
            final(self).cur_idx == old(self).cur_idx,
            final(self).cur_ind_buf == old(self).cur_ind_buf,
            final(self).cur_double_ind_buf == old(self).cur_double_ind_buf,
            final(self).cur_triple_ind_buf == old(self).cur_triple_ind_buf,
    {
        let i = self.cur_idx as u32;
        let nb = self.block_size / 4;
        if i < INODE_BLOCK_LIMIT {
            let b = self.blocks[self.cur_idx];
            self.cur_block_idx = b;
            if b == 0 {
                BlockFetch::Zeroed
            } else {
                BlockFetch::Data { block: b }
            }
        } else if i < INODE_IND_BLOCK_LIMIT {
            let ind = self.blocks[12];
            self.fetch_ind((self.cur_idx - 12) * 4, ind)
        } else if i < INODE_DOUBLE_IND_BLOCK_LIMIT {
            let j = self.cur_idx - INODE_IND_BLOCK_LIMIT as usize;
            proof {
                lemma_split_bounds(j as int, nb as int, 65536);
            }
            let dbl = self.blocks[13];
            self.fetch_double((j / nb) * 4, (j % nb) * 4, dbl)
        } else if i < INODE_TRIPLE_IND_BLOCK_LIMIT {
            let j = self.cur_idx - INODE_DOUBLE_IND_BLOCK_LIMIT as usize;
            if self.blocks[14] == 0 {
                return BlockFetch::Zeroed;
            }
            let dbl_idx = match &self.cur_triple_ind_buf {
                None => {
                    return BlockFetch::LoadTable { level: TableLevel::Triple, block: self.blocks[14], record: false };
                },
                Some(t) => {
                    proof {
                        lemma_triple_bounds(j as int, nb as int);
                    }
                    read_u32_le(t.as_slice(), (j / (nb * nb)) * 4)
                },
            };
            proof {
                lemma_triple_bounds(j as int, nb as int);
            }
            self.fetch_double(((j / nb) % nb) * 4, (j % nb) * 4, dbl_idx)
        } else {
            BlockFetch::Terminated
        }
    }
}

/// The blocks allocated to set one block, and the block that is set.
pub struct BlockIterSetRes {
    /// empty when the block already existed, so nothing had to be allocated
    pub allocated_blocks: Vec<AllocatedBlock>,
    /// the address of the block at this index
    pub block_idx: u32,
}

/// What one read of the walk gives: the caller's buffer, whether the walk had ended, and
/// the block read.
pub struct BlockIterElement {
    pub buf: Vec<u8>,
    pub is_terminated: bool,
    /// if the array is not terminated it will contain the block index of the block, else the value
    /// is undefined
    pub block_idx: u32,
}

impl InodeBlockIterator {
    /// The step of setting the pointer at byte `off` of the single table `ind_idx`.
    pub open spec fn spec_set_ind(&self, ind_idx: u32, off: int) -> (BlockSet, Option<PointerSlot>) {
        if self.cur_ind_buf_block_idx != ind_idx || self.cur_ind_buf is None {
            (BlockSet::LoadTable { level: TableLevel::Single, block: ind_idx, record: true }, None)
        } else {
            let num = ptr_at(self.cur_ind_buf->0@, off);
            if num == 0 {
                (BlockSet::Allocate, Some(PointerSlot::TableEntry(TableLevel::Single, off as usize)))
            } else {
                (BlockSet::Done { block: num }, None)
            }
        }
    }

    /// The step of setting through the double table `dbl_idx`.
    pub open spec fn spec_set_double(&self, dbl_idx: u32, off_dbl: int, off_ind: int) -> (BlockSet, Option<PointerSlot>) {
        if self.cur_double_ind_buf_block_idx != dbl_idx || self.cur_double_ind_buf is None {
            (BlockSet::LoadTable { level: TableLevel::Double, block: dbl_idx, record: true }, None)
        } else {
            let num = ptr_at(self.cur_double_ind_buf->0@, off_dbl);
            if num == 0 {
                (BlockSet::Allocate, Some(PointerSlot::TableEntry(TableLevel::Double, off_dbl as usize)))
            } else {
                self.spec_set_ind(num, off_ind)
            }
        }
    }

    /// The step of making sure the inode's pointer `k` to a table exists and the table is
    /// cached, before `then`.
    pub open spec fn spec_set_root(&self, k: int, level: TableLevel, cached: bool, then: (BlockSet, Option<PointerSlot>)) -> (BlockSet, Option<PointerSlot>) {
        if self.blocks@[k] == 0 {
            (BlockSet::Allocate, Some(PointerSlot::TableRoot(k as usize)))
        } else if !cached {
            (BlockSet::LoadTable { level, block: self.blocks@[k], record: true }, None)
        } else {
            then
        }
    }

    /// The next step of setting the block at the current index: a pending write, an
    /// allocation (with the slot the block goes to), a table to load, or the block.
    pub open spec fn spec_set(&self) -> (BlockSet, Option<PointerSlot>) {
        let i = self.cur_idx as int;
        let nb = self.nb();
        if self.pending@.len() > 0 {
            (self.pending@[0], None)
        } else if i < INODE_BLOCK_LIMIT {
            if self.blocks@[i] == 0 {
                (BlockSet::Allocate, Some(PointerSlot::Direct(i as usize)))
            } else {
                (BlockSet::Done { block: self.blocks@[i] }, None)
            }
        } else if i < INODE_IND_BLOCK_LIMIT {
            self.spec_set_root(12, TableLevel::Single, self.cur_ind_buf is Some,
                self.spec_set_ind(self.blocks@[12], (i - INODE_BLOCK_LIMIT) * 4))
        } else if i < INODE_DOUBLE_IND_BLOCK_LIMIT {
            let j = i - INODE_IND_BLOCK_LIMIT;
            self.spec_set_root(13, TableLevel::Double, self.cur_double_ind_buf is Some,
                self.spec_set_double(self.blocks@[13], (j / nb) * 4, (j % nb) * 4))
        } else {
            let j = i - INODE_DOUBLE_IND_BLOCK_LIMIT;
            self.spec_set_root(14, TableLevel::Triple, self.cur_triple_ind_buf is Some, {
                let num = ptr_at(self.cur_triple_ind_buf->0@, (j / (nb * nb)) * 4);
                if num == 0 {
                    (BlockSet::Allocate, Some(PointerSlot::TableEntry(TableLevel::Triple, ((j / (nb * nb)) * 4) as usize)))
                } else {
                    self.spec_set_double(num, ((j / nb) % nb) * 4, (j % nb) * 4)
                }
            })
        }
    }

    /// Whether the iterator's walk state is consistent: the tables are whole blocks, and
    /// a slot awaiting a block lies inside what holds it.
    pub open spec fn set_ok(&self) -> bool {
        &&& self.tables_ok()
        &&& self.cur_idx < INODE_TRIPLE_IND_BLOCK_LIMIT
        &&& (self.block_size / 4) * (self.block_size / 4) <= usize::MAX
        &&& forall|k: int| 0 <= k < self.pending@.len() ==> !(#[trigger] self.pending@[k] is Done)
    }

    fn set_ind(&mut self, ind_idx: u32, off: usize) -> (r: BlockSet)
        requires
            old(self).tables_ok(),
            off + 4 <= old(self).block_size,
        ensures
            r == old(self).spec_set_ind(ind_idx, off as int).0,
            final(self).awaiting == old(self).spec_set_ind(ind_idx, off as int).1,
            r matches BlockSet::Done { block } ==> final(self).cur_block_idx == block,
            !(r is Done) ==> final(self).cur_block_idx == old(self).cur_block_idx,
            final(self).blocks == old(self).blocks,
            final(self).cur_idx == old(self).cur_idx,
            final(self).cur_ind_buf == old(self).cur_ind_buf,
            final(self).cur_double_ind_buf == old(self).cur_double_ind_buf,
            final(self).cur_triple_ind_buf == old(self).cur_triple_ind_buf,
            final(self).cur_ind_buf_block_idx == old(self).cur_ind_buf_block_idx,
            final(self).cur_double_ind_buf_block_idx == old(self).cur_double_ind_buf_block_idx,
            final(self).cur_triple_ind_buf_block_idx == old(self).cur_triple_ind_buf_block_idx,
            final(self).pending == old(self).pending,
            final(self).allocated == old(self).allocated,
            final(self).block_size == old(self).block_size,
            final(self).blocks_limit == old(self).blocks_limit,
            final(self).group_number == old(self).group_number,
    {
        if self.cur_ind_buf_block_idx != ind_idx || self.cur_ind_buf.is_none() {
            self.awaiting = None;
            return BlockSet::LoadTable { level: TableLevel::Single, block: ind_idx, record: true };
        }
        let num = match &self.cur_ind_buf {
            Some(t) => read_u32_le(t.as_slice(), off),
            None => 0,
        };
        if num == 0 {
            self.awaiting = Some(PointerSlot::TableEntry(TableLevel::Single, off));
            BlockSet::Allocate
        } else {
            self.awaiting = None;
            self.cur_block_idx = num;
            BlockSet::Done { block: num }
        }
    }

    fn set_double(&mut self, dbl_idx: u32, off_dbl: usize, off_ind: usize) -> (r: BlockSet)
        requires
            old(self).tables_ok(),
            off_dbl + 4 <= old(self).block_size,
            off_ind + 4 <= old(self).block_size,
        ensures
            r == old(self).spec_set_double(dbl_idx, off_dbl as int, off_ind as int).0,
            final(self).awaiting == old(self).spec_set_double(dbl_idx, off_dbl as int, off_ind as int).1,
            r matches BlockSet::Done { block } ==> final(self).cur_block_idx == block,
            !(r is Done) ==> final(self).cur_block_idx == old(self).cur_block_idx,
            final(self).blocks == old(self).blocks,
            final(self).cur_idx == old(self).cur_idx,
            final(self).cur_ind_buf == old(self).cur_ind_buf,
            final(self).cur_double_ind_buf == old(self).cur_double_ind_buf,
            final(self).cur_triple_ind_buf == old(self).cur_triple_ind_buf,
            final(self).cur_ind_buf_block_idx == old(self).cur_ind_buf_block_idx,
            final(self).cur_double_ind_buf_block_idx == old(self).cur_double_ind_buf_block_idx,
            final(self).cur_triple_ind_buf_block_idx == old(self).cur_triple_ind_buf_block_idx,
            final(self).pending == old(self).pending,
            final(self).allocated == old(self).allocated,
            final(self).block_size == old(self).block_size,
            final(self).blocks_limit == old(self).blocks_limit,
            final(self).group_number == old(self).group_number,
    {
        if self.cur_double_ind_buf_block_idx != dbl_idx || self.cur_double_ind_buf.is_none() {
            self.awaiting = None;
            return BlockSet::LoadTable { level: TableLevel::Double, block: dbl_idx, record: true };
        }
        let num = match &self.cur_double_ind_buf {
            Some(t) => read_u32_le(t.as_slice(), off_dbl),
            None => 0,
        };
        if num == 0 {
            self.awaiting = Some(PointerSlot::TableEntry(TableLevel::Double, off_dbl));
            BlockSet::Allocate
        } else {
            self.set_ind(num, off_ind)
        }
    }

    /// The next step of making the block at the current index exist, as `spec_set` says:
    /// a pending write comes first; a missing pointer asks for a block, which
    /// `provide_block` puts in the slot that `awaiting` names; a table not in its cache is
    /// loaded; at last the block itself.
    pub fn set(&mut self) -> (r: BlockSet)
        requires
            old(self).set_ok(),
        ensures
            r == old(self).spec_set().0,
            old(self).pending@.len() > 0 ==> final(self).pending@ == old(self).pending@.drop_first()
                && final(self).awaiting == old(self).awaiting,
            old(self).pending@.len() == 0 ==> final(self).pending == old(self).pending
                && final(self).awaiting == old(self).spec_set().1,
            r matches BlockSet::Done { block } ==> old(self).pending@.len() == 0 && final(self).cur_block_idx == block,
            !(r is Done) ==> final(self).cur_block_idx == old(self).cur_block_idx,
            final(self).blocks == old(self).blocks,
            final(self).cur_idx == old(self).cur_idx,
            final(self).cur_ind_buf == old(self).cur_ind_buf,
            final(self).cur_double_ind_buf == old(self).cur_double_ind_buf,
            final(self).cur_triple_ind_buf == old(self).cur_triple_ind_buf,
            final(self).cur_ind_buf_block_idx == old(self).cur_ind_buf_block_idx,
            final(self).cur_double_ind_buf_block_idx == old(self).cur_double_ind_buf_block_idx,
            final(self).cur_triple_ind_buf_block_idx == old(self).cur_triple_ind_buf_block_idx,
            final(self).allocated == old(self).allocated,
            final(self).block_size == old(self).block_size,
            final(self).blocks_limit == old(self).blocks_limit,
            final(self).group_number == old(self).group_number,
    {
        if self.pending.len() > 0 {
            let a = self.pending.remove(0);
            return a;
        }
        let i = self.cur_idx;
        let nb = self.block_size / 4;
        if i < INODE_BLOCK_LIMIT as usize {
            if self.blocks[i] == 0 {
                self.awaiting = Some(PointerSlot::Direct(i));
                return BlockSet::Allocate;
            }
            self.awaiting = None;
            self.cur_block_idx = self.blocks[i];
            BlockSet::Done { block: self.blocks[i] }
        } else if i < INODE_IND_BLOCK_LIMIT as usize {
            if self.blocks[12] == 0 {
                self.awaiting = Some(PointerSlot::TableRoot(12));
                return BlockSet::Allocate;
            }
            if self.cur_ind_buf.is_none() {
                self.awaiting = None;
                return BlockSet::LoadTable { level: TableLevel::Single, block: self.blocks[12], record: true };
            }
            let ind = self.blocks[12];
            self.set_ind(ind, (i - 12) * 4)
        } else if i < INODE_DOUBLE_IND_BLOCK_LIMIT as usize {
            if self.blocks[13] == 0 {
                self.awaiting = Some(PointerSlot::TableRoot(13));
                return BlockSet::Allocate;
            }
            if self.cur_double_ind_buf.is_none() {
                self.awaiting = None;
                return BlockSet::LoadTable { level: TableLevel::Double, block: self.blocks[13], record: true };
            }
            let j = i - INODE_IND_BLOCK_LIMIT as usize;
            proof {
                lemma_split_bounds(j as int, nb as int, 65536);
            }
            let dbl = self.blocks[13];
            self.set_double(dbl, (j / nb) * 4, (j % nb) * 4)
        } else {
            if self.blocks[14] == 0 {
                self.awaiting = Some(PointerSlot::TableRoot(14));
                return BlockSet::Allocate;
            }
            let j = i - INODE_DOUBLE_IND_BLOCK_LIMIT as usize;
            proof {
                lemma_triple_bounds(j as int, nb as int);
            }
            let num = match &self.cur_triple_ind_buf {
                None => {
                    self.awaiting = None;
                    return BlockSet::LoadTable { level: TableLevel::Triple, block: self.blocks[14], record: true };
                },
                Some(t) => read_u32_le(t.as_slice(), (j / (nb * nb)) * 4),
            };
            if num == 0 {
                self.awaiting = Some(PointerSlot::TableEntry(TableLevel::Triple, (j / (nb * nb)) * 4));
                return BlockSet::Allocate;
            }
            self.set_double(num, ((j / nb) % nb) * 4, (j % nb) * 4)
        }
    }

    /// Puts the newly allocated block `b` where the walk awaits it: a pointer of the inode
    /// or of a cached table.  A new table is to be zeroed on disk, and a changed table to
    /// be written back, before the walk goes on; the block is counted as allocated.
    pub fn provide_block(&mut self, b: AllocatedBlock)
        requires
            old(self).awaiting is Some,
            old(self).tables_ok(),
            old(self).awaiting matches Some(PointerSlot::Direct(i)) ==> i < 15,
            old(self).awaiting matches Some(PointerSlot::TableRoot(i)) ==> i < 15,
            old(self).awaiting matches Some(PointerSlot::TableEntry(l, off)) ==> off + 4 <= old(self).block_size
                && match l {
                    TableLevel::Single => old(self).cur_ind_buf is Some,
                    TableLevel::Double => old(self).cur_double_ind_buf is Some,
                    TableLevel::Triple => old(self).cur_triple_ind_buf is Some,
                },
        ensures
            final(self).awaiting is None,
            final(self).allocated@ == old(self).allocated@.push(b),
            final(self).tables_ok(),
            final(self).cur_idx == old(self).cur_idx,
            final(self).block_size == old(self).block_size,
            final(self).blocks_limit == old(self).blocks_limit,
            final(self).group_number == old(self).group_number,
            final(self).cur_block_idx == old(self).cur_block_idx,
            final(self).cur_ind_buf_block_idx == old(self).cur_ind_buf_block_idx,
            final(self).cur_double_ind_buf_block_idx == old(self).cur_double_ind_buf_block_idx,
            final(self).cur_triple_ind_buf_block_idx == old(self).cur_triple_ind_buf_block_idx,
            match old(self).awaiting {
                Some(PointerSlot::Direct(i)) => final(self).blocks@ == old(self).blocks@.update(i as int, b.block_global_idx)
                    && final(self).pending == old(self).pending
                    && final(self).cur_ind_buf == old(self).cur_ind_buf
                    && final(self).cur_double_ind_buf == old(self).cur_double_ind_buf
                    && final(self).cur_triple_ind_buf == old(self).cur_triple_ind_buf,
                Some(PointerSlot::TableRoot(i)) => final(self).blocks@ == old(self).blocks@.update(i as int, b.block_global_idx)
                    && final(self).pending@ == old(self).pending@.push(BlockSet::ClearBlock { block: b.block_global_idx })
                    && final(self).cur_ind_buf == old(self).cur_ind_buf
                    && final(self).cur_double_ind_buf == old(self).cur_double_ind_buf
                    && final(self).cur_triple_ind_buf == old(self).cur_triple_ind_buf,
                Some(PointerSlot::TableEntry(TableLevel::Single, off)) => final(self).blocks == old(self).blocks
                    && table_view(final(self).cur_ind_buf) == Some(put_le(old(self).cur_ind_buf->0@, off as int, 4, b.block_global_idx as int))
                    && final(self).pending@ == old(self).pending@.push(BlockSet::WriteTable { level: TableLevel::Single, block: old(self).cur_ind_buf_block_idx })
                    && final(self).cur_double_ind_buf == old(self).cur_double_ind_buf
                    && final(self).cur_triple_ind_buf == old(self).cur_triple_ind_buf,
                Some(PointerSlot::TableEntry(TableLevel::Double, off)) => final(self).blocks == old(self).blocks
                    && table_view(final(self).cur_double_ind_buf) == Some(put_le(old(self).cur_double_ind_buf->0@, off as int, 4, b.block_global_idx as int))
                    && final(self).pending@ == old(self).pending@.push(BlockSet::WriteTable { level: TableLevel::Double, block: old(self).cur_double_ind_buf_block_idx }).push(BlockSet::ClearBlock { block: b.block_global_idx })
                    && final(self).cur_ind_buf == old(self).cur_ind_buf
                    && final(self).cur_triple_ind_buf == old(self).cur_triple_ind_buf,
                Some(PointerSlot::TableEntry(TableLevel::Triple, off)) => final(self).blocks == old(self).blocks
                    && table_view(final(self).cur_triple_ind_buf) == Some(put_le(old(self).cur_triple_ind_buf->0@, off as int, 4, b.block_global_idx as int))
                    && final(self).pending@ == old(self).pending@.push(BlockSet::WriteTable { level: TableLevel::Triple, block: old(self).cur_triple_ind_buf_block_idx }).push(BlockSet::ClearBlock { block: b.block_global_idx })
                    && final(self).cur_ind_buf == old(self).cur_ind_buf
                    && final(self).cur_double_ind_buf == old(self).cur_double_ind_buf,
                None => true,
            },
    {
        let slot = self.awaiting.unwrap();
        self.awaiting = None;
        let g = b.block_global_idx;
        match slot {
            PointerSlot::Direct(i) => {
                self.blocks[i] = g;
            },
            PointerSlot::TableRoot(i) => {
                self.blocks[i] = g;
                self.pending.push(BlockSet::ClearBlock { block: g });
            },
            PointerSlot::TableEntry(level, off) => {
                match level {
                    TableLevel::Single => {
                        let mut t = self.cur_ind_buf.take().unwrap();
                        write_le(&mut t, off, 4, g as u128);
                        self.cur_ind_buf = Some(t);
                        self.pending.push(BlockSet::WriteTable { level: TableLevel::Single, block: self.cur_ind_buf_block_idx });
                    },
                    TableLevel::Double => {
                        let mut t = self.cur_double_ind_buf.take().unwrap();
                        write_le(&mut t, off, 4, g as u128);
                        self.cur_double_ind_buf = Some(t);
                        self.pending.push(BlockSet::WriteTable { level: TableLevel::Double, block: self.cur_double_ind_buf_block_idx });
                        self.pending.push(BlockSet::ClearBlock { block: g });
                    },
                    TableLevel::Triple => {
                        let mut t = self.cur_triple_ind_buf.take().unwrap();
                        write_le(&mut t, off, 4, g as u128);
                        self.cur_triple_ind_buf = Some(t);
                        self.pending.push(BlockSet::WriteTable { level: TableLevel::Triple, block: self.cur_triple_ind_buf_block_idx });
                        self.pending.push(BlockSet::ClearBlock { block: g });
                    },
                }
            },
        }
        self.allocated.push(b);
    }

    /// The bytes of the cached table of `level`, to be written back; empty where none is
    /// cached.
    pub fn table(&self, level: TableLevel) -> (r: Vec<u8>)
        ensures
            level == TableLevel::Single ==> r@ == match table_view(self.cur_ind_buf) { Some(t) => t, None => Seq::empty() },
            level == TableLevel::Double ==> r@ == match table_view(self.cur_double_ind_buf) { Some(t) => t, None => Seq::empty() },
            level == TableLevel::Triple ==> r@ == match table_view(self.cur_triple_ind_buf) { Some(t) => t, None => Seq::empty() },
    {
        let t = match level {
            TableLevel::Single => &self.cur_ind_buf,
            TableLevel::Double => &self.cur_double_ind_buf,
            TableLevel::Triple => &self.cur_triple_ind_buf,
        };
        match t {
            Some(v) => {
                let mut out: Vec<u8> = Vec::new();
                let mut i: usize = 0;
                while i < v.len()
                    invariant
                        i <= v@.len(),
                        out@ == v@.take(i as int),
                    decreases v@.len() - i,
                {
                    out.push(v[i]);
                    assert(out@ =~= v@.take(i + 1));
                    i = i + 1;
                }
                assert(v@.take(v@.len() as int) =~= v@);
                out
            },
            None => Vec::new(),
        }
    }

    /// What setting the current block gave: the blocks allocated on the way, which the
    /// iterator hands over, and the block.
    pub fn take_set_result(&mut self) -> (r: BlockIterSetRes)
        ensures
            r.allocated_blocks@ == old(self).allocated@,
            r.block_idx == old(self).cur_block_idx,
            final(self).allocated@.len() == 0,
            final(self).blocks == old(self).blocks,
            final(self).cur_idx == old(self).cur_idx,
            final(self).cur_block_idx == old(self).cur_block_idx,
            final(self).tables_ok() == old(self).tables_ok(),
            final(self).cur_ind_buf == old(self).cur_ind_buf,
            final(self).cur_double_ind_buf == old(self).cur_double_ind_buf,
            final(self).cur_triple_ind_buf == old(self).cur_triple_ind_buf,
            final(self).pending == old(self).pending,
            final(self).awaiting == old(self).awaiting,
            final(self).block_size == old(self).block_size,
            final(self).blocks_limit == old(self).blocks_limit,
    {
        let mut allocated_blocks: Vec<AllocatedBlock> = Vec::new();
        std::mem::swap(&mut allocated_blocks, &mut self.allocated);
        BlockIterSetRes { allocated_blocks, block_idx: self.cur_block_idx }
    }
}

/// With at least 256 pointers per table, an index below `limit` (at most 256 * 256)
/// lands at byte offsets inside the double and single tables.
proof fn lemma_split_bounds(j: int, nb: int, limit: int)
    requires
        0 <= j < limit,
        limit <= 65536,
        nb >= 256,
    ensures
        (j / nb) * 4 + 4 <= 4 * nb,
        (j % nb) * 4 + 4 <= 4 * nb,
        j / nb >= 0,
        j % nb >= 0,
{
    assert(j / nb < 256) by (nonlinear_arith)
        requires
            0 <= j < 65536,
            nb >= 256,
    ;
    assert(0 <= j % nb < nb) by (nonlinear_arith)
        requires
            nb > 0,
    ;
    assert(j / nb >= 0) by (nonlinear_arith)
        requires
            nb > 0,
            j >= 0,
    ;
}

/// With at least 256 pointers per table, an index of the triple range lands at byte
/// offsets inside all three tables.
proof fn lemma_triple_bounds(j: int, nb: int)
    requires
        0 <= j < 16777216,
        nb >= 256,
    ensures
        (j / (nb * nb)) * 4 + 4 <= 4 * nb,
        ((j / nb) % nb) * 4 + 4 <= 4 * nb,
        (j % nb) * 4 + 4 <= 4 * nb,
        j / (nb * nb) >= 0,
        (j / nb) % nb >= 0,
        j % nb >= 0,
        nb * nb > 0,
{
    assert(nb * nb >= 65536) by (nonlinear_arith)
        requires
            nb >= 256,
    ;
    assert(j / (nb * nb) < 256) by (nonlinear_arith)
        requires
            0 <= j < 16777216,
            nb * nb >= 65536,
    ;
    assert(j / (nb * nb) >= 0) by (nonlinear_arith)
        requires
            nb * nb > 0,
            j >= 0,
    ;
    assert(0 <= j % nb < nb) by (nonlinear_arith)
        requires
            nb > 0,
    ;
    assert(j / nb >= 0) by (nonlinear_arith)
        requires
            nb > 0,
            j >= 0,
    ;
    assert(0 <= (j / nb) % nb < nb) by (nonlinear_arith)
        requires
            nb > 0,
            j / nb >= 0,
    ;
}

/// At a direct index, the block that setting settles on is the block that reading gives.
pub proof fn lemma_set_then_get_direct(it: InodeBlockIterator, block: u32)
    requires
        it.set_ok(),
        it.cur_idx < INODE_BLOCK_LIMIT,
        it.spec_set().0 == (BlockSet::Done { block }),
    ensures
        it.spec_fetch().0 == (BlockFetch::Data { block }),
        it.spec_fetch().1 == Some(block),
{
    if it.pending@.len() > 0 {
        assert(!(it.pending@[0] is Done));
    }
}

/// Setting the block at an index a second time, once the first setting has settled on a
/// block, settles on the same block at once: nothing is allocated, loaded or written.  The
/// second state is the first as `set` leaves it after `Done`: the pointers, the cached
/// tables, the index and the pending writes are kept.
pub proof fn lemma_set_idempotent(it: InodeBlockIterator, again: InodeBlockIterator, block: u32)
    requires
        it.set_ok(),
        it.spec_set().0 == (BlockSet::Done { block }),
        again.blocks == it.blocks,
        again.cur_idx == it.cur_idx,
        again.pending == it.pending,
        again.block_size == it.block_size,
        again.cur_ind_buf == it.cur_ind_buf,
        again.cur_double_ind_buf == it.cur_double_ind_buf,
        again.cur_triple_ind_buf == it.cur_triple_ind_buf,
        again.cur_ind_buf_block_idx == it.cur_ind_buf_block_idx,
        again.cur_double_ind_buf_block_idx == it.cur_double_ind_buf_block_idx,
        again.cur_triple_ind_buf_block_idx == it.cur_triple_ind_buf_block_idx,
    ensures
        again.spec_set().0 == (BlockSet::Done { block }),
{
    if it.pending@.len() > 0 {
        assert(!(it.pending@[0] is Done));
    }
    assert(again.spec_set() == it.spec_set());
}

/// Whether each iterator of `trace` has the block array of the one before, as each of the
/// reading calls (`get`, `advance`, `skip`, `skip_to_end`, `cur_idx`, `load_table`)
/// leaves it by its contract.
pub open spec fn keeps_blocks(trace: Seq<InodeBlockIterator>) -> bool {
    forall|i: int, j: int| #![trigger trace[i], trace[j]] 0 <= i && j == i + 1 && j < trace.len() ==> trace[j].blocks == trace[i].blocks
}

/// Reading never changes the block array: after any run of reading calls the iterator
/// holds the pointers it started with.
pub proof fn lemma_reads_keep_blocks(trace: Seq<InodeBlockIterator>)
    requires
        trace.len() > 0,
        keeps_blocks(trace),
    ensures
        trace.last().blocks == trace[0].blocks,
    decreases trace.len(),
{
    if trace.len() > 1 {
        let init = trace.drop_last();
        assert(keeps_blocks(init)) by {
            assert forall|i: int, j: int| 0 <= i && j == i + 1 && j < init.len() implies #[trigger] init[j].blocks
                == #[trigger] init[i].blocks by {
                assert(init[i] == trace[i] && init[j] == trace[j]);
            }
        }
        lemma_reads_keep_blocks(init);
        let n = trace.len() - 1;
        assert(trace[n].blocks == trace[n - 1].blocks);
        assert(init.last() == trace[n - 1]);
    }
}

/// At a direct index with no write pending, setting settles at once on a block the slot
/// already holds (nothing is allocated), and asks for a block for the slot itself where it
/// is empty; once `provide_block` has put a block `g` there, setting settles on `g`.
pub proof fn lemma_set_direct_slot(it: InodeBlockIterator, after: InodeBlockIterator, g: u32)
    requires
        it.set_ok(),
        it.cur_idx < INODE_BLOCK_LIMIT,
        it.pending@.len() == 0,
        after.cur_idx == it.cur_idx,
        after.pending@.len() == 0,
        after.blocks@ == it.blocks@.update(it.cur_idx as int, g),
        g != 0,
    ensures
        it.blocks@[it.cur_idx as int] != 0 ==> it.spec_set() == (BlockSet::Done { block: it.blocks@[it.cur_idx as int] }, None::<PointerSlot>),
        it.blocks@[it.cur_idx as int] == 0 ==> it.spec_set() == (BlockSet::Allocate, Some(PointerSlot::Direct(it.cur_idx))),
        after.spec_set().0 == (BlockSet::Done { block: g }),
        after.blocks@[after.cur_idx as int] == g,
{
}

/// At an index of the single indirect range, the block that setting settles on is the
/// block that reading gives: both index the table at four bytes per pointer.
pub proof fn lemma_set_then_get_single(it: InodeBlockIterator, block: u32)
    requires
        it.set_ok(),
        INODE_BLOCK_LIMIT <= it.cur_idx < INODE_IND_BLOCK_LIMIT,
        it.spec_set().0 == (BlockSet::Done { block }),
    ensures
        it.spec_fetch().0 == (BlockFetch::Data { block }),
        it.spec_fetch().1 == Some(block),
{
    if it.pending@.len() > 0 {
        assert(!(it.pending@[0] is Done));
    }
}

/// At any index the walk can set, the block that setting settles on is the block that
/// reading gives at the same index: in the direct, single, double and triple indirect
/// ranges alike, both go through the same tables at the same offsets.
pub proof fn lemma_set_then_get(it: InodeBlockIterator, block: u32)
    requires
        it.set_ok(),
        it.spec_set().0 == (BlockSet::Done { block }),
    ensures
        it.spec_fetch().0 == (BlockFetch::Data { block }),
        it.spec_fetch().1 == Some(block),
{
    if it.pending@.len() > 0 {
        assert(!(it.pending@[0] is Done));
    }
    assert((it.cur_idx as u32) as int == it.cur_idx);
}

} // verus!
