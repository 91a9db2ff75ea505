//! Finding where one block of a file lies from its index: an inode's own pointer, or a
//! chain of pointer tables read one after another.  The caller reads each table that a
//! step names and hands it back.
use vstd::prelude::*;
use crate::drivers::fs::ext2::block_iterator::{
    ADDR_PER_BLOCK, INODE_BLOCK_LIMIT, INODE_DOUBLE_IND_BLOCK_LIMIT, INODE_IND_BLOCK_LIMIT,
    INODE_TRIPLE_IND_BLOCK_LIMIT,
};
use crate::drivers::fs::ext2::fs::Ext2Fs;
use crate::drivers::fs::ext2::Inode;
use crate::hal::fs::HalFsIOErr;
use crate::serialize::DvDeErr;
use crate::utils::bytes::{le32, read_u32_le};

verus! {

/// How the block of a file index is found.
#[derive(Debug, Clone)]
pub enum BlockLookup {
    /// The inode's pointer is the answer as it stands.
    Direct(u32),
    /// Read the sector `first`, then follow `slots`: each slot but the last names the
    /// pointer of the table just read whose value is the next sector to read; the last one
    /// names the pointer to the block.
    Tables { first: u32, slots: Vec<u32> },
}

/// The slots followed for index `idx`, table after table: one past the direct pointers,
/// two past the single indirect table, three past the double one.
pub open spec fn lookup_slots(idx: u32) -> Seq<u32> {
    if idx < INODE_IND_BLOCK_LIMIT {
        seq![(idx - INODE_BLOCK_LIMIT) as u32]
    } else if idx < INODE_DOUBLE_IND_BLOCK_LIMIT {
        let j = idx - INODE_IND_BLOCK_LIMIT;
        seq![(j / 256) as u32, (j % 256) as u32]
    } else {
        let j = idx - INODE_DOUBLE_IND_BLOCK_LIMIT;
        seq![(j / 65536) as u32, ((j % 65536) / 256) as u32, ((j % 65536) % 256) as u32]
    }
}

/// The inode pointer at which the chain for index `idx` starts: the single indirect one,
/// then the triple indirect one for the second range and the double indirect one for the
/// third, as the lookup takes them.
pub open spec fn lookup_first(blocks: Seq<u32>, idx: u32) -> u32 {
    if idx < INODE_IND_BLOCK_LIMIT {
        blocks[12]
    } else if idx < INODE_DOUBLE_IND_BLOCK_LIMIT {
        blocks[14]
    } else {
        blocks[13]
    }
}

/// Where the block of index `idx` of `inode` lies: its own pointer below twelve, else the
/// chain of tables; an index past the triple indirect range is too large.
pub fn plan_block_lookup(inode: &Inode, idx: u32) -> (r: Result<BlockLookup, HalFsIOErr>)
    ensures
        idx < INODE_BLOCK_LIMIT ==> (r matches Ok(BlockLookup::Direct(b)) && b == inode.i_block@[idx as int]),
        INODE_BLOCK_LIMIT <= idx < INODE_TRIPLE_IND_BLOCK_LIMIT ==> (r matches Ok(BlockLookup::Tables { first, slots })
            && first == lookup_first(inode.i_block@, idx) && slots@ == lookup_slots(idx)),
        idx >= INODE_TRIPLE_IND_BLOCK_LIMIT ==> r matches Err(HalFsIOErr::FileTooLarge),
{
    if idx < INODE_BLOCK_LIMIT {
        return Ok(BlockLookup::Direct(inode.i_block[idx as usize]));
    }
    let mut slots: Vec<u32> = Vec::new();
    if idx < INODE_IND_BLOCK_LIMIT {
        slots.push(idx - INODE_BLOCK_LIMIT);
        assert(slots@ =~= lookup_slots(idx));
        return Ok(BlockLookup::Tables { first: inode.i_block[12], slots });
    }
    if idx < INODE_DOUBLE_IND_BLOCK_LIMIT {
        let j = idx - INODE_IND_BLOCK_LIMIT;
        slots.push(j / ADDR_PER_BLOCK);
        slots.push(j % ADDR_PER_BLOCK);
        assert(slots@ =~= lookup_slots(idx));
        return Ok(BlockLookup::Tables { first: inode.i_block[14], slots });
    }
    if idx < INODE_TRIPLE_IND_BLOCK_LIMIT {
        let j = idx - INODE_DOUBLE_IND_BLOCK_LIMIT;
        slots.push(j / ADDR_PER_BLOCK / ADDR_PER_BLOCK);
        slots.push((j % (ADDR_PER_BLOCK * ADDR_PER_BLOCK)) / ADDR_PER_BLOCK);
        slots.push((j % (ADDR_PER_BLOCK * ADDR_PER_BLOCK)) % ADDR_PER_BLOCK);
        assert(j / 256 / 256 == j / 65536) by (nonlinear_arith)
            requires
                j >= 0,
        ;
        assert(slots@ =~= lookup_slots(idx));
        return Ok(BlockLookup::Tables { first: inode.i_block[13], slots });
    }
    Err(HalFsIOErr::FileTooLarge)
}

/// The sector of the next table: the little-endian pointer at `slot` of the table just
/// read; a table too short to hold it cannot be parsed.
pub fn next_table_lba(table: &[u8], slot: u32) -> (r: Result<i64, HalFsIOErr>)
    ensures
        slot * 4 + 4 <= table@.len() ==> r == Ok::<i64, HalFsIOErr>(le32(table@, slot * 4) as i64),
        slot * 4 + 4 > table@.len() ==> r matches Err(HalFsIOErr::DeserializationErr(DvDeErr::WrongBufferSize)),
{
    let end = slot as u64 * 4 + 4;
    if end > table.len() as u64 {
        return Err(HalFsIOErr::DeserializationErr(DvDeErr::WrongBufferSize));
    }
    let off = slot as usize * 4;
    Ok(read_u32_le(table, off) as i64)
}

impl Ext2Fs {
    /// The sector of the block that the pointer at the last `slot` of the table names, the
    /// pointer read from the rest of the table after it, which must be just that pointer;
    /// the sector taken as a `u32`.
    pub fn block_of_pointer(&self, table: &[u8], slot: u32) -> (r: u32)
        requires
            table.len() == slot * 4 + 4,
            le32(table@, slot * 4) * self.io_handler.block_size <= i64::MAX,
        ensures
            r == self.io_handler.spec_block_lba(le32(table@, slot * 4) as u32) as u32,
    {
        let off = slot as usize * 4;
        let v = read_u32_le(table, off);
        self.block_idx_to_lba(v) as u32
    }
}

} // verus!
