//! Where things lie on disk: block groups, their tables and bitmaps, and the
//! conversion between block indices and sector addresses.
use vstd::prelude::*;
use crate::drivers::fs::ext2::records::{GroupDescriptor, GROUP_DESCRIPTOR_SIZE};
use crate::drivers::fs::ext2::BLOCK_GROUP_DESCRIPTOR_SIZE;
use crate::hal::fs::HalFsIOErr;
use crate::hal::storage::SECTOR_SIZE;
use crate::time::{tdiv, trem};

verus! {

/// Sectors kept free for the boot record before the file system's first group.
pub const RESERVED_BOOT_RECORD_OFFSET: i64 = 2;

/// Whether `x` is a value of `i64`.
pub open spec fn fits_i64(x: int) -> bool {
    i64::MIN <= x <= i64::MAX
}

/// A block group (no sparse superblock) with its descriptor.
#[derive(Debug, Clone, Copy)]
pub struct Ext2BlockGroup {
    pub group_number: i64,
    pub block_size: i64,
    pub blocks_per_group: i64,
    pub sectors_per_block: i64,
    pub descriptor: GroupDescriptor,
}

impl Ext2BlockGroup {
    /// The sector at which the group starts: right after the boot record for the first
    /// group, and after the groups before it otherwise.
    pub open spec fn spec_group_lba(&self) -> int {
        if self.group_number == 0 {
            RESERVED_BOOT_RECORD_OFFSET as int
        } else {
            RESERVED_BOOT_RECORD_OFFSET + (self.blocks_per_group - 1) * self.sectors_per_block + 2
                + (self.group_number - 1) * self.blocks_per_group * self.sectors_per_block
        }
    }

    /// Whether computing the group's start stays within `i64` at every step.
    pub open spec fn group_lba_fits(&self) -> bool {
        self.group_number != 0 ==> {
            &&& fits_i64(self.blocks_per_group - 1)
            &&& fits_i64(self.group_number - 1)
            &&& fits_i64((self.blocks_per_group - 1) * self.sectors_per_block)
            &&& fits_i64(RESERVED_BOOT_RECORD_OFFSET + (self.blocks_per_group - 1) * self.sectors_per_block)
            &&& fits_i64(RESERVED_BOOT_RECORD_OFFSET + (self.blocks_per_group - 1) * self.sectors_per_block + 2)
            &&& fits_i64((self.group_number - 1) * self.blocks_per_group)
            &&& fits_i64((self.group_number - 1) * self.blocks_per_group * self.sectors_per_block)
            &&& fits_i64(self.spec_group_lba())
        }
    }

    /// The sector at which the group starts.
    pub fn get_group_lba(&self) -> (r: i64)
        requires
            self.group_lba_fits(),
        ensures
            r == self.spec_group_lba(),
    {
        if self.group_number == 0 {
            RESERVED_BOOT_RECORD_OFFSET
        } else {
            RESERVED_BOOT_RECORD_OFFSET + ((self.blocks_per_group - 1) * self.sectors_per_block) + (
            1024 / SECTOR_SIZE as i64) + (self.group_number - 1) * self.blocks_per_group
                * self.sectors_per_block
        }
    }

    /// The sector of the group's superblock copy, which starts the group.
    pub fn get_superblock_lba(&self) -> (r: Option<i64>)
        requires
            self.group_lba_fits(),
        ensures
            r == Some(self.spec_group_lba() as i64),
    {
        Some(self.get_group_lba())
    }

    /// The sector of the group's descriptor table: after the superblock's kilobyte in the
    /// first group, after one block in any other.
    pub fn get_blockgroup_desc_table_lba(&self) -> (r: Option<i64>)
        requires
            self.group_lba_fits(),
            self.group_number == 0 ==> fits_i64(self.spec_group_lba() + 2),
            self.group_number != 0 ==> fits_i64(self.spec_group_lba() + self.sectors_per_block),
        ensures
            self.group_number == 0 ==> r == Some((self.spec_group_lba() + 2) as i64),
            self.group_number != 0 ==> r == Some((self.spec_group_lba() + self.sectors_per_block) as i64),
    {
        if self.group_number == 0 {
            Some(self.get_group_lba() + 1024 / SECTOR_SIZE as i64)
        } else {
            Some(self.get_group_lba() + self.sectors_per_block)
        }
    }

    /// The sector at which block `block_idx` starts.
    pub open spec fn spec_block_lba(&self, block_idx: u32) -> int {
        tdiv(block_idx * self.block_size, SECTOR_SIZE as int)
    }

    /// The sector at which block `block_idx` starts.
    pub fn block_idx_to_lba(&self, block_idx: u32) -> (r: i64)
        requires
            fits_i64(block_idx * self.block_size),
        ensures
            r == self.spec_block_lba(block_idx),
    {
        block_idx as i64 * self.block_size / SECTOR_SIZE as i64
    }

    /// The block index that this implementation derives from a sector: the sector divided
    /// by the block size, taken modulo 2^32, times the sector size.
    pub fn lba_to_block_idx(&self, lba: i64) -> (r: u32)
        requires
            self.block_size > 0,
            (tdiv(lba as int, self.block_size as int) as u32) * SECTOR_SIZE <= u32::MAX,
        ensures
            r == (tdiv(lba as int, self.block_size as int) as u32) * SECTOR_SIZE,
    {
        let q = lba / self.block_size;
        assert(q == tdiv(lba as int, self.block_size as int));
        q as u32 * SECTOR_SIZE as u32
    }

    /// The sector of the group's block bitmap.
    pub fn get_block_bitmap_lba(&self) -> (r: i64)
        requires
            fits_i64(self.descriptor.bg_block_bitmap * self.block_size),
        ensures
            r == self.spec_block_lba(self.descriptor.bg_block_bitmap),
    {
        self.block_idx_to_lba(self.descriptor.bg_block_bitmap)
    }

    /// The sector of the group's inode bitmap.
    pub fn get_inode_bitmap_lba(&self) -> (r: i64)
        requires
            fits_i64(self.descriptor.bg_inode_bitmap * self.block_size),
        ensures
            r == self.spec_block_lba(self.descriptor.bg_inode_bitmap),
    {
        self.block_idx_to_lba(self.descriptor.bg_inode_bitmap)
    }

    /// The sector of the group's inode table.
    pub fn get_inode_table_lba(&self) -> (r: i64)
        requires
            fits_i64(self.descriptor.bg_inode_table * self.block_size),
        ensures
            r == self.spec_block_lba(self.descriptor.bg_inode_table),
    {
        self.block_idx_to_lba(self.descriptor.bg_inode_table)
    }

    /// The sector at which the group's data blocks are counted from: the group's start.
    pub fn get_data_blocks_start_lba(&self) -> (r: i64)
        requires
            self.group_lba_fits(),
        ensures
            r == self.spec_group_lba(),
    {
        self.get_group_lba()
    }
}

/// The number of sectors that a group of `blocks_per_group` blocks of `block_size` bytes
/// spans.
pub fn block_group_size(blocks_per_group: i64, block_size: i64) -> (r: i64)
    requires
        fits_i64(blocks_per_group * tdiv(block_size as int, SECTOR_SIZE as int)),
    ensures
        r == blocks_per_group * tdiv(block_size as int, SECTOR_SIZE as int),
{
    blocks_per_group * (block_size / SECTOR_SIZE as i64)
}

/// The drive and partition that blocks are read from, and the block size.
#[derive(Debug, Clone, Copy)]
pub struct IoHandler {
    pub drive_id: usize,
    pub start_lba: i64,
    pub block_size: u32,
}

impl IoHandler {
    /// The sector, relative to the partition, at which block `block_idx` starts.
    pub open spec fn spec_block_lba(&self, block_idx: u32) -> int {
        (block_idx * self.block_size) / (SECTOR_SIZE as int)
    }

    /// The sector, relative to the partition, at which block `block_idx` starts.
    pub fn block_idx_to_lba(&self, block_idx: u32) -> (r: i64)
        requires
            block_idx * self.block_size <= i64::MAX,
        ensures
            r == self.spec_block_lba(block_idx),
    {
        block_idx as i64 * self.block_size as i64 / SECTOR_SIZE as i64
    }

    /// The block index that this implementation derives from a sector: the sector divided
    /// by the block size, taken modulo 2^32, times the sector size.
    pub fn lba_to_block_idx(&self, lba: i64) -> (r: u32)
        requires
            self.block_size != 0,
            (tdiv(lba as int, self.block_size as int) as u32) * SECTOR_SIZE <= u32::MAX,
        ensures
            r == (tdiv(lba as int, self.block_size as int) as u32) * SECTOR_SIZE,
    {
        let q = lba / self.block_size as i64;
        assert(q == tdiv(lba as int, self.block_size as int));
        q as u32 * SECTOR_SIZE as u32
    }

    /// The absolute sector of block `block_idx`: the partition's start plus the block's
    /// relative sector, counted once more as the block reads and writes of the file system
    /// do.
    pub fn block_io_lba(&self, block_idx: u32) -> (r: i64)
        requires
            block_idx * self.block_size <= i64::MAX,
            fits_i64(self.start_lba + self.spec_block_lba(block_idx)),
        ensures
            r == self.start_lba + self.spec_block_lba(block_idx),
    {
        self.start_lba + self.block_idx_to_lba(block_idx)
    }

    /// The absolute sector of the partition-relative sector `lba`.
    pub fn absolute_lba(&self, lba: i64) -> (r: i64)
        requires
            fits_i64(self.start_lba + lba),
        ensures
            r == self.start_lba + lba,
    {
        self.start_lba + lba
    }
}

/// What the file system needs to find block groups and their descriptors.
#[derive(Debug, Clone, Copy)]
pub struct GroupManager {
    pub io_handler: IoHandler,
    pub blocks_per_group: u32,
    pub first_data_block: u32,
    pub block_size: u32,
}

impl GroupManager {
    /// The sector that holds the descriptor of group `gr_number`, and the byte offset of the
    /// descriptor inside it.
    pub open spec fn spec_descriptor_location(&self, gr_number: i64) -> (int, int) {
        let lba = self.io_handler.spec_block_lba((self.first_data_block + 1) as u32);
        (lba + tdiv(gr_number * BLOCK_GROUP_DESCRIPTOR_SIZE, SECTOR_SIZE as int), trem(
            gr_number * BLOCK_GROUP_DESCRIPTOR_SIZE,
            SECTOR_SIZE as int,
        ))
    }

    /// The sector that holds the descriptor of group `gr_number`, and the byte offset of the
    /// descriptor inside it; the descriptor table starts at the block after the first data
    /// block.
    pub fn descriptor_location(&self, gr_number: i64) -> (r: (i64, i64))
        requires
            self.first_data_block < u32::MAX,
            (self.first_data_block + 1) * self.io_handler.block_size <= i64::MAX,
            fits_i64(gr_number * BLOCK_GROUP_DESCRIPTOR_SIZE),
            fits_i64(self.spec_descriptor_location(gr_number).0),
        ensures
            r.0 == self.spec_descriptor_location(gr_number).0,
            r.1 == self.spec_descriptor_location(gr_number).1,
    {
        let bg_table_block_idx = self.first_data_block + 1;
        let lba = self.io_handler.block_idx_to_lba(bg_table_block_idx);
        let lba_offset = (gr_number * BLOCK_GROUP_DESCRIPTOR_SIZE as i64) / SECTOR_SIZE as i64;
        let byte_offset = (gr_number * BLOCK_GROUP_DESCRIPTOR_SIZE as i64) % SECTOR_SIZE as i64;
        proof {
            assert(lba_offset == tdiv(gr_number * BLOCK_GROUP_DESCRIPTOR_SIZE, SECTOR_SIZE as int));
        }
        (lba + lba_offset, byte_offset)
    }

    /// The group that the block at sector `lba` belongs to.
    pub fn group_number_of_lba(&self, lba: i64) -> (r: u32)
        requires
            self.io_handler.block_size != 0,
            self.blocks_per_group != 0,
            (tdiv(lba as int, self.io_handler.block_size as int) as u32) * SECTOR_SIZE <= u32::MAX,
        ensures
            r == ((tdiv(lba as int, self.io_handler.block_size as int) as u32) * SECTOR_SIZE) as u32
                / self.blocks_per_group,
    {
        self.io_handler.lba_to_block_idx(lba) / self.blocks_per_group
    }

    /// The group that block `idx` belongs to.
    pub fn group_number_of_block(&self, idx: u32) -> (r: u32)
        requires
            self.blocks_per_group != 0,
        ensures
            r == idx / self.blocks_per_group,
    {
        idx / self.blocks_per_group
    }

    /// The group `gr_number` with the descriptor found in `buf`, which holds the sector of
    /// the descriptor table that `descriptor_location` names.
    pub fn get_group_from_buffer(&self, gr_number: i64, buf: &[u8]) -> (r: Result<
        Ext2BlockGroup,
        HalFsIOErr,
    >)
        requires
            0 <= gr_number,
            gr_number * BLOCK_GROUP_DESCRIPTOR_SIZE <= i64::MAX,
            (gr_number * BLOCK_GROUP_DESCRIPTOR_SIZE) % (SECTOR_SIZE as int) + GROUP_DESCRIPTOR_SIZE
                <= buf@.len(),
        ensures
            r matches Ok(g) && {
                let off = (gr_number * BLOCK_GROUP_DESCRIPTOR_SIZE) % (SECTOR_SIZE as int);
                &&& g.descriptor.spec_bytes() == buf@.subrange(off, off + GROUP_DESCRIPTOR_SIZE)
                &&& g.group_number == gr_number
                &&& g.block_size == self.block_size
                &&& g.blocks_per_group == self.blocks_per_group
                &&& g.sectors_per_block == self.block_size as int / (SECTOR_SIZE as int)
            },
    {
        let byte_offset = (gr_number * BLOCK_GROUP_DESCRIPTOR_SIZE as i64) % SECTOR_SIZE as i64;
        let off = byte_offset as usize;
        let rest = vstd::slice::slice_subrange(buf, off, buf.len());
        let descriptor = match GroupDescriptor::deserialize(rest) {
            Ok((d, _)) => d,
            Err(e) => {
                return Err(HalFsIOErr::DeserializationErr(e));
            },
        };
        proof {
            assert(rest@.subrange(0, GROUP_DESCRIPTOR_SIZE as int) =~= buf@.subrange(
                off as int,
                off + GROUP_DESCRIPTOR_SIZE,
            ));
        }
        Ok(
            Ext2BlockGroup {
                group_number: gr_number,
                block_size: self.block_size as i64,
                blocks_per_group: self.blocks_per_group as i64,
                sectors_per_block: self.block_size as i64 / SECTOR_SIZE as i64,
                descriptor,
            },
        )
    }
}

/// Hands out block-sized buffers.
#[derive(Debug, Clone, Copy)]
pub struct BufferManager {
    pub block_size: usize,
}

impl BufferManager {
    /// A zeroed buffer of one block.
    pub fn get_buffer(&self) -> (b: Vec<u8>)
        ensures
            b@ == Seq::new(self.block_size as nat, |i: int| 0u8),
    {
        let mut b: Vec<u8> = Vec::new();
        let mut i: usize = 0;
        while i < self.block_size
            invariant
                i <= self.block_size,
                b@ == Seq::new(i as nat, |j: int| 0u8),
            decreases self.block_size - i,
        {
            b.push(0);
            i = i + 1;
            assert(b@ =~= Seq::new(i as nat, |j: int| 0u8));
        }
        b
    }
}

} // verus!
