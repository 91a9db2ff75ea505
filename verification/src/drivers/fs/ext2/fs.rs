//! A mounted ext2 file system as plain values: its partition, superblock and the helpers
//! built from them, and the computations that its operations make between disk accesses.
use vstd::prelude::*;
use crate::drivers::fs::ext2::allocator::BlockAllocator;
use crate::drivers::fs::ext2::layout::{
    block_group_size, fits_i64, BufferManager, Ext2BlockGroup, GroupManager, IoHandler,
};
use crate::drivers::fs::ext2::records::{SuperBlock, SUPER_BLOCK_SIZE};
use crate::drivers::fs::ext2::{Inode, EXT2_SUPER_MAGIC, INODE_SIZE};
use crate::hal::fs::{HalFsIOErr, OpenFlags};
use crate::drivers::fs::ext2::block_iterator::InodeBlockIterator;
use crate::drivers::fs::ext2::bitmap::{bit_set, first_clear_bit};
use crate::drivers::fs::ext2::allocator::AllocatedBlock;
use crate::hal::gpt::GPTEntry;
use crate::hal::storage::SECTOR_SIZE;
use crate::time::tdiv;

verus! {

/// An inode with where it lies: its number on the file system (counted from 1), its
/// group, and its index inside the group (counted from 0).
#[derive(Debug, Clone, Copy)]
pub struct InodePlus {
    pub inode: Inode,
    /// globally inode indicies start with 1
    pub absolute_idx: u32,
    pub group_number: u32,
    /// relatively this implementaiton will trait it to start with 0
    pub relative_idx: u32,
}

impl Default for InodePlus {
    /// A zeroed inode at index zero.
    fn default() -> (r: Self)
        ensures
            r.inode.is_zeroed(),
            r.absolute_idx == 0 && r.group_number == 0 && r.relative_idx == 0,
    {
        InodePlus { inode: Inode::default(), absolute_idx: 0, group_number: 0, relative_idx: 0 }
    }
}

/// A mounted ext2 file system.
#[derive(Debug, Clone)]
pub struct Ext2Fs {
    pub drive_id: usize,
    pub entry: GPTEntry,
    pub io_handler: IoHandler,
    pub block_allocator: BlockAllocator,
    pub group_manager: GroupManager,
    pub buffer_manager: BufferManager,
    pub super_block: SuperBlock,
}

/// Whether a partition is too small to hold an ext2 file system: it spans fewer than three
/// sectors past its first (or ends before it starts).  Such a partition is refused before
/// anything is read from it.
pub open spec fn partition_too_small(entry: GPTEntry) -> bool {
    entry.end_lba < entry.start_lba + 3
}

/// The sector of a partition that holds its superblock, 1024 bytes in; `None`, with
/// nothing to read, where the partition is too small.
pub fn superblock_lba(entry: &GPTEntry) -> (r: Option<u64>)
    requires
        entry.start_lba + 2 <= u64::MAX,
    ensures
        r == if partition_too_small(*entry) {
            None::<u64>
        } else {
            Some((entry.start_lba + 2) as u64)
        },
{
    if entry.end_lba < entry.start_lba || entry.end_lba - entry.start_lba < 3 {
        return None;
    }
    Some(entry.start_lba + 2)
}

/// The superblock in `buf`, the two sectors read at the partition's superblock sector, if
/// it parses and carries the ext2 magic number.
pub fn identify_ext2(buf: &[u8]) -> (r: Option<SuperBlock>)
    ensures
        r is Some <==> (buf@.len() >= SUPER_BLOCK_SIZE && crate::utils::bytes::le16(buf@, 56) == EXT2_SUPER_MAGIC),
        r matches Some(sb) ==> sb.spec_bytes() == buf@.subrange(0, SUPER_BLOCK_SIZE as int),
{
    let sb = match SuperBlock::deserialize(buf) {
        Ok((sb, _)) => sb,
        Err(_) => {
            return None;
        },
    };
    proof {
        lemma_superblock_magic(sb, buf@);
    }
    if sb.s_magic == EXT2_SUPER_MAGIC {
        Some(sb)
    } else {
        None
    }
}

/// The magic number of a superblock parsed from `s` is the two bytes at offset 56.
proof fn lemma_superblock_magic(sb: SuperBlock, s: Seq<u8>)
    requires
        s.len() >= SUPER_BLOCK_SIZE,
        sb.spec_bytes() == s.subrange(0, SUPER_BLOCK_SIZE as int),
    ensures
        sb.s_magic == crate::utils::bytes::le16(s, 56),
{
    let b = sb.spec_bytes();
    crate::utils::bytes::lemma_pow256();
    assert(b.subrange(56, 58) =~= crate::utils::bytes::le_bytes(sb.s_magic as int, 2));
    assert(s.subrange(56, 58) =~= b.subrange(56, 58));
    crate::utils::bytes::lemma_le_bytes_decode(s, 56, 2, sb.s_magic as int);
    crate::utils::bytes::lemma_le_fixed(s, 56);
}

impl Ext2Fs {
    /// The file system on `entry` of drive `drive_id` whose superblock is `super_block`,
    /// with its helpers set up from the superblock's block size and group geometry.
    pub fn new(drive_id: usize, entry: GPTEntry, super_block: SuperBlock) -> (fs: Self)
        requires
            super_block.s_log_block_size <= 21,
            super_block.s_blocks_per_group > 0,
            super_block.s_blocks_count + super_block.s_blocks_per_group <= u32::MAX,
        ensures
            fs.drive_id == drive_id,
            fs.entry == entry,
            fs.super_block == super_block,
            fs.io_handler == (IoHandler {
                drive_id,
                start_lba: entry.start_lba as i64,
                block_size: (1024u32 << super_block.s_log_block_size),
            }),
            fs.group_manager == (GroupManager {
                block_size: (1024u32 << super_block.s_log_block_size),
                blocks_per_group: super_block.s_blocks_per_group,
                first_data_block: super_block.s_first_data_block,
                io_handler: fs.io_handler,
            }),
            fs.buffer_manager == (BufferManager {
                block_size: (1024u32 << super_block.s_log_block_size) as usize,
            }),
            fs.block_allocator.block_groups_count == (super_block.s_blocks_count
                + super_block.s_blocks_per_group - 1) / (super_block.s_blocks_per_group as int),
            fs.block_allocator.group_manager == fs.group_manager,
            fs.block_allocator.io_handler == fs.io_handler,
            fs.block_allocator.buffer_manager == fs.buffer_manager,
            fs.block_allocator.allocated_block_indices@.len() == 0,
            fs.block_allocator.unwritten_freed_blocks@.len() == 0,
    {
        let block_size = super_block.block_size();
        let io_handler = IoHandler { drive_id, start_lba: entry.start_lba as i64, block_size };
        let group_manager = GroupManager {
            block_size,
            blocks_per_group: super_block.s_blocks_per_group,
            first_data_block: super_block.s_first_data_block,
            io_handler,
        };
        let buffer_manager = BufferManager { block_size: block_size as usize };
        let block_allocator = BlockAllocator::new(
            super_block.block_groups_count() as i64,
            group_manager,
            io_handler,
            buffer_manager,
        );
        Ext2Fs {
            drive_id,
            io_handler,
            group_manager,
            block_allocator,
            buffer_manager,
            entry,
            super_block,
        }
    }

    /// The partition's length in sectors: its end minus its start, or `i64::MAX` where
    /// that does not fit.
    pub fn len(&self) -> (r: i64)
        requires
            self.entry.end_lba >= self.entry.start_lba,
        ensures
            r == if self.entry.end_lba - self.entry.start_lba <= i64::MAX {
                self.entry.end_lba - self.entry.start_lba
            } else {
                i64::MAX as int
            },
    {
        let d = self.entry.end_lba - self.entry.start_lba;
        if d <= i64::MAX as u64 {
            d as i64
        } else {
            i64::MAX
        }
    }

    /// The block size in bytes, from the superblock.
    pub open spec fn spec_block_size(&self) -> u32 {
        (1024u32 << self.super_block.s_log_block_size)
    }

    /// The number of sectors that one block group spans.
    pub fn block_group_size(&self) -> (r: i64)
        requires
            self.super_block.s_log_block_size < 32,
            self.super_block.s_blocks_per_group * tdiv(self.spec_block_size() as int, SECTOR_SIZE as int) <= i64::MAX,
        ensures
            r == self.super_block.s_blocks_per_group * tdiv(self.spec_block_size() as int, SECTOR_SIZE as int),
    {
        block_group_size(self.super_block.s_blocks_per_group as i64, self.super_block.block_size() as i64)
    }

    /// The partition-relative sector of the block group descriptor table: the block after
    /// the first data block.
    pub fn get_block_group_table_lba(&self) -> (r: i64)
        requires
            self.super_block.s_first_data_block < u32::MAX,
            (self.super_block.s_first_data_block + 1) * self.io_handler.block_size <= i64::MAX,
        ensures
            r == self.io_handler.spec_block_lba((self.super_block.s_first_data_block + 1) as u32),
    {
        let bg_table_block_idx = self.super_block.s_first_data_block + 1;
        self.block_idx_to_lba(bg_table_block_idx)
    }

    /// The partition-relative sector at which block `block_idx` starts.
    pub fn block_idx_to_lba(&self, block_idx: u32) -> (r: i64)
        requires
            block_idx * self.io_handler.block_size <= i64::MAX,
        ensures
            r == self.io_handler.spec_block_lba(block_idx),
    {
        self.io_handler.block_idx_to_lba(block_idx)
    }

    /// The block index that the I/O helper derives from sector `lba`.
    pub fn lba_to_block_idx(&self, lba: i64) -> (r: u32)
        requires
            self.io_handler.block_size != 0,
            (tdiv(lba as int, self.io_handler.block_size as int) as u32) * SECTOR_SIZE <= u32::MAX,
        ensures
            r == (tdiv(lba as int, self.io_handler.block_size as int) as u32) * SECTOR_SIZE,
    {
        self.io_handler.lba_to_block_idx(lba)
    }

    /// A zeroed buffer of one block.
    pub fn get_buffer(&self) -> (b: Vec<u8>)
        ensures
            b@ == Seq::new(self.buffer_manager.block_size as nat, |i: int| 0u8),
    {
        self.buffer_manager.get_buffer()
    }

    /// The group `gr_number` with the descriptor found in `buf`.
    pub fn get_group_from_buffer(&self, gr_number: i64, buf: &[u8]) -> (r: Result<Ext2BlockGroup, HalFsIOErr>)
        requires
            0 <= gr_number,
            gr_number * crate::drivers::fs::ext2::BLOCK_GROUP_DESCRIPTOR_SIZE <= i64::MAX,
            (gr_number * crate::drivers::fs::ext2::BLOCK_GROUP_DESCRIPTOR_SIZE) % (SECTOR_SIZE as int)
                + crate::drivers::fs::ext2::records::GROUP_DESCRIPTOR_SIZE <= buf@.len(),
        ensures
            r matches Ok(g) && {
                let off = (gr_number * crate::drivers::fs::ext2::BLOCK_GROUP_DESCRIPTOR_SIZE) % (SECTOR_SIZE as int);
                &&& g.descriptor.spec_bytes() == buf@.subrange(off, off + crate::drivers::fs::ext2::records::GROUP_DESCRIPTOR_SIZE)
                &&& g.group_number == gr_number
                &&& g.block_size == self.group_manager.block_size
                &&& g.blocks_per_group == self.group_manager.blocks_per_group
                &&& g.sectors_per_block == self.group_manager.block_size as int / (SECTOR_SIZE as int)
            },
    {
        self.group_manager.get_group_from_buffer(gr_number, buf)
    }

    /// The number of blocks an inode holds: its count of sectors, times the sector size,
    /// over the block size.
    pub fn inode_block_count(&self, inode: &Inode) -> (r: u32)
        requires
            self.super_block.s_log_block_size < 32,
            self.spec_block_size() != 0,
            inode.i_blocks * SECTOR_SIZE <= u32::MAX,
        ensures
            r == (inode.i_blocks * SECTOR_SIZE) / (self.spec_block_size() as int),
    {
        inode.i_blocks * (SECTOR_SIZE as u32) / self.super_block.block_size()
    }

    /// Where inode number `idx` (counted from 1) lies: its group and its index there.
    pub fn global_idx_to_inode_plus(&self, inode: Inode, idx: u32) -> (r: InodePlus)
        requires
            idx >= 1,
            self.super_block.s_inodes_per_group > 0,
        ensures
            r.inode == inode,
            r.absolute_idx == idx,
            r.group_number == (idx - 1) / (self.super_block.s_inodes_per_group as int),
            r.relative_idx == (idx - 1) % (self.super_block.s_inodes_per_group as int),
    {
        InodePlus {
            inode,
            relative_idx: (idx - 1) % self.super_block.s_inodes_per_group,
            group_number: (idx - 1) / self.super_block.s_inodes_per_group,
            absolute_idx: idx,
        }
    }

    /// The inode at index `idx` of group `group_number`, with its number on the file
    /// system.
    pub fn relative_idx_to_inode_plus(&self, inode: Inode, group_number: u32, idx: u32) -> (r: InodePlus)
        requires
            group_number * self.super_block.s_inodes_per_group + idx + 1 <= u32::MAX,
        ensures
            r.inode == inode,
            r.relative_idx == idx,
            r.group_number == group_number,
            r.absolute_idx == group_number * self.super_block.s_inodes_per_group + idx + 1,
    {
        InodePlus {
            inode,
            relative_idx: idx,
            group_number: group_number,
            absolute_idx: group_number * self.super_block.s_inodes_per_group + idx + 1,
        }
    }

    /// The group and the index inside it of inode number `idx` (counted from 1).
    pub fn inode_position(&self, idx: u32) -> (r: (u32, u32))
        requires
            idx >= 1,
            self.super_block.s_inodes_per_group > 0,
        ensures
            r.0 == (idx - 1) / (self.super_block.s_inodes_per_group as int),
            r.1 == (idx - 1) % (self.super_block.s_inodes_per_group as int),
    {
        ((idx - 1) / self.super_block.s_inodes_per_group, (idx - 1) % self.super_block.s_inodes_per_group)
    }

    /// Where the inode at index `idx` of its group lies inside the group's inode table: the
    /// sector, counted from the table's start, and the byte offset inside that sector.
    pub fn inode_location(&self, idx: u32) -> (r: (i64, i64))
        ensures
            r.0 == (idx * INODE_SIZE) / (SECTOR_SIZE as int),
            r.1 == (idx * INODE_SIZE) % (SECTOR_SIZE as int),
    {
        let sector_offset = (idx as i64 * INODE_SIZE) / SECTOR_SIZE as i64;
        let byte_offset = (idx as i64 * INODE_SIZE) % SECTOR_SIZE as i64;
        (sector_offset, byte_offset)
    }
}

/// What opening a path does once the path has been walked.
#[derive(Debug, Clone, Copy, PartialEq, Eq, Structural)]
pub enum OpenDecision {
    /// Open the file that exists.
    UseExisting,
    /// Create the file with these permissions, then open it.
    Create(i32),
    /// Fail with this error.
    Fail(OpenFailure),
}

/// Why opening fails.
#[derive(Debug, Clone, Copy, PartialEq, Eq, Structural)]
pub enum OpenFailure {
    NoSuchFileOrDirectory,
    FileExists,
    NoPermsProvided,
}

/// The value of the create-if-missing flag.
pub const O_CREAT: i32 = 0x4;
/// The value of the fail-if-it-exists flag.
pub const O_EXCL: i32 = 0x10;

/// Decides how to open a path whose file `existed` or not: a missing file is created where
/// the flags ask for it (which needs permissions), and an existing one is refused where
/// the flags ask for creation to fail on it.
pub fn open_decision(existed: bool, flags: &OpenFlags) -> (d: OpenDecision)
    ensures
        !existed && flags.flags & O_CREAT == 0 ==> d == OpenDecision::Fail(OpenFailure::NoSuchFileOrDirectory),
        !existed && flags.flags & O_CREAT != 0 ==> d == match flags.perms {
            Some(p) => OpenDecision::Create(p),
            None => OpenDecision::Fail(OpenFailure::NoPermsProvided),
        },
        existed && flags.flags & O_EXCL != 0 ==> d == OpenDecision::Fail(OpenFailure::FileExists),
        existed && flags.flags & O_EXCL == 0 ==> d == OpenDecision::UseExisting,
{
    if !existed {
        if flags.flags & O_CREAT != 0 {
            return match flags.perms {
                Some(p) => OpenDecision::Create(p),
                None => OpenDecision::Fail(OpenFailure::NoPermsProvided),
            };
        }
        return OpenDecision::Fail(OpenFailure::NoSuchFileOrDirectory);
    }
    if flags.flags & O_EXCL != 0 {
        return OpenDecision::Fail(OpenFailure::FileExists);
    }
    OpenDecision::UseExisting
}

/// The error that an open failure is reported as.
pub fn open_failure_err(f: OpenFailure) -> (e: HalFsIOErr)
    ensures
        f == OpenFailure::NoSuchFileOrDirectory ==> e is NoSuchFileOrDirectory,
        f == OpenFailure::FileExists ==> e is FileExists,
        f == OpenFailure::NoPermsProvided ==> e is NoPermsProvided,
{
    match f {
        OpenFailure::NoSuchFileOrDirectory => HalFsIOErr::NoSuchFileOrDirectory,
        OpenFailure::FileExists => HalFsIOErr::FileExists,
        OpenFailure::NoPermsProvided => HalFsIOErr::NoPermsProvided,
    }
}

/// The inode of the root directory, where a walk starts.
pub const ROOT_DIRECTORY_INODE_IDX: u32 = 2;

/// What a walk down a path does with one component after looking it up in the current
/// directory.
#[derive(Debug, Clone, Copy, PartialEq, Eq, Structural)]
pub enum WalkStep {
    /// Step into the directory with this inode and go on.
    Descend(u32),
    /// The last component is the file with this inode.
    Found(u32),
    /// The last component does not exist; its directory is the current one.
    Missing,
}

/// The step for a component that the lookup found at `found` (or did not find), `is_last`
/// saying whether it ends the path; a missing component before the end fails the walk.
pub fn walk_step(found: Option<i64>, is_last: bool) -> (r: Result<WalkStep, HalFsIOErr>)
    ensures
        is_last ==> (found matches Some(i) ==> r == Ok::<WalkStep, HalFsIOErr>(WalkStep::Found(i as u32))),
        !is_last ==> (found matches Some(i) ==> r == Ok::<WalkStep, HalFsIOErr>(WalkStep::Descend(i as u32))),
        found is None && is_last ==> r == Ok::<WalkStep, HalFsIOErr>(WalkStep::Missing),
        found is None && !is_last ==> r matches Err(HalFsIOErr::NoSuchFileOrDirectory),
{
    match found {
        Some(i) => if is_last {
            Ok(WalkStep::Found(i as u32))
        } else {
            Ok(WalkStep::Descend(i as u32))
        },
        None => if is_last {
            Ok(WalkStep::Missing)
        } else {
            Err(HalFsIOErr::NoSuchFileOrDirectory)
        },
    }
}

/// The directory mode bits.
pub const S_IFDIR: u16 = 0x4000;
/// The regular-file mode bits.
pub const S_IFREG: u16 = 0x8000;

/// Checks a new entry's name and its directory: names longer than 255 bytes are too long,
/// and only a directory can hold entries.
pub fn check_new_entry(name: &str, dir: &Inode) -> (r: Result<(), HalFsIOErr>)
    ensures
        vstd::utf8::encode_utf8(name@).len() > 255 ==> r matches Err(HalFsIOErr::NameTooLong),
        vstd::utf8::encode_utf8(name@).len() <= 255 && dir.i_mode & 0xF000 != S_IFDIR ==> r matches Err(HalFsIOErr::NotADirectory),
        vstd::utf8::encode_utf8(name@).len() <= 255 && dir.i_mode & 0xF000 == S_IFDIR ==> r is Ok,
{
    if name.as_bytes().len() > 255 {
        return Err(HalFsIOErr::NameTooLong);
    }
    if !dir.is_directory() {
        return Err(HalFsIOErr::NotADirectory);
    }
    Ok(())
}

/// Sets up a newly taken inode: a directory or regular file with permissions `perms`,
/// empty, with all three times `time`, two links for a directory and one for a file, and
/// every other field zero.
pub fn init_new_inode(inode: &mut Inode, perms: i32, is_dir: bool, time: u32)
    ensures
        final(inode).i_mode == ((perms as u16) | if is_dir { S_IFDIR } else { S_IFREG }),
        final(inode).i_uid == 0 && final(inode).i_gid == 0,
        final(inode).i_size == 0,
        final(inode).i_atime == time && final(inode).i_ctime == time && final(inode).i_mtime == time,
        final(inode).i_dtime == 0,
        final(inode).i_links_count == if is_dir { 2u16 } else { 1u16 },
        final(inode).i_blocks == 0 && final(inode).i_flags == 0 && final(inode).i_osd1 == 0,
        forall|i: int| 0 <= i < 12 ==> #[trigger] final(inode).i_osd2@[i] == 0,
        forall|i: int| 0 <= i < 15 ==> #[trigger] final(inode).i_block@[i] == 0,
        final(inode).i_file_acl == 0 && final(inode).i_dir_acl == 0 && final(inode).i_faddr == 0,
        final(inode).i_generation == 0,
{
    inode.i_mode = (perms as u16) | if is_dir { S_IFDIR } else { S_IFREG };
    inode.i_uid = 0;
    inode.i_size = 0;
    inode.i_atime = time;
    inode.i_ctime = time;
    inode.i_mtime = time;
    inode.i_dtime = 0;
    inode.i_gid = 0;
    inode.i_links_count = if is_dir { 2 } else { 1 };
    inode.i_blocks = 0;
    inode.i_flags = 0;
    inode.i_osd1 = 0;
    inode.i_osd2 = [0; 12];
    inode.i_block = [0; 15];
    inode.i_file_acl = 0;
    inode.i_dir_acl = 0;
    inode.i_faddr = 0;
    inode.i_generation = 0;
}

/// Records the blocks taken for a new inode: block `k` goes to pointer `k` (its first
/// sector, as a `u32`), and the inode's sector count grows by two per block.  More than
/// twelve blocks are not supported.
pub fn record_new_inode_blocks(inode: &mut Inode, blocks: &Vec<AllocatedBlock>) -> (r: Result<(), HalFsIOErr>)
    requires
        old(inode).i_blocks + 2 * blocks@.len() <= u32::MAX,
    ensures
        blocks@.len() > 12 ==> (r matches Err(HalFsIOErr::Unsupported)) && *final(inode) == *old(inode),
        blocks@.len() <= 12 ==> r is Ok
            && final(inode).i_blocks == old(inode).i_blocks + 2 * blocks@.len()
            && (forall|k: int| 0 <= k < blocks@.len() ==> #[trigger] final(inode).i_block@[k] == blocks@[k].addr as u32)
            && (forall|k: int| blocks@.len() <= k < 15 ==> #[trigger] final(inode).i_block@[k] == old(inode).i_block@[k]),
{
    if blocks.len() > 12 {
        return Err(HalFsIOErr::Unsupported);
    }
    let mut idx: usize = 0;
    while idx < blocks.len()
        invariant
            idx <= blocks@.len() <= 12,
            inode.i_blocks == old(inode).i_blocks,
            forall|k: int| 0 <= k < idx ==> #[trigger] inode.i_block@[k] == blocks@[k].addr as u32,
            forall|k: int| idx <= k < 15 ==> #[trigger] inode.i_block@[k] == old(inode).i_block@[k],
        decreases blocks@.len() - idx,
    {
        inode.i_block[idx] = blocks[idx].addr as u32;
        idx = idx + 1;
    }
    inode.i_blocks += blocks.len() as u32 * 2;
    Ok(())
}

impl Ext2Fs {
    /// An iterator over the blocks of `inode`, of group `group_number`, as far as its size
    /// reaches, rounded up to whole blocks.
    pub fn create_block_iterator(&self, inode: &Inode, group_number: i64) -> (it: InodeBlockIterator)
        requires
            self.super_block.s_log_block_size < 32,
            self.spec_block_size() > 0,
            inode.i_size + self.spec_block_size() - 1 <= u32::MAX,
        ensures
            it.blocks == inode.i_block,
            it.group_number == group_number,
            it.block_size == self.spec_block_size(),
            it.io_handler == self.io_handler,
            it.blocks_limit == (inode.i_size + self.spec_block_size() - 1) / (self.spec_block_size() as int),
            it.cur_idx == 0,
            it.cur_ind_buf is None && it.cur_double_ind_buf is None && it.cur_triple_ind_buf is None,
            it.pending@.len() == 0 && it.awaiting is None && it.allocated@.len() == 0,
    {
        let bs = self.super_block.block_size();
        InodeBlockIterator::new(
            inode.i_block,
            group_number,
            bs as usize,
            self.io_handler,
            ((inode.i_size + (bs - 1)) / bs) as usize,
        )
    }

    /// The first free inode of a group, given the group's free-inode count and inode
    /// bitmap: `None` where the count is zero or no bit below the inodes per group is
    /// clear; else a zeroed inode at that index.
    pub fn find_available_inode_in_group(&self, group_idx: u32, free_inodes: u16, bitmap: &[u8]) -> (r: Option<InodePlus>)
        requires
            self.super_block.s_inodes_per_group <= 8 * bitmap@.len(),
            group_idx * self.super_block.s_inodes_per_group + self.super_block.s_inodes_per_group <= u32::MAX,
        ensures
            free_inodes == 0 ==> r is None,
            free_inodes != 0 ==> match r {
                Some(ip) => {
                    &&& ip.inode.is_zeroed()
                    &&& ip.group_number == group_idx
                    &&& ip.relative_idx < self.super_block.s_inodes_per_group
                    &&& !bit_set(bitmap@, ip.relative_idx as int)
                    &&& forall|j: int| 0 <= j < ip.relative_idx ==> #[trigger] bit_set(bitmap@, j)
                    &&& ip.absolute_idx == group_idx * self.super_block.s_inodes_per_group + ip.relative_idx + 1
                },
                None => forall|j: int| 0 <= j < self.super_block.s_inodes_per_group ==> #[trigger] bit_set(bitmap@, j),
            },
    {
        if free_inodes == 0 {
            return None;
        }
        match first_clear_bit(bitmap, self.super_block.s_inodes_per_group as usize) {
            Some(idx) => {
                let ino = Inode::default();
                Some(self.relative_idx_to_inode_plus(ino, group_idx, idx as u32))
            },
            None => None,
        }
    }
}

} // verus!
