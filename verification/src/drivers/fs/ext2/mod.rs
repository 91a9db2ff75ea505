//! The ext2 file system: on-disk records, their geometry and the block-level logic.
pub mod allocator;
pub mod bitmap;
pub mod delete;
pub mod block_iterator;
pub mod dir;
pub mod flow;
pub mod fs;
pub mod io;
pub mod layout;
pub mod listing;
pub mod lookup;
pub mod records;

pub use records::{GroupDescriptor, Inode, SuperBlock};

use vstd::prelude::*;

verus! {

pub const BLOCK_SIZE: u32 = 1024;
pub const LOG_BLOCK_SIZE: u32 = 1;
pub const S_R_BLOCKS_COUNT: u32 = 1024;
pub const FIRST_DATA_BLOCK: u32 = 1;
pub const MAX_MOUNT_COUNT: u16 = 64;
pub const CREATOR_OS_DVIDA: u32 = 5;
pub const ROOT_ID: u16 = 0;
pub const ALGO_BITMAP: u32 = 2;
pub const BLOCKS_PER_GROUP: u32 = 8192;
pub const INODES_PER_GROUP: u32 = 8192;
/// The stride of the inode table as this implementation walks it.
pub const INODE_SIZE: i64 = 32;
/// The stride of the block group descriptor table.
pub const BLOCK_GROUP_DESCRIPTOR_SIZE: usize = 32;

// Filesystem state values for s_state
pub const EXT2_VALID_FS: u16 = 0x0001;
pub const EXT2_ERROR_FS: u16 = 0x0002;

// Error handling methods for s_errors
pub const EXT2_ERRORS_CONTINUE: u16 = 1;
pub const EXT2_ERRORS_RO: u16 = 2;
pub const EXT2_ERRORS_PANIC: u16 = 3;

// Creator OS values for s_creator_os
pub const EXT2_OS_LINUX: u32 = 0;
pub const EXT2_OS_HURD: u32 = 1;
pub const EXT2_OS_MASIX: u32 = 2;
pub const EXT2_OS_FREEBSD: u32 = 3;
pub const EXT2_OS_LITES: u32 = 4;

// Revision levels for s_rev_level
pub const EXT2_GOOD_OLD_REV: u32 = 0;
pub const EXT2_DYNAMIC_REV: u32 = 1;

/// Magic number
pub const EXT2_SUPER_MAGIC: u16 = 0xEF53;

// File type values for directory entries (file_type field)
pub const EXT2_FT_UNKNOWN: u8 = 0;
pub const EXT2_FT_REG_FILE: u8 = 1;
pub const EXT2_FT_DIR: u8 = 2;
pub const EXT2_FT_CHRDEV: u8 = 3;
pub const EXT2_FT_BLKDEV: u8 = 4;
pub const EXT2_FT_FIFO: u8 = 5;
pub const EXT2_FT_SOCK: u8 = 6;
pub const EXT2_FT_SYMLINK: u8 = 7;

// File mode bits (i_mode)
pub const EXT2_S_IFSOCK: u16 = 0xC000;
pub const EXT2_S_IFLNK: u16 = 0xA000;
pub const EXT2_S_IFREG: u16 = 0x8000;
pub const EXT2_S_IFBLK: u16 = 0x6000;
pub const EXT2_S_IFDIR: u16 = 0x4000;
pub const EXT2_S_IFCHR: u16 = 0x2000;
pub const EXT2_S_IFIFO: u16 = 0x1000;

// Reserved inode numbers
pub const EXT2_BAD_INO: u32 = 1;
pub const EXT2_ROOT_INO: u32 = 2;
pub const EXT2_ACL_IDX_INO: u32 = 3;
pub const EXT2_ACL_DATA_INO: u32 = 4;
pub const EXT2_BOOT_LOADER_INO: u32 = 5;
pub const EXT2_UNDEL_DIR_INO: u32 = 6;

impl SuperBlock {
    /// Returns the actual block size in bytes
    pub fn block_size(&self) -> (r: u32)
        requires
            self.s_log_block_size < 32,
        ensures
            r == (1024u32 << self.s_log_block_size),
            self.s_log_block_size <= 21 ==> r == 1024 * vstd::arithmetic::power2::pow2(
                self.s_log_block_size as nat,
            ),
    {
        proof {
            if self.s_log_block_size <= 21 {
                vstd::bits::lemma_u32_pow2_no_overflow(self.s_log_block_size as nat);
                assert(1024 * vstd::arithmetic::power2::pow2(self.s_log_block_size as nat)
                    <= u32::MAX) by {
                    vstd::arithmetic::power2::lemma_pow2_adds(10, self.s_log_block_size as nat);
                    vstd::arithmetic::power2::lemma2_to64();
                    vstd::arithmetic::power2::lemma_pow2_strictly_increases(
                        10 + self.s_log_block_size as nat,
                        32,
                    );
                }
                vstd::bits::lemma_u32_shl_is_mul(1024, self.s_log_block_size);
            }
        }
        1024 << self.s_log_block_size
    }

    /// Returns the actual fragment size in bytes
    pub fn fragment_size(&self) -> (r: u32)
        requires
            self.s_log_frag_size < 32,
        ensures
            r == (1024u32 << self.s_log_frag_size),
    {
        1024 << self.s_log_frag_size
    }

    /// Checks if the superblock has a valid magic number
    pub fn is_valid(&self) -> (b: bool)
        ensures
            b == (self.s_magic == EXT2_SUPER_MAGIC),
    {
        self.s_magic == EXT2_SUPER_MAGIC
    }

    /// Returns the total number of block groups
    pub fn block_groups_count(&self) -> (r: u32)
        requires
            self.s_blocks_per_group > 0,
            self.s_blocks_count + self.s_blocks_per_group <= u32::MAX,
        ensures
            r == (self.s_blocks_count + self.s_blocks_per_group - 1) / (
            self.s_blocks_per_group as int),
    {
        (self.s_blocks_count + self.s_blocks_per_group - 1) / self.s_blocks_per_group
    }

    /// Returns true if this is a dynamic revision filesystem
    pub fn is_dynamic_rev(&self) -> (b: bool)
        ensures
            b == (self.s_rev_level >= EXT2_DYNAMIC_REV),
    {
        self.s_rev_level >= EXT2_DYNAMIC_REV
    }
}

impl Inode {
    /// Returns the file type from the mode field
    pub fn file_type(&self) -> (r: u16)
        ensures
            r == self.i_mode & 0xF000,
    {
        self.i_mode & 0xF000
    }

    /// Returns the permissions from the mode field
    pub fn permissions(&self) -> (r: u16)
        ensures
            r == self.i_mode & 0x0FFF,
    {
        self.i_mode & 0x0FFF
    }

    /// Checks if this is a directory
    pub fn is_directory(&self) -> (b: bool)
        ensures
            b == (self.i_mode & 0xF000 == EXT2_S_IFDIR),
    {
        self.file_type() == EXT2_S_IFDIR
    }

    /// Checks if this is a regular file
    pub fn is_regular_file(&self) -> (b: bool)
        ensures
            b == (self.i_mode & 0xF000 == EXT2_S_IFREG),
    {
        self.file_type() == EXT2_S_IFREG
    }

    /// Checks if this is a symbolic link
    pub fn is_symlink(&self) -> (b: bool)
        ensures
            b == (self.i_mode & 0xF000 == EXT2_S_IFLNK),
    {
        self.file_type() == EXT2_S_IFLNK
    }

    /// Whether every field of the inode is zero.
    pub open spec fn is_zeroed(&self) -> bool {
        &&& self.i_mode == 0
        &&& self.i_uid == 0
        &&& self.i_size == 0
        &&& self.i_atime == 0
        &&& self.i_ctime == 0
        &&& self.i_mtime == 0
        &&& self.i_dtime == 0
        &&& self.i_gid == 0
        &&& self.i_links_count == 0
        &&& self.i_blocks == 0
        &&& self.i_flags == 0
        &&& self.i_osd1 == 0
        &&& (forall|i: int| 0 <= i < 15 ==> #[trigger] self.i_block@[i] == 0)
        &&& self.i_generation == 0
        &&& self.i_file_acl == 0
        &&& self.i_dir_acl == 0
        &&& self.i_faddr == 0
        &&& (forall|i: int| 0 <= i < 12 ==> #[trigger] self.i_osd2@[i] == 0)
    }
}

impl Default for Inode {
    fn default() -> (r: Self)
        ensures
            r.is_zeroed(),
    {
        Inode {
            i_mode: 0,
            i_uid: 0,
            i_size: 0,
            i_atime: 0,
            i_ctime: 0,
            i_mtime: 0,
            i_dtime: 0,
            i_gid: 0,
            i_links_count: 0,
            i_blocks: 0,
            i_flags: 0,
            i_osd1: 0,
            i_block: [0; 15],
            i_generation: 0,
            i_file_acl: 0,
            i_dir_acl: 0,
            i_faddr: 0,
            i_osd2: [0; 12],
        }
    }
}

} // verus!
