//! The on-disk records of ext2: superblock, block group descriptor and inode.
use vstd::prelude::*;
use crate::serialize::{DvDeErr, DvSerErr};
use crate::utils::bytes::{
    copy_into, le_bytes, lemma_concat_eq, lemma_le_bytes_injective, lemma_le_field, lemma_le_fixed,
    lemma_pow256, lemma_u32s_field, lemma_u32s_injective, push_le, push_u32_array, push_u8_array,
    read_u16_le, read_u32_le, read_u32_array, read_u8_array, u32s_le_bytes,
};

verus! {

/// The ext2 superblock structure - located at byte offset 1024 from start. All fields stored in little-endian format on disk
#[derive(Clone, Copy, Debug)]
pub struct SuperBlock {
    /// Total number of inodes
    pub s_inodes_count: u32,
    /// Total number of blocks
    pub s_blocks_count: u32,
    /// Number of reserved blocks
    pub s_r_blocks_count: u32,
    /// Number of free blocks
    pub s_free_blocks_count: u32,
    /// Number of free inodes
    pub s_free_inodes_count: u32,
    /// First data block (0 or 1)
    pub s_first_data_block: u32,
    /// Block size = 1024 << s_log_block_size
    pub s_log_block_size: u32,
    /// Fragment size = 1024 << s_log_frag_size
    pub s_log_frag_size: u32,
    /// Number of blocks per group
    pub s_blocks_per_group: u32,
    /// Number of fragments per group
    pub s_frags_per_group: u32,
    /// Number of inodes per group
    pub s_inodes_per_group: u32,
    /// Last mount time (POSIX time)
    pub s_mtime: u32,
    /// Last write time (POSIX time)
    pub s_wtime: u32,
    /// Mount count since last fsck
    pub s_mnt_count: u16,
    /// Maximum mount count before fsck
    pub s_max_mnt_count: u16,
    /// Magic signature (0xEF53)
    pub s_magic: u16,
    /// File system state
    pub s_state: u16,
    /// Behavior when detecting errors
    pub s_errors: u16,
    /// Minor revision level
    pub s_minor_rev_level: u16,
    /// Last check time (POSIX time)
    pub s_lastcheck: u32,
    /// Maximum time between checks
    pub s_checkinterval: u32,
    /// OS that created the filesystem
    pub s_creator_os: u32,
    /// Revision level
    pub s_rev_level: u32,
    /// Default user ID for reserved blocks
    pub s_def_resuid: u16,
    /// Default group ID for reserved blocks
    pub s_def_resgid: u16,
    /// First non-reserved inode
    pub s_first_ino: u32,
    /// Size of inode structure (bytes)
    pub s_inode_size: u16,
    /// Block group number of this superblock
    pub s_block_group_nr: u16,
    /// Compatible feature set
    pub s_feature_compat: u32,
    /// Incompatible feature set
    pub s_feature_incompat: u32,
    /// Read-only compatible feature set
    pub s_feature_ro_compat: u32,
    /// 128-bit filesystem UUID
    pub s_uuid: [u8; 16],
    /// Volume name (null-terminated)
    pub s_volume_name: [u8; 16],
    /// Directory where last mounted
    pub s_last_mounted: [u8; 64],
    /// Compression algorithms used
    pub s_algo_bitmap: u32,
    /// Number of blocks to preallocate for files
    pub s_prealloc_blocks: u8,
    /// Number of blocks to preallocate for dirs
    pub s_prealloc_dir_blocks: u8,
    /// Alignment padding
    pub s_padding1: u16,
    /// UUID of journal superblock
    pub s_journal_uuid: [u8; 16],
    /// Inode number of journal file
    pub s_journal_inum: u32,
    /// Device number of journal file
    pub s_journal_dev: u32,
    /// Start of list of orphaned inodes
    pub s_last_orphan: u32,
    /// Seeds used for hash algorithm
    pub s_hash_seed: [u32; 4],
    /// Default hash version
    pub s_def_hash_version: u8,
    pub reserved: [u8; 3],
    /// Default mount options
    pub s_default_mount_opts: u32,
    /// First metablock block group
    pub s_first_meta_bg: u32,
}

/// The size in bytes of the on-disk form of [`SuperBlock`].
pub const SUPER_BLOCK_SIZE: usize = 264;

impl SuperBlock {
    /// The on-disk form: the fields one after another, little-endian.
    pub open spec fn spec_bytes(&self) -> Seq<u8> {
        ((((((((((((((((((((((((((((((((((((((((((((((le_bytes(self.s_inodes_count as int, 4) + le_bytes(self.s_blocks_count as int, 4)) + le_bytes(self.s_r_blocks_count as int, 4)) + le_bytes(self.s_free_blocks_count as int, 4)) + le_bytes(self.s_free_inodes_count as int, 4)) + le_bytes(self.s_first_data_block as int, 4)) + le_bytes(self.s_log_block_size as int, 4)) + le_bytes(self.s_log_frag_size as int, 4)) + le_bytes(self.s_blocks_per_group as int, 4)) + le_bytes(self.s_frags_per_group as int, 4)) + le_bytes(self.s_inodes_per_group as int, 4)) + le_bytes(self.s_mtime as int, 4)) + le_bytes(self.s_wtime as int, 4)) + le_bytes(self.s_mnt_count as int, 2)) + le_bytes(self.s_max_mnt_count as int, 2)) + le_bytes(self.s_magic as int, 2)) + le_bytes(self.s_state as int, 2)) + le_bytes(self.s_errors as int, 2)) + le_bytes(self.s_minor_rev_level as int, 2)) + le_bytes(self.s_lastcheck as int, 4)) + le_bytes(self.s_checkinterval as int, 4)) + le_bytes(self.s_creator_os as int, 4)) + le_bytes(self.s_rev_level as int, 4)) + le_bytes(self.s_def_resuid as int, 2)) + le_bytes(self.s_def_resgid as int, 2)) + le_bytes(self.s_first_ino as int, 4)) + le_bytes(self.s_inode_size as int, 2)) + le_bytes(self.s_block_group_nr as int, 2)) + le_bytes(self.s_feature_compat as int, 4)) + le_bytes(self.s_feature_incompat as int, 4)) + le_bytes(self.s_feature_ro_compat as int, 4)) + self.s_uuid@) + self.s_volume_name@) + self.s_last_mounted@) + le_bytes(self.s_algo_bitmap as int, 4)) + seq![self.s_prealloc_blocks]) + seq![self.s_prealloc_dir_blocks]) + le_bytes(self.s_padding1 as int, 2)) + self.s_journal_uuid@) + le_bytes(self.s_journal_inum as int, 4)) + le_bytes(self.s_journal_dev as int, 4)) + le_bytes(self.s_last_orphan as int, 4)) + u32s_le_bytes(self.s_hash_seed@)) + seq![self.s_def_hash_version]) + self.reserved@) + le_bytes(self.s_default_mount_opts as int, 4)) + le_bytes(self.s_first_meta_bg as int, 4))
    }

    /// Parses the on-disk form at the start of `input`; the size read comes back with it.
    #[verifier::spinoff_prover]
    #[verifier::rlimit(100)]
    pub fn deserialize(input: &[u8]) -> (r: Result<(Self, usize), DvDeErr>)
        ensures
            input@.len() < SUPER_BLOCK_SIZE <==> r is Err,
            r matches Ok((v, n)) ==> n == SUPER_BLOCK_SIZE && v.spec_bytes() == input@.subrange(0, SUPER_BLOCK_SIZE as int),
    {
        if input.len() < SUPER_BLOCK_SIZE {
            return Err(DvDeErr::WrongBufferSize);
        }
        let ghost s = input@;
        let s_inodes_count = read_u32_le(input, 0);
        proof { lemma_le_fixed(s, 0); lemma_le_field(s, 0, 4, s_inodes_count as int); }
        assert(s.subrange(0, 4) =~= s.subrange(0, 0) + s.subrange(0, 4));
        let s_blocks_count = read_u32_le(input, 4);
        proof { lemma_le_fixed(s, 4); lemma_le_field(s, 4, 4, s_blocks_count as int); }
        assert(s.subrange(0, 8) =~= s.subrange(0, 4) + s.subrange(4, 8));
        let s_r_blocks_count = read_u32_le(input, 8);
        proof { lemma_le_fixed(s, 8); lemma_le_field(s, 8, 4, s_r_blocks_count as int); }
        assert(s.subrange(0, 12) =~= s.subrange(0, 8) + s.subrange(8, 12));
        let s_free_blocks_count = read_u32_le(input, 12);
        proof { lemma_le_fixed(s, 12); lemma_le_field(s, 12, 4, s_free_blocks_count as int); }
        assert(s.subrange(0, 16) =~= s.subrange(0, 12) + s.subrange(12, 16));
        let s_free_inodes_count = read_u32_le(input, 16);
        proof { lemma_le_fixed(s, 16); lemma_le_field(s, 16, 4, s_free_inodes_count as int); }
        assert(s.subrange(0, 20) =~= s.subrange(0, 16) + s.subrange(16, 20));
        let s_first_data_block = read_u32_le(input, 20);
        proof { lemma_le_fixed(s, 20); lemma_le_field(s, 20, 4, s_first_data_block as int); }
        assert(s.subrange(0, 24) =~= s.subrange(0, 20) + s.subrange(20, 24));
        let s_log_block_size = read_u32_le(input, 24);
        proof { lemma_le_fixed(s, 24); lemma_le_field(s, 24, 4, s_log_block_size as int); }
        assert(s.subrange(0, 28) =~= s.subrange(0, 24) + s.subrange(24, 28));
        let s_log_frag_size = read_u32_le(input, 28);
        proof { lemma_le_fixed(s, 28); lemma_le_field(s, 28, 4, s_log_frag_size as int); }
        assert(s.subrange(0, 32) =~= s.subrange(0, 28) + s.subrange(28, 32));
        let s_blocks_per_group = read_u32_le(input, 32);
        proof { lemma_le_fixed(s, 32); lemma_le_field(s, 32, 4, s_blocks_per_group as int); }
        assert(s.subrange(0, 36) =~= s.subrange(0, 32) + s.subrange(32, 36));
        let s_frags_per_group = read_u32_le(input, 36);
        proof { lemma_le_fixed(s, 36); lemma_le_field(s, 36, 4, s_frags_per_group as int); }
        assert(s.subrange(0, 40) =~= s.subrange(0, 36) + s.subrange(36, 40));
        let s_inodes_per_group = read_u32_le(input, 40);
        proof { lemma_le_fixed(s, 40); lemma_le_field(s, 40, 4, s_inodes_per_group as int); }
        assert(s.subrange(0, 44) =~= s.subrange(0, 40) + s.subrange(40, 44));
        let s_mtime = read_u32_le(input, 44);
        proof { lemma_le_fixed(s, 44); lemma_le_field(s, 44, 4, s_mtime as int); }
        assert(s.subrange(0, 48) =~= s.subrange(0, 44) + s.subrange(44, 48));
        let s_wtime = read_u32_le(input, 48);
        proof { lemma_le_fixed(s, 48); lemma_le_field(s, 48, 4, s_wtime as int); }
        assert(s.subrange(0, 52) =~= s.subrange(0, 48) + s.subrange(48, 52));
        let s_mnt_count = read_u16_le(input, 52);
        proof { lemma_le_fixed(s, 52); lemma_le_field(s, 52, 2, s_mnt_count as int); }
        assert(s.subrange(0, 54) =~= s.subrange(0, 52) + s.subrange(52, 54));
        let s_max_mnt_count = read_u16_le(input, 54);
        proof { lemma_le_fixed(s, 54); lemma_le_field(s, 54, 2, s_max_mnt_count as int); }
        assert(s.subrange(0, 56) =~= s.subrange(0, 54) + s.subrange(54, 56));
        let s_magic = read_u16_le(input, 56);
        proof { lemma_le_fixed(s, 56); lemma_le_field(s, 56, 2, s_magic as int); }
        assert(s.subrange(0, 58) =~= s.subrange(0, 56) + s.subrange(56, 58));
        let s_state = read_u16_le(input, 58);
        proof { lemma_le_fixed(s, 58); lemma_le_field(s, 58, 2, s_state as int); }
        assert(s.subrange(0, 60) =~= s.subrange(0, 58) + s.subrange(58, 60));
        let s_errors = read_u16_le(input, 60);
        proof { lemma_le_fixed(s, 60); lemma_le_field(s, 60, 2, s_errors as int); }
        assert(s.subrange(0, 62) =~= s.subrange(0, 60) + s.subrange(60, 62));
        let s_minor_rev_level = read_u16_le(input, 62);
        proof { lemma_le_fixed(s, 62); lemma_le_field(s, 62, 2, s_minor_rev_level as int); }
        assert(s.subrange(0, 64) =~= s.subrange(0, 62) + s.subrange(62, 64));
        let s_lastcheck = read_u32_le(input, 64);
        proof { lemma_le_fixed(s, 64); lemma_le_field(s, 64, 4, s_lastcheck as int); }
        assert(s.subrange(0, 68) =~= s.subrange(0, 64) + s.subrange(64, 68));
        let s_checkinterval = read_u32_le(input, 68);
        proof { lemma_le_fixed(s, 68); lemma_le_field(s, 68, 4, s_checkinterval as int); }
        assert(s.subrange(0, 72) =~= s.subrange(0, 68) + s.subrange(68, 72));
        let s_creator_os = read_u32_le(input, 72);
        proof { lemma_le_fixed(s, 72); lemma_le_field(s, 72, 4, s_creator_os as int); }
        assert(s.subrange(0, 76) =~= s.subrange(0, 72) + s.subrange(72, 76));
        let s_rev_level = read_u32_le(input, 76);
        proof { lemma_le_fixed(s, 76); lemma_le_field(s, 76, 4, s_rev_level as int); }
        assert(s.subrange(0, 80) =~= s.subrange(0, 76) + s.subrange(76, 80));
        let s_def_resuid = read_u16_le(input, 80);
        proof { lemma_le_fixed(s, 80); lemma_le_field(s, 80, 2, s_def_resuid as int); }
        assert(s.subrange(0, 82) =~= s.subrange(0, 80) + s.subrange(80, 82));
        let s_def_resgid = read_u16_le(input, 82);
        proof { lemma_le_fixed(s, 82); lemma_le_field(s, 82, 2, s_def_resgid as int); }
        assert(s.subrange(0, 84) =~= s.subrange(0, 82) + s.subrange(82, 84));
        let s_first_ino = read_u32_le(input, 84);
        proof { lemma_le_fixed(s, 84); lemma_le_field(s, 84, 4, s_first_ino as int); }
        assert(s.subrange(0, 88) =~= s.subrange(0, 84) + s.subrange(84, 88));
        let s_inode_size = read_u16_le(input, 88);
        proof { lemma_le_fixed(s, 88); lemma_le_field(s, 88, 2, s_inode_size as int); }
        assert(s.subrange(0, 90) =~= s.subrange(0, 88) + s.subrange(88, 90));
        let s_block_group_nr = read_u16_le(input, 90);
        proof { lemma_le_fixed(s, 90); lemma_le_field(s, 90, 2, s_block_group_nr as int); }
        assert(s.subrange(0, 92) =~= s.subrange(0, 90) + s.subrange(90, 92));
        let s_feature_compat = read_u32_le(input, 92);
        proof { lemma_le_fixed(s, 92); lemma_le_field(s, 92, 4, s_feature_compat as int); }
        assert(s.subrange(0, 96) =~= s.subrange(0, 92) + s.subrange(92, 96));
        let s_feature_incompat = read_u32_le(input, 96);
        proof { lemma_le_fixed(s, 96); lemma_le_field(s, 96, 4, s_feature_incompat as int); }
        assert(s.subrange(0, 100) =~= s.subrange(0, 96) + s.subrange(96, 100));
        let s_feature_ro_compat = read_u32_le(input, 100);
        proof { lemma_le_fixed(s, 100); lemma_le_field(s, 100, 4, s_feature_ro_compat as int); }
        assert(s.subrange(0, 104) =~= s.subrange(0, 100) + s.subrange(100, 104));
        let s_uuid: [u8; 16] = read_u8_array::<16>(input, 104);
        assert(s.subrange(0, 120) =~= s.subrange(0, 104) + s.subrange(104, 120));
        let s_volume_name: [u8; 16] = read_u8_array::<16>(input, 120);
        assert(s.subrange(0, 136) =~= s.subrange(0, 120) + s.subrange(120, 136));
        let s_last_mounted: [u8; 64] = read_u8_array::<64>(input, 136);
        assert(s.subrange(0, 200) =~= s.subrange(0, 136) + s.subrange(136, 200));
        let s_algo_bitmap = read_u32_le(input, 200);
        proof { lemma_le_fixed(s, 200); lemma_le_field(s, 200, 4, s_algo_bitmap as int); }
        assert(s.subrange(0, 204) =~= s.subrange(0, 200) + s.subrange(200, 204));
        let s_prealloc_blocks = input[204];
        assert(seq![s_prealloc_blocks] =~= s.subrange(204, 205));
        assert(s.subrange(0, 205) =~= s.subrange(0, 204) + s.subrange(204, 205));
        let s_prealloc_dir_blocks = input[205];
        assert(seq![s_prealloc_dir_blocks] =~= s.subrange(205, 206));
        assert(s.subrange(0, 206) =~= s.subrange(0, 205) + s.subrange(205, 206));
        let s_padding1 = read_u16_le(input, 206);
        proof { lemma_le_fixed(s, 206); lemma_le_field(s, 206, 2, s_padding1 as int); }
        assert(s.subrange(0, 208) =~= s.subrange(0, 206) + s.subrange(206, 208));
        let s_journal_uuid: [u8; 16] = read_u8_array::<16>(input, 208);
        assert(s.subrange(0, 224) =~= s.subrange(0, 208) + s.subrange(208, 224));
        let s_journal_inum = read_u32_le(input, 224);
        proof { lemma_le_fixed(s, 224); lemma_le_field(s, 224, 4, s_journal_inum as int); }
        assert(s.subrange(0, 228) =~= s.subrange(0, 224) + s.subrange(224, 228));
        let s_journal_dev = read_u32_le(input, 228);
        proof { lemma_le_fixed(s, 228); lemma_le_field(s, 228, 4, s_journal_dev as int); }
        assert(s.subrange(0, 232) =~= s.subrange(0, 228) + s.subrange(228, 232));
        let s_last_orphan = read_u32_le(input, 232);
        proof { lemma_le_fixed(s, 232); lemma_le_field(s, 232, 4, s_last_orphan as int); }
        assert(s.subrange(0, 236) =~= s.subrange(0, 232) + s.subrange(232, 236));
        let s_hash_seed: [u32; 4] = read_u32_array::<4>(input, 236);
        proof { lemma_u32s_field(s, 236, s_hash_seed@); }
        assert(s.subrange(0, 252) =~= s.subrange(0, 236) + s.subrange(236, 252));
        let s_def_hash_version = input[252];
        assert(seq![s_def_hash_version] =~= s.subrange(252, 253));
        assert(s.subrange(0, 253) =~= s.subrange(0, 252) + s.subrange(252, 253));
        let reserved: [u8; 3] = read_u8_array::<3>(input, 253);
        assert(s.subrange(0, 256) =~= s.subrange(0, 253) + s.subrange(253, 256));
        let s_default_mount_opts = read_u32_le(input, 256);
        proof { lemma_le_fixed(s, 256); lemma_le_field(s, 256, 4, s_default_mount_opts as int); }
        assert(s.subrange(0, 260) =~= s.subrange(0, 256) + s.subrange(256, 260));
        let s_first_meta_bg = read_u32_le(input, 260);
        proof { lemma_le_fixed(s, 260); lemma_le_field(s, 260, 4, s_first_meta_bg as int); }
        assert(s.subrange(0, 264) =~= s.subrange(0, 260) + s.subrange(260, 264));
        let v = SuperBlock { s_inodes_count, s_blocks_count, s_r_blocks_count, s_free_blocks_count, s_free_inodes_count, s_first_data_block, s_log_block_size, s_log_frag_size, s_blocks_per_group, s_frags_per_group, s_inodes_per_group, s_mtime, s_wtime, s_mnt_count, s_max_mnt_count, s_magic, s_state, s_errors, s_minor_rev_level, s_lastcheck, s_checkinterval, s_creator_os, s_rev_level, s_def_resuid, s_def_resgid, s_first_ino, s_inode_size, s_block_group_nr, s_feature_compat, s_feature_incompat, s_feature_ro_compat, s_uuid, s_volume_name, s_last_mounted, s_algo_bitmap, s_prealloc_blocks, s_prealloc_dir_blocks, s_padding1, s_journal_uuid, s_journal_inum, s_journal_dev, s_last_orphan, s_hash_seed, s_def_hash_version, reserved, s_default_mount_opts, s_first_meta_bg };
        assert(s.subrange(0, 0) =~= Seq::<u8>::empty());
        assert(Seq::<u8>::empty() + s.subrange(0, 4) =~= s.subrange(0, 4));
        Ok((v, SUPER_BLOCK_SIZE))
    }

    /// The on-disk form.
    pub fn to_bytes(&self) -> (out: Vec<u8>)
        ensures
            out@ == self.spec_bytes(),
            out@.len() == SUPER_BLOCK_SIZE,
    {
        let mut out: Vec<u8> = Vec::new();
        push_le(&mut out, 4, self.s_inodes_count as u128);
        push_le(&mut out, 4, self.s_blocks_count as u128);
        push_le(&mut out, 4, self.s_r_blocks_count as u128);
        push_le(&mut out, 4, self.s_free_blocks_count as u128);
        push_le(&mut out, 4, self.s_free_inodes_count as u128);
        push_le(&mut out, 4, self.s_first_data_block as u128);
        push_le(&mut out, 4, self.s_log_block_size as u128);
        push_le(&mut out, 4, self.s_log_frag_size as u128);
        push_le(&mut out, 4, self.s_blocks_per_group as u128);
        push_le(&mut out, 4, self.s_frags_per_group as u128);
        push_le(&mut out, 4, self.s_inodes_per_group as u128);
        push_le(&mut out, 4, self.s_mtime as u128);
        push_le(&mut out, 4, self.s_wtime as u128);
        push_le(&mut out, 2, self.s_mnt_count as u128);
        push_le(&mut out, 2, self.s_max_mnt_count as u128);
        push_le(&mut out, 2, self.s_magic as u128);
        push_le(&mut out, 2, self.s_state as u128);
        push_le(&mut out, 2, self.s_errors as u128);
        push_le(&mut out, 2, self.s_minor_rev_level as u128);
        push_le(&mut out, 4, self.s_lastcheck as u128);
        push_le(&mut out, 4, self.s_checkinterval as u128);
        push_le(&mut out, 4, self.s_creator_os as u128);
        push_le(&mut out, 4, self.s_rev_level as u128);
        push_le(&mut out, 2, self.s_def_resuid as u128);
        push_le(&mut out, 2, self.s_def_resgid as u128);
        push_le(&mut out, 4, self.s_first_ino as u128);
        push_le(&mut out, 2, self.s_inode_size as u128);
        push_le(&mut out, 2, self.s_block_group_nr as u128);
        push_le(&mut out, 4, self.s_feature_compat as u128);
        push_le(&mut out, 4, self.s_feature_incompat as u128);
        push_le(&mut out, 4, self.s_feature_ro_compat as u128);
        push_u8_array(&mut out, &self.s_uuid);
        push_u8_array(&mut out, &self.s_volume_name);
        push_u8_array(&mut out, &self.s_last_mounted);
        push_le(&mut out, 4, self.s_algo_bitmap as u128);
        out.push(self.s_prealloc_blocks);
        out.push(self.s_prealloc_dir_blocks);
        push_le(&mut out, 2, self.s_padding1 as u128);
        push_u8_array(&mut out, &self.s_journal_uuid);
        push_le(&mut out, 4, self.s_journal_inum as u128);
        push_le(&mut out, 4, self.s_journal_dev as u128);
        push_le(&mut out, 4, self.s_last_orphan as u128);
        push_u32_array(&mut out, &self.s_hash_seed);
        out.push(self.s_def_hash_version);
        push_u8_array(&mut out, &self.reserved);
        push_le(&mut out, 4, self.s_default_mount_opts as u128);
        push_le(&mut out, 4, self.s_first_meta_bg as u128);
        assert(out@ =~= self.spec_bytes());
        out
    }

    /// Writes the on-disk form into `target` at `off`; the size written comes back.
    pub fn serialize(&self, target: &mut Vec<u8>, off: usize) -> (r: Result<usize, DvSerErr>)
        ensures
            r is Err <==> old(target)@.len() < off + SUPER_BLOCK_SIZE,
            r is Err ==> final(target)@ == old(target)@,
            r matches Ok(n) ==> n == SUPER_BLOCK_SIZE && final(target)@ == old(target)@.take(off as int) + self.spec_bytes() + old(target)@.skip(off + SUPER_BLOCK_SIZE),
    {
        if target.len() < SUPER_BLOCK_SIZE || off > target.len() - SUPER_BLOCK_SIZE {
            return Err(DvSerErr::BufferTooSmall);
        }
        let ghost before = target@;
        let bytes = self.to_bytes();
        copy_into(target, off, bytes.as_slice());
        assert(target@ =~= before.take(off as int) + self.spec_bytes() + before.skip(off + SUPER_BLOCK_SIZE));
        Ok(SUPER_BLOCK_SIZE)
    }
}

/// Two values with the same on-disk form are equal, so parsing what was written gives
/// back what was written.
pub proof fn lemma_super_block_bytes_injective(a: SuperBlock, b: SuperBlock)
    requires
        a.spec_bytes() == b.spec_bytes(),
    ensures
        a == b,
{
    lemma_pow256();
    lemma_concat_eq((((((((((((((((((((((((((((((((((((((((((((((le_bytes(a.s_inodes_count as int, 4) + le_bytes(a.s_blocks_count as int, 4)) + le_bytes(a.s_r_blocks_count as int, 4)) + le_bytes(a.s_free_blocks_count as int, 4)) + le_bytes(a.s_free_inodes_count as int, 4)) + le_bytes(a.s_first_data_block as int, 4)) + le_bytes(a.s_log_block_size as int, 4)) + le_bytes(a.s_log_frag_size as int, 4)) + le_bytes(a.s_blocks_per_group as int, 4)) + le_bytes(a.s_frags_per_group as int, 4)) + le_bytes(a.s_inodes_per_group as int, 4)) + le_bytes(a.s_mtime as int, 4)) + le_bytes(a.s_wtime as int, 4)) + le_bytes(a.s_mnt_count as int, 2)) + le_bytes(a.s_max_mnt_count as int, 2)) + le_bytes(a.s_magic as int, 2)) + le_bytes(a.s_state as int, 2)) + le_bytes(a.s_errors as int, 2)) + le_bytes(a.s_minor_rev_level as int, 2)) + le_bytes(a.s_lastcheck as int, 4)) + le_bytes(a.s_checkinterval as int, 4)) + le_bytes(a.s_creator_os as int, 4)) + le_bytes(a.s_rev_level as int, 4)) + le_bytes(a.s_def_resuid as int, 2)) + le_bytes(a.s_def_resgid as int, 2)) + le_bytes(a.s_first_ino as int, 4)) + le_bytes(a.s_inode_size as int, 2)) + le_bytes(a.s_block_group_nr as int, 2)) + le_bytes(a.s_feature_compat as int, 4)) + le_bytes(a.s_feature_incompat as int, 4)) + le_bytes(a.s_feature_ro_compat as int, 4)) + a.s_uuid@) + a.s_volume_name@) + a.s_last_mounted@) + le_bytes(a.s_algo_bitmap as int, 4)) + seq![a.s_prealloc_blocks]) + seq![a.s_prealloc_dir_blocks]) + le_bytes(a.s_padding1 as int, 2)) + a.s_journal_uuid@) + le_bytes(a.s_journal_inum as int, 4)) + le_bytes(a.s_journal_dev as int, 4)) + le_bytes(a.s_last_orphan as int, 4)) + u32s_le_bytes(a.s_hash_seed@)) + seq![a.s_def_hash_version]) + a.reserved@) + le_bytes(a.s_default_mount_opts as int, 4)), le_bytes(a.s_first_meta_bg as int, 4), (((((((((((((((((((((((((((((((((((((((((((((le_bytes(b.s_inodes_count as int, 4) + le_bytes(b.s_blocks_count as int, 4)) + le_bytes(b.s_r_blocks_count as int, 4)) + le_bytes(b.s_free_blocks_count as int, 4)) + le_bytes(b.s_free_inodes_count as int, 4)) + le_bytes(b.s_first_data_block as int, 4)) + le_bytes(b.s_log_block_size as int, 4)) + le_bytes(b.s_log_frag_size as int, 4)) + le_bytes(b.s_blocks_per_group as int, 4)) + le_bytes(b.s_frags_per_group as int, 4)) + le_bytes(b.s_inodes_per_group as int, 4)) + le_bytes(b.s_mtime as int, 4)) + le_bytes(b.s_wtime as int, 4)) + le_bytes(b.s_mnt_count as int, 2)) + le_bytes(b.s_max_mnt_count as int, 2)) + le_bytes(b.s_magic as int, 2)) + le_bytes(b.s_state as int, 2)) + le_bytes(b.s_errors as int, 2)) + le_bytes(b.s_minor_rev_level as int, 2)) + le_bytes(b.s_lastcheck as int, 4)) + le_bytes(b.s_checkinterval as int, 4)) + le_bytes(b.s_creator_os as int, 4)) + le_bytes(b.s_rev_level as int, 4)) + le_bytes(b.s_def_resuid as int, 2)) + le_bytes(b.s_def_resgid as int, 2)) + le_bytes(b.s_first_ino as int, 4)) + le_bytes(b.s_inode_size as int, 2)) + le_bytes(b.s_block_group_nr as int, 2)) + le_bytes(b.s_feature_compat as int, 4)) + le_bytes(b.s_feature_incompat as int, 4)) + le_bytes(b.s_feature_ro_compat as int, 4)) + b.s_uuid@) + b.s_volume_name@) + b.s_last_mounted@) + le_bytes(b.s_algo_bitmap as int, 4)) + seq![b.s_prealloc_blocks]) + seq![b.s_prealloc_dir_blocks]) + le_bytes(b.s_padding1 as int, 2)) + b.s_journal_uuid@) + le_bytes(b.s_journal_inum as int, 4)) + le_bytes(b.s_journal_dev as int, 4)) + le_bytes(b.s_last_orphan as int, 4)) + u32s_le_bytes(b.s_hash_seed@)) + seq![b.s_def_hash_version]) + b.reserved@) + le_bytes(b.s_default_mount_opts as int, 4)), le_bytes(b.s_first_meta_bg as int, 4));
    lemma_concat_eq(((((((((((((((((((((((((((((((((((((((((((((le_bytes(a.s_inodes_count as int, 4) + le_bytes(a.s_blocks_count as int, 4)) + le_bytes(a.s_r_blocks_count as int, 4)) + le_bytes(a.s_free_blocks_count as int, 4)) + le_bytes(a.s_free_inodes_count as int, 4)) + le_bytes(a.s_first_data_block as int, 4)) + le_bytes(a.s_log_block_size as int, 4)) + le_bytes(a.s_log_frag_size as int, 4)) + le_bytes(a.s_blocks_per_group as int, 4)) + le_bytes(a.s_frags_per_group as int, 4)) + le_bytes(a.s_inodes_per_group as int, 4)) + le_bytes(a.s_mtime as int, 4)) + le_bytes(a.s_wtime as int, 4)) + le_bytes(a.s_mnt_count as int, 2)) + le_bytes(a.s_max_mnt_count as int, 2)) + le_bytes(a.s_magic as int, 2)) + le_bytes(a.s_state as int, 2)) + le_bytes(a.s_errors as int, 2)) + le_bytes(a.s_minor_rev_level as int, 2)) + le_bytes(a.s_lastcheck as int, 4)) + le_bytes(a.s_checkinterval as int, 4)) + le_bytes(a.s_creator_os as int, 4)) + le_bytes(a.s_rev_level as int, 4)) + le_bytes(a.s_def_resuid as int, 2)) + le_bytes(a.s_def_resgid as int, 2)) + le_bytes(a.s_first_ino as int, 4)) + le_bytes(a.s_inode_size as int, 2)) + le_bytes(a.s_block_group_nr as int, 2)) + le_bytes(a.s_feature_compat as int, 4)) + le_bytes(a.s_feature_incompat as int, 4)) + le_bytes(a.s_feature_ro_compat as int, 4)) + a.s_uuid@) + a.s_volume_name@) + a.s_last_mounted@) + le_bytes(a.s_algo_bitmap as int, 4)) + seq![a.s_prealloc_blocks]) + seq![a.s_prealloc_dir_blocks]) + le_bytes(a.s_padding1 as int, 2)) + a.s_journal_uuid@) + le_bytes(a.s_journal_inum as int, 4)) + le_bytes(a.s_journal_dev as int, 4)) + le_bytes(a.s_last_orphan as int, 4)) + u32s_le_bytes(a.s_hash_seed@)) + seq![a.s_def_hash_version]) + a.reserved@), le_bytes(a.s_default_mount_opts as int, 4), ((((((((((((((((((((((((((((((((((((((((((((le_bytes(b.s_inodes_count as int, 4) + le_bytes(b.s_blocks_count as int, 4)) + le_bytes(b.s_r_blocks_count as int, 4)) + le_bytes(b.s_free_blocks_count as int, 4)) + le_bytes(b.s_free_inodes_count as int, 4)) + le_bytes(b.s_first_data_block as int, 4)) + le_bytes(b.s_log_block_size as int, 4)) + le_bytes(b.s_log_frag_size as int, 4)) + le_bytes(b.s_blocks_per_group as int, 4)) + le_bytes(b.s_frags_per_group as int, 4)) + le_bytes(b.s_inodes_per_group as int, 4)) + le_bytes(b.s_mtime as int, 4)) + le_bytes(b.s_wtime as int, 4)) + le_bytes(b.s_mnt_count as int, 2)) + le_bytes(b.s_max_mnt_count as int, 2)) + le_bytes(b.s_magic as int, 2)) + le_bytes(b.s_state as int, 2)) + le_bytes(b.s_errors as int, 2)) + le_bytes(b.s_minor_rev_level as int, 2)) + le_bytes(b.s_lastcheck as int, 4)) + le_bytes(b.s_checkinterval as int, 4)) + le_bytes(b.s_creator_os as int, 4)) + le_bytes(b.s_rev_level as int, 4)) + le_bytes(b.s_def_resuid as int, 2)) + le_bytes(b.s_def_resgid as int, 2)) + le_bytes(b.s_first_ino as int, 4)) + le_bytes(b.s_inode_size as int, 2)) + le_bytes(b.s_block_group_nr as int, 2)) + le_bytes(b.s_feature_compat as int, 4)) + le_bytes(b.s_feature_incompat as int, 4)) + le_bytes(b.s_feature_ro_compat as int, 4)) + b.s_uuid@) + b.s_volume_name@) + b.s_last_mounted@) + le_bytes(b.s_algo_bitmap as int, 4)) + seq![b.s_prealloc_blocks]) + seq![b.s_prealloc_dir_blocks]) + le_bytes(b.s_padding1 as int, 2)) + b.s_journal_uuid@) + le_bytes(b.s_journal_inum as int, 4)) + le_bytes(b.s_journal_dev as int, 4)) + le_bytes(b.s_last_orphan as int, 4)) + u32s_le_bytes(b.s_hash_seed@)) + seq![b.s_def_hash_version]) + b.reserved@), le_bytes(b.s_default_mount_opts as int, 4));
    lemma_concat_eq((((((((((((((((((((((((((((((((((((((((((((le_bytes(a.s_inodes_count as int, 4) + le_bytes(a.s_blocks_count as int, 4)) + le_bytes(a.s_r_blocks_count as int, 4)) + le_bytes(a.s_free_blocks_count as int, 4)) + le_bytes(a.s_free_inodes_count as int, 4)) + le_bytes(a.s_first_data_block as int, 4)) + le_bytes(a.s_log_block_size as int, 4)) + le_bytes(a.s_log_frag_size as int, 4)) + le_bytes(a.s_blocks_per_group as int, 4)) + le_bytes(a.s_frags_per_group as int, 4)) + le_bytes(a.s_inodes_per_group as int, 4)) + le_bytes(a.s_mtime as int, 4)) + le_bytes(a.s_wtime as int, 4)) + le_bytes(a.s_mnt_count as int, 2)) + le_bytes(a.s_max_mnt_count as int, 2)) + le_bytes(a.s_magic as int, 2)) + le_bytes(a.s_state as int, 2)) + le_bytes(a.s_errors as int, 2)) + le_bytes(a.s_minor_rev_level as int, 2)) + le_bytes(a.s_lastcheck as int, 4)) + le_bytes(a.s_checkinterval as int, 4)) + le_bytes(a.s_creator_os as int, 4)) + le_bytes(a.s_rev_level as int, 4)) + le_bytes(a.s_def_resuid as int, 2)) + le_bytes(a.s_def_resgid as int, 2)) + le_bytes(a.s_first_ino as int, 4)) + le_bytes(a.s_inode_size as int, 2)) + le_bytes(a.s_block_group_nr as int, 2)) + le_bytes(a.s_feature_compat as int, 4)) + le_bytes(a.s_feature_incompat as int, 4)) + le_bytes(a.s_feature_ro_compat as int, 4)) + a.s_uuid@) + a.s_volume_name@) + a.s_last_mounted@) + le_bytes(a.s_algo_bitmap as int, 4)) + seq![a.s_prealloc_blocks]) + seq![a.s_prealloc_dir_blocks]) + le_bytes(a.s_padding1 as int, 2)) + a.s_journal_uuid@) + le_bytes(a.s_journal_inum as int, 4)) + le_bytes(a.s_journal_dev as int, 4)) + le_bytes(a.s_last_orphan as int, 4)) + u32s_le_bytes(a.s_hash_seed@)) + seq![a.s_def_hash_version]), a.reserved@, (((((((((((((((((((((((((((((((((((((((((((le_bytes(b.s_inodes_count as int, 4) + le_bytes(b.s_blocks_count as int, 4)) + le_bytes(b.s_r_blocks_count as int, 4)) + le_bytes(b.s_free_blocks_count as int, 4)) + le_bytes(b.s_free_inodes_count as int, 4)) + le_bytes(b.s_first_data_block as int, 4)) + le_bytes(b.s_log_block_size as int, 4)) + le_bytes(b.s_log_frag_size as int, 4)) + le_bytes(b.s_blocks_per_group as int, 4)) + le_bytes(b.s_frags_per_group as int, 4)) + le_bytes(b.s_inodes_per_group as int, 4)) + le_bytes(b.s_mtime as int, 4)) + le_bytes(b.s_wtime as int, 4)) + le_bytes(b.s_mnt_count as int, 2)) + le_bytes(b.s_max_mnt_count as int, 2)) + le_bytes(b.s_magic as int, 2)) + le_bytes(b.s_state as int, 2)) + le_bytes(b.s_errors as int, 2)) + le_bytes(b.s_minor_rev_level as int, 2)) + le_bytes(b.s_lastcheck as int, 4)) + le_bytes(b.s_checkinterval as int, 4)) + le_bytes(b.s_creator_os as int, 4)) + le_bytes(b.s_rev_level as int, 4)) + le_bytes(b.s_def_resuid as int, 2)) + le_bytes(b.s_def_resgid as int, 2)) + le_bytes(b.s_first_ino as int, 4)) + le_bytes(b.s_inode_size as int, 2)) + le_bytes(b.s_block_group_nr as int, 2)) + le_bytes(b.s_feature_compat as int, 4)) + le_bytes(b.s_feature_incompat as int, 4)) + le_bytes(b.s_feature_ro_compat as int, 4)) + b.s_uuid@) + b.s_volume_name@) + b.s_last_mounted@) + le_bytes(b.s_algo_bitmap as int, 4)) + seq![b.s_prealloc_blocks]) + seq![b.s_prealloc_dir_blocks]) + le_bytes(b.s_padding1 as int, 2)) + b.s_journal_uuid@) + le_bytes(b.s_journal_inum as int, 4)) + le_bytes(b.s_journal_dev as int, 4)) + le_bytes(b.s_last_orphan as int, 4)) + u32s_le_bytes(b.s_hash_seed@)) + seq![b.s_def_hash_version]), b.reserved@);
    lemma_concat_eq(((((((((((((((((((((((((((((((((((((((((((le_bytes(a.s_inodes_count as int, 4) + le_bytes(a.s_blocks_count as int, 4)) + le_bytes(a.s_r_blocks_count as int, 4)) + le_bytes(a.s_free_blocks_count as int, 4)) + le_bytes(a.s_free_inodes_count as int, 4)) + le_bytes(a.s_first_data_block as int, 4)) + le_bytes(a.s_log_block_size as int, 4)) + le_bytes(a.s_log_frag_size as int, 4)) + le_bytes(a.s_blocks_per_group as int, 4)) + le_bytes(a.s_frags_per_group as int, 4)) + le_bytes(a.s_inodes_per_group as int, 4)) + le_bytes(a.s_mtime as int, 4)) + le_bytes(a.s_wtime as int, 4)) + le_bytes(a.s_mnt_count as int, 2)) + le_bytes(a.s_max_mnt_count as int, 2)) + le_bytes(a.s_magic as int, 2)) + le_bytes(a.s_state as int, 2)) + le_bytes(a.s_errors as int, 2)) + le_bytes(a.s_minor_rev_level as int, 2)) + le_bytes(a.s_lastcheck as int, 4)) + le_bytes(a.s_checkinterval as int, 4)) + le_bytes(a.s_creator_os as int, 4)) + le_bytes(a.s_rev_level as int, 4)) + le_bytes(a.s_def_resuid as int, 2)) + le_bytes(a.s_def_resgid as int, 2)) + le_bytes(a.s_first_ino as int, 4)) + le_bytes(a.s_inode_size as int, 2)) + le_bytes(a.s_block_group_nr as int, 2)) + le_bytes(a.s_feature_compat as int, 4)) + le_bytes(a.s_feature_incompat as int, 4)) + le_bytes(a.s_feature_ro_compat as int, 4)) + a.s_uuid@) + a.s_volume_name@) + a.s_last_mounted@) + le_bytes(a.s_algo_bitmap as int, 4)) + seq![a.s_prealloc_blocks]) + seq![a.s_prealloc_dir_blocks]) + le_bytes(a.s_padding1 as int, 2)) + a.s_journal_uuid@) + le_bytes(a.s_journal_inum as int, 4)) + le_bytes(a.s_journal_dev as int, 4)) + le_bytes(a.s_last_orphan as int, 4)) + u32s_le_bytes(a.s_hash_seed@)), seq![a.s_def_hash_version], ((((((((((((((((((((((((((((((((((((((((((le_bytes(b.s_inodes_count as int, 4) + le_bytes(b.s_blocks_count as int, 4)) + le_bytes(b.s_r_blocks_count as int, 4)) + le_bytes(b.s_free_blocks_count as int, 4)) + le_bytes(b.s_free_inodes_count as int, 4)) + le_bytes(b.s_first_data_block as int, 4)) + le_bytes(b.s_log_block_size as int, 4)) + le_bytes(b.s_log_frag_size as int, 4)) + le_bytes(b.s_blocks_per_group as int, 4)) + le_bytes(b.s_frags_per_group as int, 4)) + le_bytes(b.s_inodes_per_group as int, 4)) + le_bytes(b.s_mtime as int, 4)) + le_bytes(b.s_wtime as int, 4)) + le_bytes(b.s_mnt_count as int, 2)) + le_bytes(b.s_max_mnt_count as int, 2)) + le_bytes(b.s_magic as int, 2)) + le_bytes(b.s_state as int, 2)) + le_bytes(b.s_errors as int, 2)) + le_bytes(b.s_minor_rev_level as int, 2)) + le_bytes(b.s_lastcheck as int, 4)) + le_bytes(b.s_checkinterval as int, 4)) + le_bytes(b.s_creator_os as int, 4)) + le_bytes(b.s_rev_level as int, 4)) + le_bytes(b.s_def_resuid as int, 2)) + le_bytes(b.s_def_resgid as int, 2)) + le_bytes(b.s_first_ino as int, 4)) + le_bytes(b.s_inode_size as int, 2)) + le_bytes(b.s_block_group_nr as int, 2)) + le_bytes(b.s_feature_compat as int, 4)) + le_bytes(b.s_feature_incompat as int, 4)) + le_bytes(b.s_feature_ro_compat as int, 4)) + b.s_uuid@) + b.s_volume_name@) + b.s_last_mounted@) + le_bytes(b.s_algo_bitmap as int, 4)) + seq![b.s_prealloc_blocks]) + seq![b.s_prealloc_dir_blocks]) + le_bytes(b.s_padding1 as int, 2)) + b.s_journal_uuid@) + le_bytes(b.s_journal_inum as int, 4)) + le_bytes(b.s_journal_dev as int, 4)) + le_bytes(b.s_last_orphan as int, 4)) + u32s_le_bytes(b.s_hash_seed@)), seq![b.s_def_hash_version]);
    lemma_concat_eq((((((((((((((((((((((((((((((((((((((((((le_bytes(a.s_inodes_count as int, 4) + le_bytes(a.s_blocks_count as int, 4)) + le_bytes(a.s_r_blocks_count as int, 4)) + le_bytes(a.s_free_blocks_count as int, 4)) + le_bytes(a.s_free_inodes_count as int, 4)) + le_bytes(a.s_first_data_block as int, 4)) + le_bytes(a.s_log_block_size as int, 4)) + le_bytes(a.s_log_frag_size as int, 4)) + le_bytes(a.s_blocks_per_group as int, 4)) + le_bytes(a.s_frags_per_group as int, 4)) + le_bytes(a.s_inodes_per_group as int, 4)) + le_bytes(a.s_mtime as int, 4)) + le_bytes(a.s_wtime as int, 4)) + le_bytes(a.s_mnt_count as int, 2)) + le_bytes(a.s_max_mnt_count as int, 2)) + le_bytes(a.s_magic as int, 2)) + le_bytes(a.s_state as int, 2)) + le_bytes(a.s_errors as int, 2)) + le_bytes(a.s_minor_rev_level as int, 2)) + le_bytes(a.s_lastcheck as int, 4)) + le_bytes(a.s_checkinterval as int, 4)) + le_bytes(a.s_creator_os as int, 4)) + le_bytes(a.s_rev_level as int, 4)) + le_bytes(a.s_def_resuid as int, 2)) + le_bytes(a.s_def_resgid as int, 2)) + le_bytes(a.s_first_ino as int, 4)) + le_bytes(a.s_inode_size as int, 2)) + le_bytes(a.s_block_group_nr as int, 2)) + le_bytes(a.s_feature_compat as int, 4)) + le_bytes(a.s_feature_incompat as int, 4)) + le_bytes(a.s_feature_ro_compat as int, 4)) + a.s_uuid@) + a.s_volume_name@) + a.s_last_mounted@) + le_bytes(a.s_algo_bitmap as int, 4)) + seq![a.s_prealloc_blocks]) + seq![a.s_prealloc_dir_blocks]) + le_bytes(a.s_padding1 as int, 2)) + a.s_journal_uuid@) + le_bytes(a.s_journal_inum as int, 4)) + le_bytes(a.s_journal_dev as int, 4)) + le_bytes(a.s_last_orphan as int, 4)), u32s_le_bytes(a.s_hash_seed@), (((((((((((((((((((((((((((((((((((((((((le_bytes(b.s_inodes_count as int, 4) + le_bytes(b.s_blocks_count as int, 4)) + le_bytes(b.s_r_blocks_count as int, 4)) + le_bytes(b.s_free_blocks_count as int, 4)) + le_bytes(b.s_free_inodes_count as int, 4)) + le_bytes(b.s_first_data_block as int, 4)) + le_bytes(b.s_log_block_size as int, 4)) + le_bytes(b.s_log_frag_size as int, 4)) + le_bytes(b.s_blocks_per_group as int, 4)) + le_bytes(b.s_frags_per_group as int, 4)) + le_bytes(b.s_inodes_per_group as int, 4)) + le_bytes(b.s_mtime as int, 4)) + le_bytes(b.s_wtime as int, 4)) + le_bytes(b.s_mnt_count as int, 2)) + le_bytes(b.s_max_mnt_count as int, 2)) + le_bytes(b.s_magic as int, 2)) + le_bytes(b.s_state as int, 2)) + le_bytes(b.s_errors as int, 2)) + le_bytes(b.s_minor_rev_level as int, 2)) + le_bytes(b.s_lastcheck as int, 4)) + le_bytes(b.s_checkinterval as int, 4)) + le_bytes(b.s_creator_os as int, 4)) + le_bytes(b.s_rev_level as int, 4)) + le_bytes(b.s_def_resuid as int, 2)) + le_bytes(b.s_def_resgid as int, 2)) + le_bytes(b.s_first_ino as int, 4)) + le_bytes(b.s_inode_size as int, 2)) + le_bytes(b.s_block_group_nr as int, 2)) + le_bytes(b.s_feature_compat as int, 4)) + le_bytes(b.s_feature_incompat as int, 4)) + le_bytes(b.s_feature_ro_compat as int, 4)) + b.s_uuid@) + b.s_volume_name@) + b.s_last_mounted@) + le_bytes(b.s_algo_bitmap as int, 4)) + seq![b.s_prealloc_blocks]) + seq![b.s_prealloc_dir_blocks]) + le_bytes(b.s_padding1 as int, 2)) + b.s_journal_uuid@) + le_bytes(b.s_journal_inum as int, 4)) + le_bytes(b.s_journal_dev as int, 4)) + le_bytes(b.s_last_orphan as int, 4)), u32s_le_bytes(b.s_hash_seed@));
    lemma_concat_eq(((((((((((((((((((((((((((((((((((((((((le_bytes(a.s_inodes_count as int, 4) + le_bytes(a.s_blocks_count as int, 4)) + le_bytes(a.s_r_blocks_count as int, 4)) + le_bytes(a.s_free_blocks_count as int, 4)) + le_bytes(a.s_free_inodes_count as int, 4)) + le_bytes(a.s_first_data_block as int, 4)) + le_bytes(a.s_log_block_size as int, 4)) + le_bytes(a.s_log_frag_size as int, 4)) + le_bytes(a.s_blocks_per_group as int, 4)) + le_bytes(a.s_frags_per_group as int, 4)) + le_bytes(a.s_inodes_per_group as int, 4)) + le_bytes(a.s_mtime as int, 4)) + le_bytes(a.s_wtime as int, 4)) + le_bytes(a.s_mnt_count as int, 2)) + le_bytes(a.s_max_mnt_count as int, 2)) + le_bytes(a.s_magic as int, 2)) + le_bytes(a.s_state as int, 2)) + le_bytes(a.s_errors as int, 2)) + le_bytes(a.s_minor_rev_level as int, 2)) + le_bytes(a.s_lastcheck as int, 4)) + le_bytes(a.s_checkinterval as int, 4)) + le_bytes(a.s_creator_os as int, 4)) + le_bytes(a.s_rev_level as int, 4)) + le_bytes(a.s_def_resuid as int, 2)) + le_bytes(a.s_def_resgid as int, 2)) + le_bytes(a.s_first_ino as int, 4)) + le_bytes(a.s_inode_size as int, 2)) + le_bytes(a.s_block_group_nr as int, 2)) + le_bytes(a.s_feature_compat as int, 4)) + le_bytes(a.s_feature_incompat as int, 4)) + le_bytes(a.s_feature_ro_compat as int, 4)) + a.s_uuid@) + a.s_volume_name@) + a.s_last_mounted@) + le_bytes(a.s_algo_bitmap as int, 4)) + seq![a.s_prealloc_blocks]) + seq![a.s_prealloc_dir_blocks]) + le_bytes(a.s_padding1 as int, 2)) + a.s_journal_uuid@) + le_bytes(a.s_journal_inum as int, 4)) + le_bytes(a.s_journal_dev as int, 4)), le_bytes(a.s_last_orphan as int, 4), ((((((((((((((((((((((((((((((((((((((((le_bytes(b.s_inodes_count as int, 4) + le_bytes(b.s_blocks_count as int, 4)) + le_bytes(b.s_r_blocks_count as int, 4)) + le_bytes(b.s_free_blocks_count as int, 4)) + le_bytes(b.s_free_inodes_count as int, 4)) + le_bytes(b.s_first_data_block as int, 4)) + le_bytes(b.s_log_block_size as int, 4)) + le_bytes(b.s_log_frag_size as int, 4)) + le_bytes(b.s_blocks_per_group as int, 4)) + le_bytes(b.s_frags_per_group as int, 4)) + le_bytes(b.s_inodes_per_group as int, 4)) + le_bytes(b.s_mtime as int, 4)) + le_bytes(b.s_wtime as int, 4)) + le_bytes(b.s_mnt_count as int, 2)) + le_bytes(b.s_max_mnt_count as int, 2)) + le_bytes(b.s_magic as int, 2)) + le_bytes(b.s_state as int, 2)) + le_bytes(b.s_errors as int, 2)) + le_bytes(b.s_minor_rev_level as int, 2)) + le_bytes(b.s_lastcheck as int, 4)) + le_bytes(b.s_checkinterval as int, 4)) + le_bytes(b.s_creator_os as int, 4)) + le_bytes(b.s_rev_level as int, 4)) + le_bytes(b.s_def_resuid as int, 2)) + le_bytes(b.s_def_resgid as int, 2)) + le_bytes(b.s_first_ino as int, 4)) + le_bytes(b.s_inode_size as int, 2)) + le_bytes(b.s_block_group_nr as int, 2)) + le_bytes(b.s_feature_compat as int, 4)) + le_bytes(b.s_feature_incompat as int, 4)) + le_bytes(b.s_feature_ro_compat as int, 4)) + b.s_uuid@) + b.s_volume_name@) + b.s_last_mounted@) + le_bytes(b.s_algo_bitmap as int, 4)) + seq![b.s_prealloc_blocks]) + seq![b.s_prealloc_dir_blocks]) + le_bytes(b.s_padding1 as int, 2)) + b.s_journal_uuid@) + le_bytes(b.s_journal_inum as int, 4)) + le_bytes(b.s_journal_dev as int, 4)), le_bytes(b.s_last_orphan as int, 4));
    lemma_concat_eq((((((((((((((((((((((((((((((((((((((((le_bytes(a.s_inodes_count as int, 4) + le_bytes(a.s_blocks_count as int, 4)) + le_bytes(a.s_r_blocks_count as int, 4)) + le_bytes(a.s_free_blocks_count as int, 4)) + le_bytes(a.s_free_inodes_count as int, 4)) + le_bytes(a.s_first_data_block as int, 4)) + le_bytes(a.s_log_block_size as int, 4)) + le_bytes(a.s_log_frag_size as int, 4)) + le_bytes(a.s_blocks_per_group as int, 4)) + le_bytes(a.s_frags_per_group as int, 4)) + le_bytes(a.s_inodes_per_group as int, 4)) + le_bytes(a.s_mtime as int, 4)) + le_bytes(a.s_wtime as int, 4)) + le_bytes(a.s_mnt_count as int, 2)) + le_bytes(a.s_max_mnt_count as int, 2)) + le_bytes(a.s_magic as int, 2)) + le_bytes(a.s_state as int, 2)) + le_bytes(a.s_errors as int, 2)) + le_bytes(a.s_minor_rev_level as int, 2)) + le_bytes(a.s_lastcheck as int, 4)) + le_bytes(a.s_checkinterval as int, 4)) + le_bytes(a.s_creator_os as int, 4)) + le_bytes(a.s_rev_level as int, 4)) + le_bytes(a.s_def_resuid as int, 2)) + le_bytes(a.s_def_resgid as int, 2)) + le_bytes(a.s_first_ino as int, 4)) + le_bytes(a.s_inode_size as int, 2)) + le_bytes(a.s_block_group_nr as int, 2)) + le_bytes(a.s_feature_compat as int, 4)) + le_bytes(a.s_feature_incompat as int, 4)) + le_bytes(a.s_feature_ro_compat as int, 4)) + a.s_uuid@) + a.s_volume_name@) + a.s_last_mounted@) + le_bytes(a.s_algo_bitmap as int, 4)) + seq![a.s_prealloc_blocks]) + seq![a.s_prealloc_dir_blocks]) + le_bytes(a.s_padding1 as int, 2)) + a.s_journal_uuid@) + le_bytes(a.s_journal_inum as int, 4)), le_bytes(a.s_journal_dev as int, 4), (((((((((((((((((((((((((((((((((((((((le_bytes(b.s_inodes_count as int, 4) + le_bytes(b.s_blocks_count as int, 4)) + le_bytes(b.s_r_blocks_count as int, 4)) + le_bytes(b.s_free_blocks_count as int, 4)) + le_bytes(b.s_free_inodes_count as int, 4)) + le_bytes(b.s_first_data_block as int, 4)) + le_bytes(b.s_log_block_size as int, 4)) + le_bytes(b.s_log_frag_size as int, 4)) + le_bytes(b.s_blocks_per_group as int, 4)) + le_bytes(b.s_frags_per_group as int, 4)) + le_bytes(b.s_inodes_per_group as int, 4)) + le_bytes(b.s_mtime as int, 4)) + le_bytes(b.s_wtime as int, 4)) + le_bytes(b.s_mnt_count as int, 2)) + le_bytes(b.s_max_mnt_count as int, 2)) + le_bytes(b.s_magic as int, 2)) + le_bytes(b.s_state as int, 2)) + le_bytes(b.s_errors as int, 2)) + le_bytes(b.s_minor_rev_level as int, 2)) + le_bytes(b.s_lastcheck as int, 4)) + le_bytes(b.s_checkinterval as int, 4)) + le_bytes(b.s_creator_os as int, 4)) + le_bytes(b.s_rev_level as int, 4)) + le_bytes(b.s_def_resuid as int, 2)) + le_bytes(b.s_def_resgid as int, 2)) + le_bytes(b.s_first_ino as int, 4)) + le_bytes(b.s_inode_size as int, 2)) + le_bytes(b.s_block_group_nr as int, 2)) + le_bytes(b.s_feature_compat as int, 4)) + le_bytes(b.s_feature_incompat as int, 4)) + le_bytes(b.s_feature_ro_compat as int, 4)) + b.s_uuid@) + b.s_volume_name@) + b.s_last_mounted@) + le_bytes(b.s_algo_bitmap as int, 4)) + seq![b.s_prealloc_blocks]) + seq![b.s_prealloc_dir_blocks]) + le_bytes(b.s_padding1 as int, 2)) + b.s_journal_uuid@) + le_bytes(b.s_journal_inum as int, 4)), le_bytes(b.s_journal_dev as int, 4));
    lemma_concat_eq(((((((((((((((((((((((((((((((((((((((le_bytes(a.s_inodes_count as int, 4) + le_bytes(a.s_blocks_count as int, 4)) + le_bytes(a.s_r_blocks_count as int, 4)) + le_bytes(a.s_free_blocks_count as int, 4)) + le_bytes(a.s_free_inodes_count as int, 4)) + le_bytes(a.s_first_data_block as int, 4)) + le_bytes(a.s_log_block_size as int, 4)) + le_bytes(a.s_log_frag_size as int, 4)) + le_bytes(a.s_blocks_per_group as int, 4)) + le_bytes(a.s_frags_per_group as int, 4)) + le_bytes(a.s_inodes_per_group as int, 4)) + le_bytes(a.s_mtime as int, 4)) + le_bytes(a.s_wtime as int, 4)) + le_bytes(a.s_mnt_count as int, 2)) + le_bytes(a.s_max_mnt_count as int, 2)) + le_bytes(a.s_magic as int, 2)) + le_bytes(a.s_state as int, 2)) + le_bytes(a.s_errors as int, 2)) + le_bytes(a.s_minor_rev_level as int, 2)) + le_bytes(a.s_lastcheck as int, 4)) + le_bytes(a.s_checkinterval as int, 4)) + le_bytes(a.s_creator_os as int, 4)) + le_bytes(a.s_rev_level as int, 4)) + le_bytes(a.s_def_resuid as int, 2)) + le_bytes(a.s_def_resgid as int, 2)) + le_bytes(a.s_first_ino as int, 4)) + le_bytes(a.s_inode_size as int, 2)) + le_bytes(a.s_block_group_nr as int, 2)) + le_bytes(a.s_feature_compat as int, 4)) + le_bytes(a.s_feature_incompat as int, 4)) + le_bytes(a.s_feature_ro_compat as int, 4)) + a.s_uuid@) + a.s_volume_name@) + a.s_last_mounted@) + le_bytes(a.s_algo_bitmap as int, 4)) + seq![a.s_prealloc_blocks]) + seq![a.s_prealloc_dir_blocks]) + le_bytes(a.s_padding1 as int, 2)) + a.s_journal_uuid@), le_bytes(a.s_journal_inum as int, 4), ((((((((((((((((((((((((((((((((((((((le_bytes(b.s_inodes_count as int, 4) + le_bytes(b.s_blocks_count as int, 4)) + le_bytes(b.s_r_blocks_count as int, 4)) + le_bytes(b.s_free_blocks_count as int, 4)) + le_bytes(b.s_free_inodes_count as int, 4)) + le_bytes(b.s_first_data_block as int, 4)) + le_bytes(b.s_log_block_size as int, 4)) + le_bytes(b.s_log_frag_size as int, 4)) + le_bytes(b.s_blocks_per_group as int, 4)) + le_bytes(b.s_frags_per_group as int, 4)) + le_bytes(b.s_inodes_per_group as int, 4)) + le_bytes(b.s_mtime as int, 4)) + le_bytes(b.s_wtime as int, 4)) + le_bytes(b.s_mnt_count as int, 2)) + le_bytes(b.s_max_mnt_count as int, 2)) + le_bytes(b.s_magic as int, 2)) + le_bytes(b.s_state as int, 2)) + le_bytes(b.s_errors as int, 2)) + le_bytes(b.s_minor_rev_level as int, 2)) + le_bytes(b.s_lastcheck as int, 4)) + le_bytes(b.s_checkinterval as int, 4)) + le_bytes(b.s_creator_os as int, 4)) + le_bytes(b.s_rev_level as int, 4)) + le_bytes(b.s_def_resuid as int, 2)) + le_bytes(b.s_def_resgid as int, 2)) + le_bytes(b.s_first_ino as int, 4)) + le_bytes(b.s_inode_size as int, 2)) + le_bytes(b.s_block_group_nr as int, 2)) + le_bytes(b.s_feature_compat as int, 4)) + le_bytes(b.s_feature_incompat as int, 4)) + le_bytes(b.s_feature_ro_compat as int, 4)) + b.s_uuid@) + b.s_volume_name@) + b.s_last_mounted@) + le_bytes(b.s_algo_bitmap as int, 4)) + seq![b.s_prealloc_blocks]) + seq![b.s_prealloc_dir_blocks]) + le_bytes(b.s_padding1 as int, 2)) + b.s_journal_uuid@), le_bytes(b.s_journal_inum as int, 4));
    lemma_concat_eq((((((((((((((((((((((((((((((((((((((le_bytes(a.s_inodes_count as int, 4) + le_bytes(a.s_blocks_count as int, 4)) + le_bytes(a.s_r_blocks_count as int, 4)) + le_bytes(a.s_free_blocks_count as int, 4)) + le_bytes(a.s_free_inodes_count as int, 4)) + le_bytes(a.s_first_data_block as int, 4)) + le_bytes(a.s_log_block_size as int, 4)) + le_bytes(a.s_log_frag_size as int, 4)) + le_bytes(a.s_blocks_per_group as int, 4)) + le_bytes(a.s_frags_per_group as int, 4)) + le_bytes(a.s_inodes_per_group as int, 4)) + le_bytes(a.s_mtime as int, 4)) + le_bytes(a.s_wtime as int, 4)) + le_bytes(a.s_mnt_count as int, 2)) + le_bytes(a.s_max_mnt_count as int, 2)) + le_bytes(a.s_magic as int, 2)) + le_bytes(a.s_state as int, 2)) + le_bytes(a.s_errors as int, 2)) + le_bytes(a.s_minor_rev_level as int, 2)) + le_bytes(a.s_lastcheck as int, 4)) + le_bytes(a.s_checkinterval as int, 4)) + le_bytes(a.s_creator_os as int, 4)) + le_bytes(a.s_rev_level as int, 4)) + le_bytes(a.s_def_resuid as int, 2)) + le_bytes(a.s_def_resgid as int, 2)) + le_bytes(a.s_first_ino as int, 4)) + le_bytes(a.s_inode_size as int, 2)) + le_bytes(a.s_block_group_nr as int, 2)) + le_bytes(a.s_feature_compat as int, 4)) + le_bytes(a.s_feature_incompat as int, 4)) + le_bytes(a.s_feature_ro_compat as int, 4)) + a.s_uuid@) + a.s_volume_name@) + a.s_last_mounted@) + le_bytes(a.s_algo_bitmap as int, 4)) + seq![a.s_prealloc_blocks]) + seq![a.s_prealloc_dir_blocks]) + le_bytes(a.s_padding1 as int, 2)), a.s_journal_uuid@, (((((((((((((((((((((((((((((((((((((le_bytes(b.s_inodes_count as int, 4) + le_bytes(b.s_blocks_count as int, 4)) + le_bytes(b.s_r_blocks_count as int, 4)) + le_bytes(b.s_free_blocks_count as int, 4)) + le_bytes(b.s_free_inodes_count as int, 4)) + le_bytes(b.s_first_data_block as int, 4)) + le_bytes(b.s_log_block_size as int, 4)) + le_bytes(b.s_log_frag_size as int, 4)) + le_bytes(b.s_blocks_per_group as int, 4)) + le_bytes(b.s_frags_per_group as int, 4)) + le_bytes(b.s_inodes_per_group as int, 4)) + le_bytes(b.s_mtime as int, 4)) + le_bytes(b.s_wtime as int, 4)) + le_bytes(b.s_mnt_count as int, 2)) + le_bytes(b.s_max_mnt_count as int, 2)) + le_bytes(b.s_magic as int, 2)) + le_bytes(b.s_state as int, 2)) + le_bytes(b.s_errors as int, 2)) + le_bytes(b.s_minor_rev_level as int, 2)) + le_bytes(b.s_lastcheck as int, 4)) + le_bytes(b.s_checkinterval as int, 4)) + le_bytes(b.s_creator_os as int, 4)) + le_bytes(b.s_rev_level as int, 4)) + le_bytes(b.s_def_resuid as int, 2)) + le_bytes(b.s_def_resgid as int, 2)) + le_bytes(b.s_first_ino as int, 4)) + le_bytes(b.s_inode_size as int, 2)) + le_bytes(b.s_block_group_nr as int, 2)) + le_bytes(b.s_feature_compat as int, 4)) + le_bytes(b.s_feature_incompat as int, 4)) + le_bytes(b.s_feature_ro_compat as int, 4)) + b.s_uuid@) + b.s_volume_name@) + b.s_last_mounted@) + le_bytes(b.s_algo_bitmap as int, 4)) + seq![b.s_prealloc_blocks]) + seq![b.s_prealloc_dir_blocks]) + le_bytes(b.s_padding1 as int, 2)), b.s_journal_uuid@);
    lemma_concat_eq(((((((((((((((((((((((((((((((((((((le_bytes(a.s_inodes_count as int, 4) + le_bytes(a.s_blocks_count as int, 4)) + le_bytes(a.s_r_blocks_count as int, 4)) + le_bytes(a.s_free_blocks_count as int, 4)) + le_bytes(a.s_free_inodes_count as int, 4)) + le_bytes(a.s_first_data_block as int, 4)) + le_bytes(a.s_log_block_size as int, 4)) + le_bytes(a.s_log_frag_size as int, 4)) + le_bytes(a.s_blocks_per_group as int, 4)) + le_bytes(a.s_frags_per_group as int, 4)) + le_bytes(a.s_inodes_per_group as int, 4)) + le_bytes(a.s_mtime as int, 4)) + le_bytes(a.s_wtime as int, 4)) + le_bytes(a.s_mnt_count as int, 2)) + le_bytes(a.s_max_mnt_count as int, 2)) + le_bytes(a.s_magic as int, 2)) + le_bytes(a.s_state as int, 2)) + le_bytes(a.s_errors as int, 2)) + le_bytes(a.s_minor_rev_level as int, 2)) + le_bytes(a.s_lastcheck as int, 4)) + le_bytes(a.s_checkinterval as int, 4)) + le_bytes(a.s_creator_os as int, 4)) + le_bytes(a.s_rev_level as int, 4)) + le_bytes(a.s_def_resuid as int, 2)) + le_bytes(a.s_def_resgid as int, 2)) + le_bytes(a.s_first_ino as int, 4)) + le_bytes(a.s_inode_size as int, 2)) + le_bytes(a.s_block_group_nr as int, 2)) + le_bytes(a.s_feature_compat as int, 4)) + le_bytes(a.s_feature_incompat as int, 4)) + le_bytes(a.s_feature_ro_compat as int, 4)) + a.s_uuid@) + a.s_volume_name@) + a.s_last_mounted@) + le_bytes(a.s_algo_bitmap as int, 4)) + seq![a.s_prealloc_blocks]) + seq![a.s_prealloc_dir_blocks]), le_bytes(a.s_padding1 as int, 2), ((((((((((((((((((((((((((((((((((((le_bytes(b.s_inodes_count as int, 4) + le_bytes(b.s_blocks_count as int, 4)) + le_bytes(b.s_r_blocks_count as int, 4)) + le_bytes(b.s_free_blocks_count as int, 4)) + le_bytes(b.s_free_inodes_count as int, 4)) + le_bytes(b.s_first_data_block as int, 4)) + le_bytes(b.s_log_block_size as int, 4)) + le_bytes(b.s_log_frag_size as int, 4)) + le_bytes(b.s_blocks_per_group as int, 4)) + le_bytes(b.s_frags_per_group as int, 4)) + le_bytes(b.s_inodes_per_group as int, 4)) + le_bytes(b.s_mtime as int, 4)) + le_bytes(b.s_wtime as int, 4)) + le_bytes(b.s_mnt_count as int, 2)) + le_bytes(b.s_max_mnt_count as int, 2)) + le_bytes(b.s_magic as int, 2)) + le_bytes(b.s_state as int, 2)) + le_bytes(b.s_errors as int, 2)) + le_bytes(b.s_minor_rev_level as int, 2)) + le_bytes(b.s_lastcheck as int, 4)) + le_bytes(b.s_checkinterval as int, 4)) + le_bytes(b.s_creator_os as int, 4)) + le_bytes(b.s_rev_level as int, 4)) + le_bytes(b.s_def_resuid as int, 2)) + le_bytes(b.s_def_resgid as int, 2)) + le_bytes(b.s_first_ino as int, 4)) + le_bytes(b.s_inode_size as int, 2)) + le_bytes(b.s_block_group_nr as int, 2)) + le_bytes(b.s_feature_compat as int, 4)) + le_bytes(b.s_feature_incompat as int, 4)) + le_bytes(b.s_feature_ro_compat as int, 4)) + b.s_uuid@) + b.s_volume_name@) + b.s_last_mounted@) + le_bytes(b.s_algo_bitmap as int, 4)) + seq![b.s_prealloc_blocks]) + seq![b.s_prealloc_dir_blocks]), le_bytes(b.s_padding1 as int, 2));
    lemma_concat_eq((((((((((((((((((((((((((((((((((((le_bytes(a.s_inodes_count as int, 4) + le_bytes(a.s_blocks_count as int, 4)) + le_bytes(a.s_r_blocks_count as int, 4)) + le_bytes(a.s_free_blocks_count as int, 4)) + le_bytes(a.s_free_inodes_count as int, 4)) + le_bytes(a.s_first_data_block as int, 4)) + le_bytes(a.s_log_block_size as int, 4)) + le_bytes(a.s_log_frag_size as int, 4)) + le_bytes(a.s_blocks_per_group as int, 4)) + le_bytes(a.s_frags_per_group as int, 4)) + le_bytes(a.s_inodes_per_group as int, 4)) + le_bytes(a.s_mtime as int, 4)) + le_bytes(a.s_wtime as int, 4)) + le_bytes(a.s_mnt_count as int, 2)) + le_bytes(a.s_max_mnt_count as int, 2)) + le_bytes(a.s_magic as int, 2)) + le_bytes(a.s_state as int, 2)) + le_bytes(a.s_errors as int, 2)) + le_bytes(a.s_minor_rev_level as int, 2)) + le_bytes(a.s_lastcheck as int, 4)) + le_bytes(a.s_checkinterval as int, 4)) + le_bytes(a.s_creator_os as int, 4)) + le_bytes(a.s_rev_level as int, 4)) + le_bytes(a.s_def_resuid as int, 2)) + le_bytes(a.s_def_resgid as int, 2)) + le_bytes(a.s_first_ino as int, 4)) + le_bytes(a.s_inode_size as int, 2)) + le_bytes(a.s_block_group_nr as int, 2)) + le_bytes(a.s_feature_compat as int, 4)) + le_bytes(a.s_feature_incompat as int, 4)) + le_bytes(a.s_feature_ro_compat as int, 4)) + a.s_uuid@) + a.s_volume_name@) + a.s_last_mounted@) + le_bytes(a.s_algo_bitmap as int, 4)) + seq![a.s_prealloc_blocks]), seq![a.s_prealloc_dir_blocks], (((((((((((((((((((((((((((((((((((le_bytes(b.s_inodes_count as int, 4) + le_bytes(b.s_blocks_count as int, 4)) + le_bytes(b.s_r_blocks_count as int, 4)) + le_bytes(b.s_free_blocks_count as int, 4)) + le_bytes(b.s_free_inodes_count as int, 4)) + le_bytes(b.s_first_data_block as int, 4)) + le_bytes(b.s_log_block_size as int, 4)) + le_bytes(b.s_log_frag_size as int, 4)) + le_bytes(b.s_blocks_per_group as int, 4)) + le_bytes(b.s_frags_per_group as int, 4)) + le_bytes(b.s_inodes_per_group as int, 4)) + le_bytes(b.s_mtime as int, 4)) + le_bytes(b.s_wtime as int, 4)) + le_bytes(b.s_mnt_count as int, 2)) + le_bytes(b.s_max_mnt_count as int, 2)) + le_bytes(b.s_magic as int, 2)) + le_bytes(b.s_state as int, 2)) + le_bytes(b.s_errors as int, 2)) + le_bytes(b.s_minor_rev_level as int, 2)) + le_bytes(b.s_lastcheck as int, 4)) + le_bytes(b.s_checkinterval as int, 4)) + le_bytes(b.s_creator_os as int, 4)) + le_bytes(b.s_rev_level as int, 4)) + le_bytes(b.s_def_resuid as int, 2)) + le_bytes(b.s_def_resgid as int, 2)) + le_bytes(b.s_first_ino as int, 4)) + le_bytes(b.s_inode_size as int, 2)) + le_bytes(b.s_block_group_nr as int, 2)) + le_bytes(b.s_feature_compat as int, 4)) + le_bytes(b.s_feature_incompat as int, 4)) + le_bytes(b.s_feature_ro_compat as int, 4)) + b.s_uuid@) + b.s_volume_name@) + b.s_last_mounted@) + le_bytes(b.s_algo_bitmap as int, 4)) + seq![b.s_prealloc_blocks]), seq![b.s_prealloc_dir_blocks]);
    lemma_concat_eq(((((((((((((((((((((((((((((((((((le_bytes(a.s_inodes_count as int, 4) + le_bytes(a.s_blocks_count as int, 4)) + le_bytes(a.s_r_blocks_count as int, 4)) + le_bytes(a.s_free_blocks_count as int, 4)) + le_bytes(a.s_free_inodes_count as int, 4)) + le_bytes(a.s_first_data_block as int, 4)) + le_bytes(a.s_log_block_size as int, 4)) + le_bytes(a.s_log_frag_size as int, 4)) + le_bytes(a.s_blocks_per_group as int, 4)) + le_bytes(a.s_frags_per_group as int, 4)) + le_bytes(a.s_inodes_per_group as int, 4)) + le_bytes(a.s_mtime as int, 4)) + le_bytes(a.s_wtime as int, 4)) + le_bytes(a.s_mnt_count as int, 2)) + le_bytes(a.s_max_mnt_count as int, 2)) + le_bytes(a.s_magic as int, 2)) + le_bytes(a.s_state as int, 2)) + le_bytes(a.s_errors as int, 2)) + le_bytes(a.s_minor_rev_level as int, 2)) + le_bytes(a.s_lastcheck as int, 4)) + le_bytes(a.s_checkinterval as int, 4)) + le_bytes(a.s_creator_os as int, 4)) + le_bytes(a.s_rev_level as int, 4)) + le_bytes(a.s_def_resuid as int, 2)) + le_bytes(a.s_def_resgid as int, 2)) + le_bytes(a.s_first_ino as int, 4)) + le_bytes(a.s_inode_size as int, 2)) + le_bytes(a.s_block_group_nr as int, 2)) + le_bytes(a.s_feature_compat as int, 4)) + le_bytes(a.s_feature_incompat as int, 4)) + le_bytes(a.s_feature_ro_compat as int, 4)) + a.s_uuid@) + a.s_volume_name@) + a.s_last_mounted@) + le_bytes(a.s_algo_bitmap as int, 4)), seq![a.s_prealloc_blocks], ((((((((((((((((((((((((((((((((((le_bytes(b.s_inodes_count as int, 4) + le_bytes(b.s_blocks_count as int, 4)) + le_bytes(b.s_r_blocks_count as int, 4)) + le_bytes(b.s_free_blocks_count as int, 4)) + le_bytes(b.s_free_inodes_count as int, 4)) + le_bytes(b.s_first_data_block as int, 4)) + le_bytes(b.s_log_block_size as int, 4)) + le_bytes(b.s_log_frag_size as int, 4)) + le_bytes(b.s_blocks_per_group as int, 4)) + le_bytes(b.s_frags_per_group as int, 4)) + le_bytes(b.s_inodes_per_group as int, 4)) + le_bytes(b.s_mtime as int, 4)) + le_bytes(b.s_wtime as int, 4)) + le_bytes(b.s_mnt_count as int, 2)) + le_bytes(b.s_max_mnt_count as int, 2)) + le_bytes(b.s_magic as int, 2)) + le_bytes(b.s_state as int, 2)) + le_bytes(b.s_errors as int, 2)) + le_bytes(b.s_minor_rev_level as int, 2)) + le_bytes(b.s_lastcheck as int, 4)) + le_bytes(b.s_checkinterval as int, 4)) + le_bytes(b.s_creator_os as int, 4)) + le_bytes(b.s_rev_level as int, 4)) + le_bytes(b.s_def_resuid as int, 2)) + le_bytes(b.s_def_resgid as int, 2)) + le_bytes(b.s_first_ino as int, 4)) + le_bytes(b.s_inode_size as int, 2)) + le_bytes(b.s_block_group_nr as int, 2)) + le_bytes(b.s_feature_compat as int, 4)) + le_bytes(b.s_feature_incompat as int, 4)) + le_bytes(b.s_feature_ro_compat as int, 4)) + b.s_uuid@) + b.s_volume_name@) + b.s_last_mounted@) + le_bytes(b.s_algo_bitmap as int, 4)), seq![b.s_prealloc_blocks]);
    lemma_concat_eq((((((((((((((((((((((((((((((((((le_bytes(a.s_inodes_count as int, 4) + le_bytes(a.s_blocks_count as int, 4)) + le_bytes(a.s_r_blocks_count as int, 4)) + le_bytes(a.s_free_blocks_count as int, 4)) + le_bytes(a.s_free_inodes_count as int, 4)) + le_bytes(a.s_first_data_block as int, 4)) + le_bytes(a.s_log_block_size as int, 4)) + le_bytes(a.s_log_frag_size as int, 4)) + le_bytes(a.s_blocks_per_group as int, 4)) + le_bytes(a.s_frags_per_group as int, 4)) + le_bytes(a.s_inodes_per_group as int, 4)) + le_bytes(a.s_mtime as int, 4)) + le_bytes(a.s_wtime as int, 4)) + le_bytes(a.s_mnt_count as int, 2)) + le_bytes(a.s_max_mnt_count as int, 2)) + le_bytes(a.s_magic as int, 2)) + le_bytes(a.s_state as int, 2)) + le_bytes(a.s_errors as int, 2)) + le_bytes(a.s_minor_rev_level as int, 2)) + le_bytes(a.s_lastcheck as int, 4)) + le_bytes(a.s_checkinterval as int, 4)) + le_bytes(a.s_creator_os as int, 4)) + le_bytes(a.s_rev_level as int, 4)) + le_bytes(a.s_def_resuid as int, 2)) + le_bytes(a.s_def_resgid as int, 2)) + le_bytes(a.s_first_ino as int, 4)) + le_bytes(a.s_inode_size as int, 2)) + le_bytes(a.s_block_group_nr as int, 2)) + le_bytes(a.s_feature_compat as int, 4)) + le_bytes(a.s_feature_incompat as int, 4)) + le_bytes(a.s_feature_ro_compat as int, 4)) + a.s_uuid@) + a.s_volume_name@) + a.s_last_mounted@), le_bytes(a.s_algo_bitmap as int, 4), (((((((((((((((((((((((((((((((((le_bytes(b.s_inodes_count as int, 4) + le_bytes(b.s_blocks_count as int, 4)) + le_bytes(b.s_r_blocks_count as int, 4)) + le_bytes(b.s_free_blocks_count as int, 4)) + le_bytes(b.s_free_inodes_count as int, 4)) + le_bytes(b.s_first_data_block as int, 4)) + le_bytes(b.s_log_block_size as int, 4)) + le_bytes(b.s_log_frag_size as int, 4)) + le_bytes(b.s_blocks_per_group as int, 4)) + le_bytes(b.s_frags_per_group as int, 4)) + le_bytes(b.s_inodes_per_group as int, 4)) + le_bytes(b.s_mtime as int, 4)) + le_bytes(b.s_wtime as int, 4)) + le_bytes(b.s_mnt_count as int, 2)) + le_bytes(b.s_max_mnt_count as int, 2)) + le_bytes(b.s_magic as int, 2)) + le_bytes(b.s_state as int, 2)) + le_bytes(b.s_errors as int, 2)) + le_bytes(b.s_minor_rev_level as int, 2)) + le_bytes(b.s_lastcheck as int, 4)) + le_bytes(b.s_checkinterval as int, 4)) + le_bytes(b.s_creator_os as int, 4)) + le_bytes(b.s_rev_level as int, 4)) + le_bytes(b.s_def_resuid as int, 2)) + le_bytes(b.s_def_resgid as int, 2)) + le_bytes(b.s_first_ino as int, 4)) + le_bytes(b.s_inode_size as int, 2)) + le_bytes(b.s_block_group_nr as int, 2)) + le_bytes(b.s_feature_compat as int, 4)) + le_bytes(b.s_feature_incompat as int, 4)) + le_bytes(b.s_feature_ro_compat as int, 4)) + b.s_uuid@) + b.s_volume_name@) + b.s_last_mounted@), le_bytes(b.s_algo_bitmap as int, 4));
    lemma_concat_eq(((((((((((((((((((((((((((((((((le_bytes(a.s_inodes_count as int, 4) + le_bytes(a.s_blocks_count as int, 4)) + le_bytes(a.s_r_blocks_count as int, 4)) + le_bytes(a.s_free_blocks_count as int, 4)) + le_bytes(a.s_free_inodes_count as int, 4)) + le_bytes(a.s_first_data_block as int, 4)) + le_bytes(a.s_log_block_size as int, 4)) + le_bytes(a.s_log_frag_size as int, 4)) + le_bytes(a.s_blocks_per_group as int, 4)) + le_bytes(a.s_frags_per_group as int, 4)) + le_bytes(a.s_inodes_per_group as int, 4)) + le_bytes(a.s_mtime as int, 4)) + le_bytes(a.s_wtime as int, 4)) + le_bytes(a.s_mnt_count as int, 2)) + le_bytes(a.s_max_mnt_count as int, 2)) + le_bytes(a.s_magic as int, 2)) + le_bytes(a.s_state as int, 2)) + le_bytes(a.s_errors as int, 2)) + le_bytes(a.s_minor_rev_level as int, 2)) + le_bytes(a.s_lastcheck as int, 4)) + le_bytes(a.s_checkinterval as int, 4)) + le_bytes(a.s_creator_os as int, 4)) + le_bytes(a.s_rev_level as int, 4)) + le_bytes(a.s_def_resuid as int, 2)) + le_bytes(a.s_def_resgid as int, 2)) + le_bytes(a.s_first_ino as int, 4)) + le_bytes(a.s_inode_size as int, 2)) + le_bytes(a.s_block_group_nr as int, 2)) + le_bytes(a.s_feature_compat as int, 4)) + le_bytes(a.s_feature_incompat as int, 4)) + le_bytes(a.s_feature_ro_compat as int, 4)) + a.s_uuid@) + a.s_volume_name@), a.s_last_mounted@, ((((((((((((((((((((((((((((((((le_bytes(b.s_inodes_count as int, 4) + le_bytes(b.s_blocks_count as int, 4)) + le_bytes(b.s_r_blocks_count as int, 4)) + le_bytes(b.s_free_blocks_count as int, 4)) + le_bytes(b.s_free_inodes_count as int, 4)) + le_bytes(b.s_first_data_block as int, 4)) + le_bytes(b.s_log_block_size as int, 4)) + le_bytes(b.s_log_frag_size as int, 4)) + le_bytes(b.s_blocks_per_group as int, 4)) + le_bytes(b.s_frags_per_group as int, 4)) + le_bytes(b.s_inodes_per_group as int, 4)) + le_bytes(b.s_mtime as int, 4)) + le_bytes(b.s_wtime as int, 4)) + le_bytes(b.s_mnt_count as int, 2)) + le_bytes(b.s_max_mnt_count as int, 2)) + le_bytes(b.s_magic as int, 2)) + le_bytes(b.s_state as int, 2)) + le_bytes(b.s_errors as int, 2)) + le_bytes(b.s_minor_rev_level as int, 2)) + le_bytes(b.s_lastcheck as int, 4)) + le_bytes(b.s_checkinterval as int, 4)) + le_bytes(b.s_creator_os as int, 4)) + le_bytes(b.s_rev_level as int, 4)) + le_bytes(b.s_def_resuid as int, 2)) + le_bytes(b.s_def_resgid as int, 2)) + le_bytes(b.s_first_ino as int, 4)) + le_bytes(b.s_inode_size as int, 2)) + le_bytes(b.s_block_group_nr as int, 2)) + le_bytes(b.s_feature_compat as int, 4)) + le_bytes(b.s_feature_incompat as int, 4)) + le_bytes(b.s_feature_ro_compat as int, 4)) + b.s_uuid@) + b.s_volume_name@), b.s_last_mounted@);
    lemma_concat_eq((((((((((((((((((((((((((((((((le_bytes(a.s_inodes_count as int, 4) + le_bytes(a.s_blocks_count as int, 4)) + le_bytes(a.s_r_blocks_count as int, 4)) + le_bytes(a.s_free_blocks_count as int, 4)) + le_bytes(a.s_free_inodes_count as int, 4)) + le_bytes(a.s_first_data_block as int, 4)) + le_bytes(a.s_log_block_size as int, 4)) + le_bytes(a.s_log_frag_size as int, 4)) + le_bytes(a.s_blocks_per_group as int, 4)) + le_bytes(a.s_frags_per_group as int, 4)) + le_bytes(a.s_inodes_per_group as int, 4)) + le_bytes(a.s_mtime as int, 4)) + le_bytes(a.s_wtime as int, 4)) + le_bytes(a.s_mnt_count as int, 2)) + le_bytes(a.s_max_mnt_count as int, 2)) + le_bytes(a.s_magic as int, 2)) + le_bytes(a.s_state as int, 2)) + le_bytes(a.s_errors as int, 2)) + le_bytes(a.s_minor_rev_level as int, 2)) + le_bytes(a.s_lastcheck as int, 4)) + le_bytes(a.s_checkinterval as int, 4)) + le_bytes(a.s_creator_os as int, 4)) + le_bytes(a.s_rev_level as int, 4)) + le_bytes(a.s_def_resuid as int, 2)) + le_bytes(a.s_def_resgid as int, 2)) + le_bytes(a.s_first_ino as int, 4)) + le_bytes(a.s_inode_size as int, 2)) + le_bytes(a.s_block_group_nr as int, 2)) + le_bytes(a.s_feature_compat as int, 4)) + le_bytes(a.s_feature_incompat as int, 4)) + le_bytes(a.s_feature_ro_compat as int, 4)) + a.s_uuid@), a.s_volume_name@, (((((((((((((((((((((((((((((((le_bytes(b.s_inodes_count as int, 4) + le_bytes(b.s_blocks_count as int, 4)) + le_bytes(b.s_r_blocks_count as int, 4)) + le_bytes(b.s_free_blocks_count as int, 4)) + le_bytes(b.s_free_inodes_count as int, 4)) + le_bytes(b.s_first_data_block as int, 4)) + le_bytes(b.s_log_block_size as int, 4)) + le_bytes(b.s_log_frag_size as int, 4)) + le_bytes(b.s_blocks_per_group as int, 4)) + le_bytes(b.s_frags_per_group as int, 4)) + le_bytes(b.s_inodes_per_group as int, 4)) + le_bytes(b.s_mtime as int, 4)) + le_bytes(b.s_wtime as int, 4)) + le_bytes(b.s_mnt_count as int, 2)) + le_bytes(b.s_max_mnt_count as int, 2)) + le_bytes(b.s_magic as int, 2)) + le_bytes(b.s_state as int, 2)) + le_bytes(b.s_errors as int, 2)) + le_bytes(b.s_minor_rev_level as int, 2)) + le_bytes(b.s_lastcheck as int, 4)) + le_bytes(b.s_checkinterval as int, 4)) + le_bytes(b.s_creator_os as int, 4)) + le_bytes(b.s_rev_level as int, 4)) + le_bytes(b.s_def_resuid as int, 2)) + le_bytes(b.s_def_resgid as int, 2)) + le_bytes(b.s_first_ino as int, 4)) + le_bytes(b.s_inode_size as int, 2)) + le_bytes(b.s_block_group_nr as int, 2)) + le_bytes(b.s_feature_compat as int, 4)) + le_bytes(b.s_feature_incompat as int, 4)) + le_bytes(b.s_feature_ro_compat as int, 4)) + b.s_uuid@), b.s_volume_name@);
    lemma_concat_eq(((((((((((((((((((((((((((((((le_bytes(a.s_inodes_count as int, 4) + le_bytes(a.s_blocks_count as int, 4)) + le_bytes(a.s_r_blocks_count as int, 4)) + le_bytes(a.s_free_blocks_count as int, 4)) + le_bytes(a.s_free_inodes_count as int, 4)) + le_bytes(a.s_first_data_block as int, 4)) + le_bytes(a.s_log_block_size as int, 4)) + le_bytes(a.s_log_frag_size as int, 4)) + le_bytes(a.s_blocks_per_group as int, 4)) + le_bytes(a.s_frags_per_group as int, 4)) + le_bytes(a.s_inodes_per_group as int, 4)) + le_bytes(a.s_mtime as int, 4)) + le_bytes(a.s_wtime as int, 4)) + le_bytes(a.s_mnt_count as int, 2)) + le_bytes(a.s_max_mnt_count as int, 2)) + le_bytes(a.s_magic as int, 2)) + le_bytes(a.s_state as int, 2)) + le_bytes(a.s_errors as int, 2)) + le_bytes(a.s_minor_rev_level as int, 2)) + le_bytes(a.s_lastcheck as int, 4)) + le_bytes(a.s_checkinterval as int, 4)) + le_bytes(a.s_creator_os as int, 4)) + le_bytes(a.s_rev_level as int, 4)) + le_bytes(a.s_def_resuid as int, 2)) + le_bytes(a.s_def_resgid as int, 2)) + le_bytes(a.s_first_ino as int, 4)) + le_bytes(a.s_inode_size as int, 2)) + le_bytes(a.s_block_group_nr as int, 2)) + le_bytes(a.s_feature_compat as int, 4)) + le_bytes(a.s_feature_incompat as int, 4)) + le_bytes(a.s_feature_ro_compat as int, 4)), a.s_uuid@, ((((((((((((((((((((((((((((((le_bytes(b.s_inodes_count as int, 4) + le_bytes(b.s_blocks_count as int, 4)) + le_bytes(b.s_r_blocks_count as int, 4)) + le_bytes(b.s_free_blocks_count as int, 4)) + le_bytes(b.s_free_inodes_count as int, 4)) + le_bytes(b.s_first_data_block as int, 4)) + le_bytes(b.s_log_block_size as int, 4)) + le_bytes(b.s_log_frag_size as int, 4)) + le_bytes(b.s_blocks_per_group as int, 4)) + le_bytes(b.s_frags_per_group as int, 4)) + le_bytes(b.s_inodes_per_group as int, 4)) + le_bytes(b.s_mtime as int, 4)) + le_bytes(b.s_wtime as int, 4)) + le_bytes(b.s_mnt_count as int, 2)) + le_bytes(b.s_max_mnt_count as int, 2)) + le_bytes(b.s_magic as int, 2)) + le_bytes(b.s_state as int, 2)) + le_bytes(b.s_errors as int, 2)) + le_bytes(b.s_minor_rev_level as int, 2)) + le_bytes(b.s_lastcheck as int, 4)) + le_bytes(b.s_checkinterval as int, 4)) + le_bytes(b.s_creator_os as int, 4)) + le_bytes(b.s_rev_level as int, 4)) + le_bytes(b.s_def_resuid as int, 2)) + le_bytes(b.s_def_resgid as int, 2)) + le_bytes(b.s_first_ino as int, 4)) + le_bytes(b.s_inode_size as int, 2)) + le_bytes(b.s_block_group_nr as int, 2)) + le_bytes(b.s_feature_compat as int, 4)) + le_bytes(b.s_feature_incompat as int, 4)) + le_bytes(b.s_feature_ro_compat as int, 4)), b.s_uuid@);
    lemma_concat_eq((((((((((((((((((((((((((((((le_bytes(a.s_inodes_count as int, 4) + le_bytes(a.s_blocks_count as int, 4)) + le_bytes(a.s_r_blocks_count as int, 4)) + le_bytes(a.s_free_blocks_count as int, 4)) + le_bytes(a.s_free_inodes_count as int, 4)) + le_bytes(a.s_first_data_block as int, 4)) + le_bytes(a.s_log_block_size as int, 4)) + le_bytes(a.s_log_frag_size as int, 4)) + le_bytes(a.s_blocks_per_group as int, 4)) + le_bytes(a.s_frags_per_group as int, 4)) + le_bytes(a.s_inodes_per_group as int, 4)) + le_bytes(a.s_mtime as int, 4)) + le_bytes(a.s_wtime as int, 4)) + le_bytes(a.s_mnt_count as int, 2)) + le_bytes(a.s_max_mnt_count as int, 2)) + le_bytes(a.s_magic as int, 2)) + le_bytes(a.s_state as int, 2)) + le_bytes(a.s_errors as int, 2)) + le_bytes(a.s_minor_rev_level as int, 2)) + le_bytes(a.s_lastcheck as int, 4)) + le_bytes(a.s_checkinterval as int, 4)) + le_bytes(a.s_creator_os as int, 4)) + le_bytes(a.s_rev_level as int, 4)) + le_bytes(a.s_def_resuid as int, 2)) + le_bytes(a.s_def_resgid as int, 2)) + le_bytes(a.s_first_ino as int, 4)) + le_bytes(a.s_inode_size as int, 2)) + le_bytes(a.s_block_group_nr as int, 2)) + le_bytes(a.s_feature_compat as int, 4)) + le_bytes(a.s_feature_incompat as int, 4)), le_bytes(a.s_feature_ro_compat as int, 4), (((((((((((((((((((((((((((((le_bytes(b.s_inodes_count as int, 4) + le_bytes(b.s_blocks_count as int, 4)) + le_bytes(b.s_r_blocks_count as int, 4)) + le_bytes(b.s_free_blocks_count as int, 4)) + le_bytes(b.s_free_inodes_count as int, 4)) + le_bytes(b.s_first_data_block as int, 4)) + le_bytes(b.s_log_block_size as int, 4)) + le_bytes(b.s_log_frag_size as int, 4)) + le_bytes(b.s_blocks_per_group as int, 4)) + le_bytes(b.s_frags_per_group as int, 4)) + le_bytes(b.s_inodes_per_group as int, 4)) + le_bytes(b.s_mtime as int, 4)) + le_bytes(b.s_wtime as int, 4)) + le_bytes(b.s_mnt_count as int, 2)) + le_bytes(b.s_max_mnt_count as int, 2)) + le_bytes(b.s_magic as int, 2)) + le_bytes(b.s_state as int, 2)) + le_bytes(b.s_errors as int, 2)) + le_bytes(b.s_minor_rev_level as int, 2)) + le_bytes(b.s_lastcheck as int, 4)) + le_bytes(b.s_checkinterval as int, 4)) + le_bytes(b.s_creator_os as int, 4)) + le_bytes(b.s_rev_level as int, 4)) + le_bytes(b.s_def_resuid as int, 2)) + le_bytes(b.s_def_resgid as int, 2)) + le_bytes(b.s_first_ino as int, 4)) + le_bytes(b.s_inode_size as int, 2)) + le_bytes(b.s_block_group_nr as int, 2)) + le_bytes(b.s_feature_compat as int, 4)) + le_bytes(b.s_feature_incompat as int, 4)), le_bytes(b.s_feature_ro_compat as int, 4));
    lemma_concat_eq(((((((((((((((((((((((((((((le_bytes(a.s_inodes_count as int, 4) + le_bytes(a.s_blocks_count as int, 4)) + le_bytes(a.s_r_blocks_count as int, 4)) + le_bytes(a.s_free_blocks_count as int, 4)) + le_bytes(a.s_free_inodes_count as int, 4)) + le_bytes(a.s_first_data_block as int, 4)) + le_bytes(a.s_log_block_size as int, 4)) + le_bytes(a.s_log_frag_size as int, 4)) + le_bytes(a.s_blocks_per_group as int, 4)) + le_bytes(a.s_frags_per_group as int, 4)) + le_bytes(a.s_inodes_per_group as int, 4)) + le_bytes(a.s_mtime as int, 4)) + le_bytes(a.s_wtime as int, 4)) + le_bytes(a.s_mnt_count as int, 2)) + le_bytes(a.s_max_mnt_count as int, 2)) + le_bytes(a.s_magic as int, 2)) + le_bytes(a.s_state as int, 2)) + le_bytes(a.s_errors as int, 2)) + le_bytes(a.s_minor_rev_level as int, 2)) + le_bytes(a.s_lastcheck as int, 4)) + le_bytes(a.s_checkinterval as int, 4)) + le_bytes(a.s_creator_os as int, 4)) + le_bytes(a.s_rev_level as int, 4)) + le_bytes(a.s_def_resuid as int, 2)) + le_bytes(a.s_def_resgid as int, 2)) + le_bytes(a.s_first_ino as int, 4)) + le_bytes(a.s_inode_size as int, 2)) + le_bytes(a.s_block_group_nr as int, 2)) + le_bytes(a.s_feature_compat as int, 4)), le_bytes(a.s_feature_incompat as int, 4), ((((((((((((((((((((((((((((le_bytes(b.s_inodes_count as int, 4) + le_bytes(b.s_blocks_count as int, 4)) + le_bytes(b.s_r_blocks_count as int, 4)) + le_bytes(b.s_free_blocks_count as int, 4)) + le_bytes(b.s_free_inodes_count as int, 4)) + le_bytes(b.s_first_data_block as int, 4)) + le_bytes(b.s_log_block_size as int, 4)) + le_bytes(b.s_log_frag_size as int, 4)) + le_bytes(b.s_blocks_per_group as int, 4)) + le_bytes(b.s_frags_per_group as int, 4)) + le_bytes(b.s_inodes_per_group as int, 4)) + le_bytes(b.s_mtime as int, 4)) + le_bytes(b.s_wtime as int, 4)) + le_bytes(b.s_mnt_count as int, 2)) + le_bytes(b.s_max_mnt_count as int, 2)) + le_bytes(b.s_magic as int, 2)) + le_bytes(b.s_state as int, 2)) + le_bytes(b.s_errors as int, 2)) + le_bytes(b.s_minor_rev_level as int, 2)) + le_bytes(b.s_lastcheck as int, 4)) + le_bytes(b.s_checkinterval as int, 4)) + le_bytes(b.s_creator_os as int, 4)) + le_bytes(b.s_rev_level as int, 4)) + le_bytes(b.s_def_resuid as int, 2)) + le_bytes(b.s_def_resgid as int, 2)) + le_bytes(b.s_first_ino as int, 4)) + le_bytes(b.s_inode_size as int, 2)) + le_bytes(b.s_block_group_nr as int, 2)) + le_bytes(b.s_feature_compat as int, 4)), le_bytes(b.s_feature_incompat as int, 4));
    lemma_concat_eq((((((((((((((((((((((((((((le_bytes(a.s_inodes_count as int, 4) + le_bytes(a.s_blocks_count as int, 4)) + le_bytes(a.s_r_blocks_count as int, 4)) + le_bytes(a.s_free_blocks_count as int, 4)) + le_bytes(a.s_free_inodes_count as int, 4)) + le_bytes(a.s_first_data_block as int, 4)) + le_bytes(a.s_log_block_size as int, 4)) + le_bytes(a.s_log_frag_size as int, 4)) + le_bytes(a.s_blocks_per_group as int, 4)) + le_bytes(a.s_frags_per_group as int, 4)) + le_bytes(a.s_inodes_per_group as int, 4)) + le_bytes(a.s_mtime as int, 4)) + le_bytes(a.s_wtime as int, 4)) + le_bytes(a.s_mnt_count as int, 2)) + le_bytes(a.s_max_mnt_count as int, 2)) + le_bytes(a.s_magic as int, 2)) + le_bytes(a.s_state as int, 2)) + le_bytes(a.s_errors as int, 2)) + le_bytes(a.s_minor_rev_level as int, 2)) + le_bytes(a.s_lastcheck as int, 4)) + le_bytes(a.s_checkinterval as int, 4)) + le_bytes(a.s_creator_os as int, 4)) + le_bytes(a.s_rev_level as int, 4)) + le_bytes(a.s_def_resuid as int, 2)) + le_bytes(a.s_def_resgid as int, 2)) + le_bytes(a.s_first_ino as int, 4)) + le_bytes(a.s_inode_size as int, 2)) + le_bytes(a.s_block_group_nr as int, 2)), le_bytes(a.s_feature_compat as int, 4), (((((((((((((((((((((((((((le_bytes(b.s_inodes_count as int, 4) + le_bytes(b.s_blocks_count as int, 4)) + le_bytes(b.s_r_blocks_count as int, 4)) + le_bytes(b.s_free_blocks_count as int, 4)) + le_bytes(b.s_free_inodes_count as int, 4)) + le_bytes(b.s_first_data_block as int, 4)) + le_bytes(b.s_log_block_size as int, 4)) + le_bytes(b.s_log_frag_size as int, 4)) + le_bytes(b.s_blocks_per_group as int, 4)) + le_bytes(b.s_frags_per_group as int, 4)) + le_bytes(b.s_inodes_per_group as int, 4)) + le_bytes(b.s_mtime as int, 4)) + le_bytes(b.s_wtime as int, 4)) + le_bytes(b.s_mnt_count as int, 2)) + le_bytes(b.s_max_mnt_count as int, 2)) + le_bytes(b.s_magic as int, 2)) + le_bytes(b.s_state as int, 2)) + le_bytes(b.s_errors as int, 2)) + le_bytes(b.s_minor_rev_level as int, 2)) + le_bytes(b.s_lastcheck as int, 4)) + le_bytes(b.s_checkinterval as int, 4)) + le_bytes(b.s_creator_os as int, 4)) + le_bytes(b.s_rev_level as int, 4)) + le_bytes(b.s_def_resuid as int, 2)) + le_bytes(b.s_def_resgid as int, 2)) + le_bytes(b.s_first_ino as int, 4)) + le_bytes(b.s_inode_size as int, 2)) + le_bytes(b.s_block_group_nr as int, 2)), le_bytes(b.s_feature_compat as int, 4));
    lemma_concat_eq(((((((((((((((((((((((((((le_bytes(a.s_inodes_count as int, 4) + le_bytes(a.s_blocks_count as int, 4)) + le_bytes(a.s_r_blocks_count as int, 4)) + le_bytes(a.s_free_blocks_count as int, 4)) + le_bytes(a.s_free_inodes_count as int, 4)) + le_bytes(a.s_first_data_block as int, 4)) + le_bytes(a.s_log_block_size as int, 4)) + le_bytes(a.s_log_frag_size as int, 4)) + le_bytes(a.s_blocks_per_group as int, 4)) + le_bytes(a.s_frags_per_group as int, 4)) + le_bytes(a.s_inodes_per_group as int, 4)) + le_bytes(a.s_mtime as int, 4)) + le_bytes(a.s_wtime as int, 4)) + le_bytes(a.s_mnt_count as int, 2)) + le_bytes(a.s_max_mnt_count as int, 2)) + le_bytes(a.s_magic as int, 2)) + le_bytes(a.s_state as int, 2)) + le_bytes(a.s_errors as int, 2)) + le_bytes(a.s_minor_rev_level as int, 2)) + le_bytes(a.s_lastcheck as int, 4)) + le_bytes(a.s_checkinterval as int, 4)) + le_bytes(a.s_creator_os as int, 4)) + le_bytes(a.s_rev_level as int, 4)) + le_bytes(a.s_def_resuid as int, 2)) + le_bytes(a.s_def_resgid as int, 2)) + le_bytes(a.s_first_ino as int, 4)) + le_bytes(a.s_inode_size as int, 2)), le_bytes(a.s_block_group_nr as int, 2), ((((((((((((((((((((((((((le_bytes(b.s_inodes_count as int, 4) + le_bytes(b.s_blocks_count as int, 4)) + le_bytes(b.s_r_blocks_count as int, 4)) + le_bytes(b.s_free_blocks_count as int, 4)) + le_bytes(b.s_free_inodes_count as int, 4)) + le_bytes(b.s_first_data_block as int, 4)) + le_bytes(b.s_log_block_size as int, 4)) + le_bytes(b.s_log_frag_size as int, 4)) + le_bytes(b.s_blocks_per_group as int, 4)) + le_bytes(b.s_frags_per_group as int, 4)) + le_bytes(b.s_inodes_per_group as int, 4)) + le_bytes(b.s_mtime as int, 4)) + le_bytes(b.s_wtime as int, 4)) + le_bytes(b.s_mnt_count as int, 2)) + le_bytes(b.s_max_mnt_count as int, 2)) + le_bytes(b.s_magic as int, 2)) + le_bytes(b.s_state as int, 2)) + le_bytes(b.s_errors as int, 2)) + le_bytes(b.s_minor_rev_level as int, 2)) + le_bytes(b.s_lastcheck as int, 4)) + le_bytes(b.s_checkinterval as int, 4)) + le_bytes(b.s_creator_os as int, 4)) + le_bytes(b.s_rev_level as int, 4)) + le_bytes(b.s_def_resuid as int, 2)) + le_bytes(b.s_def_resgid as int, 2)) + le_bytes(b.s_first_ino as int, 4)) + le_bytes(b.s_inode_size as int, 2)), le_bytes(b.s_block_group_nr as int, 2));
    lemma_concat_eq((((((((((((((((((((((((((le_bytes(a.s_inodes_count as int, 4) + le_bytes(a.s_blocks_count as int, 4)) + le_bytes(a.s_r_blocks_count as int, 4)) + le_bytes(a.s_free_blocks_count as int, 4)) + le_bytes(a.s_free_inodes_count as int, 4)) + le_bytes(a.s_first_data_block as int, 4)) + le_bytes(a.s_log_block_size as int, 4)) + le_bytes(a.s_log_frag_size as int, 4)) + le_bytes(a.s_blocks_per_group as int, 4)) + le_bytes(a.s_frags_per_group as int, 4)) + le_bytes(a.s_inodes_per_group as int, 4)) + le_bytes(a.s_mtime as int, 4)) + le_bytes(a.s_wtime as int, 4)) + le_bytes(a.s_mnt_count as int, 2)) + le_bytes(a.s_max_mnt_count as int, 2)) + le_bytes(a.s_magic as int, 2)) + le_bytes(a.s_state as int, 2)) + le_bytes(a.s_errors as int, 2)) + le_bytes(a.s_minor_rev_level as int, 2)) + le_bytes(a.s_lastcheck as int, 4)) + le_bytes(a.s_checkinterval as int, 4)) + le_bytes(a.s_creator_os as int, 4)) + le_bytes(a.s_rev_level as int, 4)) + le_bytes(a.s_def_resuid as int, 2)) + le_bytes(a.s_def_resgid as int, 2)) + le_bytes(a.s_first_ino as int, 4)), le_bytes(a.s_inode_size as int, 2), (((((((((((((((((((((((((le_bytes(b.s_inodes_count as int, 4) + le_bytes(b.s_blocks_count as int, 4)) + le_bytes(b.s_r_blocks_count as int, 4)) + le_bytes(b.s_free_blocks_count as int, 4)) + le_bytes(b.s_free_inodes_count as int, 4)) + le_bytes(b.s_first_data_block as int, 4)) + le_bytes(b.s_log_block_size as int, 4)) + le_bytes(b.s_log_frag_size as int, 4)) + le_bytes(b.s_blocks_per_group as int, 4)) + le_bytes(b.s_frags_per_group as int, 4)) + le_bytes(b.s_inodes_per_group as int, 4)) + le_bytes(b.s_mtime as int, 4)) + le_bytes(b.s_wtime as int, 4)) + le_bytes(b.s_mnt_count as int, 2)) + le_bytes(b.s_max_mnt_count as int, 2)) + le_bytes(b.s_magic as int, 2)) + le_bytes(b.s_state as int, 2)) + le_bytes(b.s_errors as int, 2)) + le_bytes(b.s_minor_rev_level as int, 2)) + le_bytes(b.s_lastcheck as int, 4)) + le_bytes(b.s_checkinterval as int, 4)) + le_bytes(b.s_creator_os as int, 4)) + le_bytes(b.s_rev_level as int, 4)) + le_bytes(b.s_def_resuid as int, 2)) + le_bytes(b.s_def_resgid as int, 2)) + le_bytes(b.s_first_ino as int, 4)), le_bytes(b.s_inode_size as int, 2));
    lemma_concat_eq(((((((((((((((((((((((((le_bytes(a.s_inodes_count as int, 4) + le_bytes(a.s_blocks_count as int, 4)) + le_bytes(a.s_r_blocks_count as int, 4)) + le_bytes(a.s_free_blocks_count as int, 4)) + le_bytes(a.s_free_inodes_count as int, 4)) + le_bytes(a.s_first_data_block as int, 4)) + le_bytes(a.s_log_block_size as int, 4)) + le_bytes(a.s_log_frag_size as int, 4)) + le_bytes(a.s_blocks_per_group as int, 4)) + le_bytes(a.s_frags_per_group as int, 4)) + le_bytes(a.s_inodes_per_group as int, 4)) + le_bytes(a.s_mtime as int, 4)) + le_bytes(a.s_wtime as int, 4)) + le_bytes(a.s_mnt_count as int, 2)) + le_bytes(a.s_max_mnt_count as int, 2)) + le_bytes(a.s_magic as int, 2)) + le_bytes(a.s_state as int, 2)) + le_bytes(a.s_errors as int, 2)) + le_bytes(a.s_minor_rev_level as int, 2)) + le_bytes(a.s_lastcheck as int, 4)) + le_bytes(a.s_checkinterval as int, 4)) + le_bytes(a.s_creator_os as int, 4)) + le_bytes(a.s_rev_level as int, 4)) + le_bytes(a.s_def_resuid as int, 2)) + le_bytes(a.s_def_resgid as int, 2)), le_bytes(a.s_first_ino as int, 4), ((((((((((((((((((((((((le_bytes(b.s_inodes_count as int, 4) + le_bytes(b.s_blocks_count as int, 4)) + le_bytes(b.s_r_blocks_count as int, 4)) + le_bytes(b.s_free_blocks_count as int, 4)) + le_bytes(b.s_free_inodes_count as int, 4)) + le_bytes(b.s_first_data_block as int, 4)) + le_bytes(b.s_log_block_size as int, 4)) + le_bytes(b.s_log_frag_size as int, 4)) + le_bytes(b.s_blocks_per_group as int, 4)) + le_bytes(b.s_frags_per_group as int, 4)) + le_bytes(b.s_inodes_per_group as int, 4)) + le_bytes(b.s_mtime as int, 4)) + le_bytes(b.s_wtime as int, 4)) + le_bytes(b.s_mnt_count as int, 2)) + le_bytes(b.s_max_mnt_count as int, 2)) + le_bytes(b.s_magic as int, 2)) + le_bytes(b.s_state as int, 2)) + le_bytes(b.s_errors as int, 2)) + le_bytes(b.s_minor_rev_level as int, 2)) + le_bytes(b.s_lastcheck as int, 4)) + le_bytes(b.s_checkinterval as int, 4)) + le_bytes(b.s_creator_os as int, 4)) + le_bytes(b.s_rev_level as int, 4)) + le_bytes(b.s_def_resuid as int, 2)) + le_bytes(b.s_def_resgid as int, 2)), le_bytes(b.s_first_ino as int, 4));
    lemma_concat_eq((((((((((((((((((((((((le_bytes(a.s_inodes_count as int, 4) + le_bytes(a.s_blocks_count as int, 4)) + le_bytes(a.s_r_blocks_count as int, 4)) + le_bytes(a.s_free_blocks_count as int, 4)) + le_bytes(a.s_free_inodes_count as int, 4)) + le_bytes(a.s_first_data_block as int, 4)) + le_bytes(a.s_log_block_size as int, 4)) + le_bytes(a.s_log_frag_size as int, 4)) + le_bytes(a.s_blocks_per_group as int, 4)) + le_bytes(a.s_frags_per_group as int, 4)) + le_bytes(a.s_inodes_per_group as int, 4)) + le_bytes(a.s_mtime as int, 4)) + le_bytes(a.s_wtime as int, 4)) + le_bytes(a.s_mnt_count as int, 2)) + le_bytes(a.s_max_mnt_count as int, 2)) + le_bytes(a.s_magic as int, 2)) + le_bytes(a.s_state as int, 2)) + le_bytes(a.s_errors as int, 2)) + le_bytes(a.s_minor_rev_level as int, 2)) + le_bytes(a.s_lastcheck as int, 4)) + le_bytes(a.s_checkinterval as int, 4)) + le_bytes(a.s_creator_os as int, 4)) + le_bytes(a.s_rev_level as int, 4)) + le_bytes(a.s_def_resuid as int, 2)), le_bytes(a.s_def_resgid as int, 2), (((((((((((((((((((((((le_bytes(b.s_inodes_count as int, 4) + le_bytes(b.s_blocks_count as int, 4)) + le_bytes(b.s_r_blocks_count as int, 4)) + le_bytes(b.s_free_blocks_count as int, 4)) + le_bytes(b.s_free_inodes_count as int, 4)) + le_bytes(b.s_first_data_block as int, 4)) + le_bytes(b.s_log_block_size as int, 4)) + le_bytes(b.s_log_frag_size as int, 4)) + le_bytes(b.s_blocks_per_group as int, 4)) + le_bytes(b.s_frags_per_group as int, 4)) + le_bytes(b.s_inodes_per_group as int, 4)) + le_bytes(b.s_mtime as int, 4)) + le_bytes(b.s_wtime as int, 4)) + le_bytes(b.s_mnt_count as int, 2)) + le_bytes(b.s_max_mnt_count as int, 2)) + le_bytes(b.s_magic as int, 2)) + le_bytes(b.s_state as int, 2)) + le_bytes(b.s_errors as int, 2)) + le_bytes(b.s_minor_rev_level as int, 2)) + le_bytes(b.s_lastcheck as int, 4)) + le_bytes(b.s_checkinterval as int, 4)) + le_bytes(b.s_creator_os as int, 4)) + le_bytes(b.s_rev_level as int, 4)) + le_bytes(b.s_def_resuid as int, 2)), le_bytes(b.s_def_resgid as int, 2));
    lemma_concat_eq(((((((((((((((((((((((le_bytes(a.s_inodes_count as int, 4) + le_bytes(a.s_blocks_count as int, 4)) + le_bytes(a.s_r_blocks_count as int, 4)) + le_bytes(a.s_free_blocks_count as int, 4)) + le_bytes(a.s_free_inodes_count as int, 4)) + le_bytes(a.s_first_data_block as int, 4)) + le_bytes(a.s_log_block_size as int, 4)) + le_bytes(a.s_log_frag_size as int, 4)) + le_bytes(a.s_blocks_per_group as int, 4)) + le_bytes(a.s_frags_per_group as int, 4)) + le_bytes(a.s_inodes_per_group as int, 4)) + le_bytes(a.s_mtime as int, 4)) + le_bytes(a.s_wtime as int, 4)) + le_bytes(a.s_mnt_count as int, 2)) + le_bytes(a.s_max_mnt_count as int, 2)) + le_bytes(a.s_magic as int, 2)) + le_bytes(a.s_state as int, 2)) + le_bytes(a.s_errors as int, 2)) + le_bytes(a.s_minor_rev_level as int, 2)) + le_bytes(a.s_lastcheck as int, 4)) + le_bytes(a.s_checkinterval as int, 4)) + le_bytes(a.s_creator_os as int, 4)) + le_bytes(a.s_rev_level as int, 4)), le_bytes(a.s_def_resuid as int, 2), ((((((((((((((((((((((le_bytes(b.s_inodes_count as int, 4) + le_bytes(b.s_blocks_count as int, 4)) + le_bytes(b.s_r_blocks_count as int, 4)) + le_bytes(b.s_free_blocks_count as int, 4)) + le_bytes(b.s_free_inodes_count as int, 4)) + le_bytes(b.s_first_data_block as int, 4)) + le_bytes(b.s_log_block_size as int, 4)) + le_bytes(b.s_log_frag_size as int, 4)) + le_bytes(b.s_blocks_per_group as int, 4)) + le_bytes(b.s_frags_per_group as int, 4)) + le_bytes(b.s_inodes_per_group as int, 4)) + le_bytes(b.s_mtime as int, 4)) + le_bytes(b.s_wtime as int, 4)) + le_bytes(b.s_mnt_count as int, 2)) + le_bytes(b.s_max_mnt_count as int, 2)) + le_bytes(b.s_magic as int, 2)) + le_bytes(b.s_state as int, 2)) + le_bytes(b.s_errors as int, 2)) + le_bytes(b.s_minor_rev_level as int, 2)) + le_bytes(b.s_lastcheck as int, 4)) + le_bytes(b.s_checkinterval as int, 4)) + le_bytes(b.s_creator_os as int, 4)) + le_bytes(b.s_rev_level as int, 4)), le_bytes(b.s_def_resuid as int, 2));
    lemma_concat_eq((((((((((((((((((((((le_bytes(a.s_inodes_count as int, 4) + le_bytes(a.s_blocks_count as int, 4)) + le_bytes(a.s_r_blocks_count as int, 4)) + le_bytes(a.s_free_blocks_count as int, 4)) + le_bytes(a.s_free_inodes_count as int, 4)) + le_bytes(a.s_first_data_block as int, 4)) + le_bytes(a.s_log_block_size as int, 4)) + le_bytes(a.s_log_frag_size as int, 4)) + le_bytes(a.s_blocks_per_group as int, 4)) + le_bytes(a.s_frags_per_group as int, 4)) + le_bytes(a.s_inodes_per_group as int, 4)) + le_bytes(a.s_mtime as int, 4)) + le_bytes(a.s_wtime as int, 4)) + le_bytes(a.s_mnt_count as int, 2)) + le_bytes(a.s_max_mnt_count as int, 2)) + le_bytes(a.s_magic as int, 2)) + le_bytes(a.s_state as int, 2)) + le_bytes(a.s_errors as int, 2)) + le_bytes(a.s_minor_rev_level as int, 2)) + le_bytes(a.s_lastcheck as int, 4)) + le_bytes(a.s_checkinterval as int, 4)) + le_bytes(a.s_creator_os as int, 4)), le_bytes(a.s_rev_level as int, 4), (((((((((((((((((((((le_bytes(b.s_inodes_count as int, 4) + le_bytes(b.s_blocks_count as int, 4)) + le_bytes(b.s_r_blocks_count as int, 4)) + le_bytes(b.s_free_blocks_count as int, 4)) + le_bytes(b.s_free_inodes_count as int, 4)) + le_bytes(b.s_first_data_block as int, 4)) + le_bytes(b.s_log_block_size as int, 4)) + le_bytes(b.s_log_frag_size as int, 4)) + le_bytes(b.s_blocks_per_group as int, 4)) + le_bytes(b.s_frags_per_group as int, 4)) + le_bytes(b.s_inodes_per_group as int, 4)) + le_bytes(b.s_mtime as int, 4)) + le_bytes(b.s_wtime as int, 4)) + le_bytes(b.s_mnt_count as int, 2)) + le_bytes(b.s_max_mnt_count as int, 2)) + le_bytes(b.s_magic as int, 2)) + le_bytes(b.s_state as int, 2)) + le_bytes(b.s_errors as int, 2)) + le_bytes(b.s_minor_rev_level as int, 2)) + le_bytes(b.s_lastcheck as int, 4)) + le_bytes(b.s_checkinterval as int, 4)) + le_bytes(b.s_creator_os as int, 4)), le_bytes(b.s_rev_level as int, 4));
    lemma_concat_eq(((((((((((((((((((((le_bytes(a.s_inodes_count as int, 4) + le_bytes(a.s_blocks_count as int, 4)) + le_bytes(a.s_r_blocks_count as int, 4)) + le_bytes(a.s_free_blocks_count as int, 4)) + le_bytes(a.s_free_inodes_count as int, 4)) + le_bytes(a.s_first_data_block as int, 4)) + le_bytes(a.s_log_block_size as int, 4)) + le_bytes(a.s_log_frag_size as int, 4)) + le_bytes(a.s_blocks_per_group as int, 4)) + le_bytes(a.s_frags_per_group as int, 4)) + le_bytes(a.s_inodes_per_group as int, 4)) + le_bytes(a.s_mtime as int, 4)) + le_bytes(a.s_wtime as int, 4)) + le_bytes(a.s_mnt_count as int, 2)) + le_bytes(a.s_max_mnt_count as int, 2)) + le_bytes(a.s_magic as int, 2)) + le_bytes(a.s_state as int, 2)) + le_bytes(a.s_errors as int, 2)) + le_bytes(a.s_minor_rev_level as int, 2)) + le_bytes(a.s_lastcheck as int, 4)) + le_bytes(a.s_checkinterval as int, 4)), le_bytes(a.s_creator_os as int, 4), ((((((((((((((((((((le_bytes(b.s_inodes_count as int, 4) + le_bytes(b.s_blocks_count as int, 4)) + le_bytes(b.s_r_blocks_count as int, 4)) + le_bytes(b.s_free_blocks_count as int, 4)) + le_bytes(b.s_free_inodes_count as int, 4)) + le_bytes(b.s_first_data_block as int, 4)) + le_bytes(b.s_log_block_size as int, 4)) + le_bytes(b.s_log_frag_size as int, 4)) + le_bytes(b.s_blocks_per_group as int, 4)) + le_bytes(b.s_frags_per_group as int, 4)) + le_bytes(b.s_inodes_per_group as int, 4)) + le_bytes(b.s_mtime as int, 4)) + le_bytes(b.s_wtime as int, 4)) + le_bytes(b.s_mnt_count as int, 2)) + le_bytes(b.s_max_mnt_count as int, 2)) + le_bytes(b.s_magic as int, 2)) + le_bytes(b.s_state as int, 2)) + le_bytes(b.s_errors as int, 2)) + le_bytes(b.s_minor_rev_level as int, 2)) + le_bytes(b.s_lastcheck as int, 4)) + le_bytes(b.s_checkinterval as int, 4)), le_bytes(b.s_creator_os as int, 4));
    lemma_concat_eq((((((((((((((((((((le_bytes(a.s_inodes_count as int, 4) + le_bytes(a.s_blocks_count as int, 4)) + le_bytes(a.s_r_blocks_count as int, 4)) + le_bytes(a.s_free_blocks_count as int, 4)) + le_bytes(a.s_free_inodes_count as int, 4)) + le_bytes(a.s_first_data_block as int, 4)) + le_bytes(a.s_log_block_size as int, 4)) + le_bytes(a.s_log_frag_size as int, 4)) + le_bytes(a.s_blocks_per_group as int, 4)) + le_bytes(a.s_frags_per_group as int, 4)) + le_bytes(a.s_inodes_per_group as int, 4)) + le_bytes(a.s_mtime as int, 4)) + le_bytes(a.s_wtime as int, 4)) + le_bytes(a.s_mnt_count as int, 2)) + le_bytes(a.s_max_mnt_count as int, 2)) + le_bytes(a.s_magic as int, 2)) + le_bytes(a.s_state as int, 2)) + le_bytes(a.s_errors as int, 2)) + le_bytes(a.s_minor_rev_level as int, 2)) + le_bytes(a.s_lastcheck as int, 4)), le_bytes(a.s_checkinterval as int, 4), (((((((((((((((((((le_bytes(b.s_inodes_count as int, 4) + le_bytes(b.s_blocks_count as int, 4)) + le_bytes(b.s_r_blocks_count as int, 4)) + le_bytes(b.s_free_blocks_count as int, 4)) + le_bytes(b.s_free_inodes_count as int, 4)) + le_bytes(b.s_first_data_block as int, 4)) + le_bytes(b.s_log_block_size as int, 4)) + le_bytes(b.s_log_frag_size as int, 4)) + le_bytes(b.s_blocks_per_group as int, 4)) + le_bytes(b.s_frags_per_group as int, 4)) + le_bytes(b.s_inodes_per_group as int, 4)) + le_bytes(b.s_mtime as int, 4)) + le_bytes(b.s_wtime as int, 4)) + le_bytes(b.s_mnt_count as int, 2)) + le_bytes(b.s_max_mnt_count as int, 2)) + le_bytes(b.s_magic as int, 2)) + le_bytes(b.s_state as int, 2)) + le_bytes(b.s_errors as int, 2)) + le_bytes(b.s_minor_rev_level as int, 2)) + le_bytes(b.s_lastcheck as int, 4)), le_bytes(b.s_checkinterval as int, 4));
    lemma_concat_eq(((((((((((((((((((le_bytes(a.s_inodes_count as int, 4) + le_bytes(a.s_blocks_count as int, 4)) + le_bytes(a.s_r_blocks_count as int, 4)) + le_bytes(a.s_free_blocks_count as int, 4)) + le_bytes(a.s_free_inodes_count as int, 4)) + le_bytes(a.s_first_data_block as int, 4)) + le_bytes(a.s_log_block_size as int, 4)) + le_bytes(a.s_log_frag_size as int, 4)) + le_bytes(a.s_blocks_per_group as int, 4)) + le_bytes(a.s_frags_per_group as int, 4)) + le_bytes(a.s_inodes_per_group as int, 4)) + le_bytes(a.s_mtime as int, 4)) + le_bytes(a.s_wtime as int, 4)) + le_bytes(a.s_mnt_count as int, 2)) + le_bytes(a.s_max_mnt_count as int, 2)) + le_bytes(a.s_magic as int, 2)) + le_bytes(a.s_state as int, 2)) + le_bytes(a.s_errors as int, 2)) + le_bytes(a.s_minor_rev_level as int, 2)), le_bytes(a.s_lastcheck as int, 4), ((((((((((((((((((le_bytes(b.s_inodes_count as int, 4) + le_bytes(b.s_blocks_count as int, 4)) + le_bytes(b.s_r_blocks_count as int, 4)) + le_bytes(b.s_free_blocks_count as int, 4)) + le_bytes(b.s_free_inodes_count as int, 4)) + le_bytes(b.s_first_data_block as int, 4)) + le_bytes(b.s_log_block_size as int, 4)) + le_bytes(b.s_log_frag_size as int, 4)) + le_bytes(b.s_blocks_per_group as int, 4)) + le_bytes(b.s_frags_per_group as int, 4)) + le_bytes(b.s_inodes_per_group as int, 4)) + le_bytes(b.s_mtime as int, 4)) + le_bytes(b.s_wtime as int, 4)) + le_bytes(b.s_mnt_count as int, 2)) + le_bytes(b.s_max_mnt_count as int, 2)) + le_bytes(b.s_magic as int, 2)) + le_bytes(b.s_state as int, 2)) + le_bytes(b.s_errors as int, 2)) + le_bytes(b.s_minor_rev_level as int, 2)), le_bytes(b.s_lastcheck as int, 4));
    lemma_concat_eq((((((((((((((((((le_bytes(a.s_inodes_count as int, 4) + le_bytes(a.s_blocks_count as int, 4)) + le_bytes(a.s_r_blocks_count as int, 4)) + le_bytes(a.s_free_blocks_count as int, 4)) + le_bytes(a.s_free_inodes_count as int, 4)) + le_bytes(a.s_first_data_block as int, 4)) + le_bytes(a.s_log_block_size as int, 4)) + le_bytes(a.s_log_frag_size as int, 4)) + le_bytes(a.s_blocks_per_group as int, 4)) + le_bytes(a.s_frags_per_group as int, 4)) + le_bytes(a.s_inodes_per_group as int, 4)) + le_bytes(a.s_mtime as int, 4)) + le_bytes(a.s_wtime as int, 4)) + le_bytes(a.s_mnt_count as int, 2)) + le_bytes(a.s_max_mnt_count as int, 2)) + le_bytes(a.s_magic as int, 2)) + le_bytes(a.s_state as int, 2)) + le_bytes(a.s_errors as int, 2)), le_bytes(a.s_minor_rev_level as int, 2), (((((((((((((((((le_bytes(b.s_inodes_count as int, 4) + le_bytes(b.s_blocks_count as int, 4)) + le_bytes(b.s_r_blocks_count as int, 4)) + le_bytes(b.s_free_blocks_count as int, 4)) + le_bytes(b.s_free_inodes_count as int, 4)) + le_bytes(b.s_first_data_block as int, 4)) + le_bytes(b.s_log_block_size as int, 4)) + le_bytes(b.s_log_frag_size as int, 4)) + le_bytes(b.s_blocks_per_group as int, 4)) + le_bytes(b.s_frags_per_group as int, 4)) + le_bytes(b.s_inodes_per_group as int, 4)) + le_bytes(b.s_mtime as int, 4)) + le_bytes(b.s_wtime as int, 4)) + le_bytes(b.s_mnt_count as int, 2)) + le_bytes(b.s_max_mnt_count as int, 2)) + le_bytes(b.s_magic as int, 2)) + le_bytes(b.s_state as int, 2)) + le_bytes(b.s_errors as int, 2)), le_bytes(b.s_minor_rev_level as int, 2));
    lemma_concat_eq(((((((((((((((((le_bytes(a.s_inodes_count as int, 4) + le_bytes(a.s_blocks_count as int, 4)) + le_bytes(a.s_r_blocks_count as int, 4)) + le_bytes(a.s_free_blocks_count as int, 4)) + le_bytes(a.s_free_inodes_count as int, 4)) + le_bytes(a.s_first_data_block as int, 4)) + le_bytes(a.s_log_block_size as int, 4)) + le_bytes(a.s_log_frag_size as int, 4)) + le_bytes(a.s_blocks_per_group as int, 4)) + le_bytes(a.s_frags_per_group as int, 4)) + le_bytes(a.s_inodes_per_group as int, 4)) + le_bytes(a.s_mtime as int, 4)) + le_bytes(a.s_wtime as int, 4)) + le_bytes(a.s_mnt_count as int, 2)) + le_bytes(a.s_max_mnt_count as int, 2)) + le_bytes(a.s_magic as int, 2)) + le_bytes(a.s_state as int, 2)), le_bytes(a.s_errors as int, 2), ((((((((((((((((le_bytes(b.s_inodes_count as int, 4) + le_bytes(b.s_blocks_count as int, 4)) + le_bytes(b.s_r_blocks_count as int, 4)) + le_bytes(b.s_free_blocks_count as int, 4)) + le_bytes(b.s_free_inodes_count as int, 4)) + le_bytes(b.s_first_data_block as int, 4)) + le_bytes(b.s_log_block_size as int, 4)) + le_bytes(b.s_log_frag_size as int, 4)) + le_bytes(b.s_blocks_per_group as int, 4)) + le_bytes(b.s_frags_per_group as int, 4)) + le_bytes(b.s_inodes_per_group as int, 4)) + le_bytes(b.s_mtime as int, 4)) + le_bytes(b.s_wtime as int, 4)) + le_bytes(b.s_mnt_count as int, 2)) + le_bytes(b.s_max_mnt_count as int, 2)) + le_bytes(b.s_magic as int, 2)) + le_bytes(b.s_state as int, 2)), le_bytes(b.s_errors as int, 2));
    lemma_concat_eq((((((((((((((((le_bytes(a.s_inodes_count as int, 4) + le_bytes(a.s_blocks_count as int, 4)) + le_bytes(a.s_r_blocks_count as int, 4)) + le_bytes(a.s_free_blocks_count as int, 4)) + le_bytes(a.s_free_inodes_count as int, 4)) + le_bytes(a.s_first_data_block as int, 4)) + le_bytes(a.s_log_block_size as int, 4)) + le_bytes(a.s_log_frag_size as int, 4)) + le_bytes(a.s_blocks_per_group as int, 4)) + le_bytes(a.s_frags_per_group as int, 4)) + le_bytes(a.s_inodes_per_group as int, 4)) + le_bytes(a.s_mtime as int, 4)) + le_bytes(a.s_wtime as int, 4)) + le_bytes(a.s_mnt_count as int, 2)) + le_bytes(a.s_max_mnt_count as int, 2)) + le_bytes(a.s_magic as int, 2)), le_bytes(a.s_state as int, 2), (((((((((((((((le_bytes(b.s_inodes_count as int, 4) + le_bytes(b.s_blocks_count as int, 4)) + le_bytes(b.s_r_blocks_count as int, 4)) + le_bytes(b.s_free_blocks_count as int, 4)) + le_bytes(b.s_free_inodes_count as int, 4)) + le_bytes(b.s_first_data_block as int, 4)) + le_bytes(b.s_log_block_size as int, 4)) + le_bytes(b.s_log_frag_size as int, 4)) + le_bytes(b.s_blocks_per_group as int, 4)) + le_bytes(b.s_frags_per_group as int, 4)) + le_bytes(b.s_inodes_per_group as int, 4)) + le_bytes(b.s_mtime as int, 4)) + le_bytes(b.s_wtime as int, 4)) + le_bytes(b.s_mnt_count as int, 2)) + le_bytes(b.s_max_mnt_count as int, 2)) + le_bytes(b.s_magic as int, 2)), le_bytes(b.s_state as int, 2));
    lemma_concat_eq(((((((((((((((le_bytes(a.s_inodes_count as int, 4) + le_bytes(a.s_blocks_count as int, 4)) + le_bytes(a.s_r_blocks_count as int, 4)) + le_bytes(a.s_free_blocks_count as int, 4)) + le_bytes(a.s_free_inodes_count as int, 4)) + le_bytes(a.s_first_data_block as int, 4)) + le_bytes(a.s_log_block_size as int, 4)) + le_bytes(a.s_log_frag_size as int, 4)) + le_bytes(a.s_blocks_per_group as int, 4)) + le_bytes(a.s_frags_per_group as int, 4)) + le_bytes(a.s_inodes_per_group as int, 4)) + le_bytes(a.s_mtime as int, 4)) + le_bytes(a.s_wtime as int, 4)) + le_bytes(a.s_mnt_count as int, 2)) + le_bytes(a.s_max_mnt_count as int, 2)), le_bytes(a.s_magic as int, 2), ((((((((((((((le_bytes(b.s_inodes_count as int, 4) + le_bytes(b.s_blocks_count as int, 4)) + le_bytes(b.s_r_blocks_count as int, 4)) + le_bytes(b.s_free_blocks_count as int, 4)) + le_bytes(b.s_free_inodes_count as int, 4)) + le_bytes(b.s_first_data_block as int, 4)) + le_bytes(b.s_log_block_size as int, 4)) + le_bytes(b.s_log_frag_size as int, 4)) + le_bytes(b.s_blocks_per_group as int, 4)) + le_bytes(b.s_frags_per_group as int, 4)) + le_bytes(b.s_inodes_per_group as int, 4)) + le_bytes(b.s_mtime as int, 4)) + le_bytes(b.s_wtime as int, 4)) + le_bytes(b.s_mnt_count as int, 2)) + le_bytes(b.s_max_mnt_count as int, 2)), le_bytes(b.s_magic as int, 2));
    lemma_concat_eq((((((((((((((le_bytes(a.s_inodes_count as int, 4) + le_bytes(a.s_blocks_count as int, 4)) + le_bytes(a.s_r_blocks_count as int, 4)) + le_bytes(a.s_free_blocks_count as int, 4)) + le_bytes(a.s_free_inodes_count as int, 4)) + le_bytes(a.s_first_data_block as int, 4)) + le_bytes(a.s_log_block_size as int, 4)) + le_bytes(a.s_log_frag_size as int, 4)) + le_bytes(a.s_blocks_per_group as int, 4)) + le_bytes(a.s_frags_per_group as int, 4)) + le_bytes(a.s_inodes_per_group as int, 4)) + le_bytes(a.s_mtime as int, 4)) + le_bytes(a.s_wtime as int, 4)) + le_bytes(a.s_mnt_count as int, 2)), le_bytes(a.s_max_mnt_count as int, 2), (((((((((((((le_bytes(b.s_inodes_count as int, 4) + le_bytes(b.s_blocks_count as int, 4)) + le_bytes(b.s_r_blocks_count as int, 4)) + le_bytes(b.s_free_blocks_count as int, 4)) + le_bytes(b.s_free_inodes_count as int, 4)) + le_bytes(b.s_first_data_block as int, 4)) + le_bytes(b.s_log_block_size as int, 4)) + le_bytes(b.s_log_frag_size as int, 4)) + le_bytes(b.s_blocks_per_group as int, 4)) + le_bytes(b.s_frags_per_group as int, 4)) + le_bytes(b.s_inodes_per_group as int, 4)) + le_bytes(b.s_mtime as int, 4)) + le_bytes(b.s_wtime as int, 4)) + le_bytes(b.s_mnt_count as int, 2)), le_bytes(b.s_max_mnt_count as int, 2));
    lemma_concat_eq(((((((((((((le_bytes(a.s_inodes_count as int, 4) + le_bytes(a.s_blocks_count as int, 4)) + le_bytes(a.s_r_blocks_count as int, 4)) + le_bytes(a.s_free_blocks_count as int, 4)) + le_bytes(a.s_free_inodes_count as int, 4)) + le_bytes(a.s_first_data_block as int, 4)) + le_bytes(a.s_log_block_size as int, 4)) + le_bytes(a.s_log_frag_size as int, 4)) + le_bytes(a.s_blocks_per_group as int, 4)) + le_bytes(a.s_frags_per_group as int, 4)) + le_bytes(a.s_inodes_per_group as int, 4)) + le_bytes(a.s_mtime as int, 4)) + le_bytes(a.s_wtime as int, 4)), le_bytes(a.s_mnt_count as int, 2), ((((((((((((le_bytes(b.s_inodes_count as int, 4) + le_bytes(b.s_blocks_count as int, 4)) + le_bytes(b.s_r_blocks_count as int, 4)) + le_bytes(b.s_free_blocks_count as int, 4)) + le_bytes(b.s_free_inodes_count as int, 4)) + le_bytes(b.s_first_data_block as int, 4)) + le_bytes(b.s_log_block_size as int, 4)) + le_bytes(b.s_log_frag_size as int, 4)) + le_bytes(b.s_blocks_per_group as int, 4)) + le_bytes(b.s_frags_per_group as int, 4)) + le_bytes(b.s_inodes_per_group as int, 4)) + le_bytes(b.s_mtime as int, 4)) + le_bytes(b.s_wtime as int, 4)), le_bytes(b.s_mnt_count as int, 2));
    lemma_concat_eq((((((((((((le_bytes(a.s_inodes_count as int, 4) + le_bytes(a.s_blocks_count as int, 4)) + le_bytes(a.s_r_blocks_count as int, 4)) + le_bytes(a.s_free_blocks_count as int, 4)) + le_bytes(a.s_free_inodes_count as int, 4)) + le_bytes(a.s_first_data_block as int, 4)) + le_bytes(a.s_log_block_size as int, 4)) + le_bytes(a.s_log_frag_size as int, 4)) + le_bytes(a.s_blocks_per_group as int, 4)) + le_bytes(a.s_frags_per_group as int, 4)) + le_bytes(a.s_inodes_per_group as int, 4)) + le_bytes(a.s_mtime as int, 4)), le_bytes(a.s_wtime as int, 4), (((((((((((le_bytes(b.s_inodes_count as int, 4) + le_bytes(b.s_blocks_count as int, 4)) + le_bytes(b.s_r_blocks_count as int, 4)) + le_bytes(b.s_free_blocks_count as int, 4)) + le_bytes(b.s_free_inodes_count as int, 4)) + le_bytes(b.s_first_data_block as int, 4)) + le_bytes(b.s_log_block_size as int, 4)) + le_bytes(b.s_log_frag_size as int, 4)) + le_bytes(b.s_blocks_per_group as int, 4)) + le_bytes(b.s_frags_per_group as int, 4)) + le_bytes(b.s_inodes_per_group as int, 4)) + le_bytes(b.s_mtime as int, 4)), le_bytes(b.s_wtime as int, 4));
    lemma_concat_eq(((((((((((le_bytes(a.s_inodes_count as int, 4) + le_bytes(a.s_blocks_count as int, 4)) + le_bytes(a.s_r_blocks_count as int, 4)) + le_bytes(a.s_free_blocks_count as int, 4)) + le_bytes(a.s_free_inodes_count as int, 4)) + le_bytes(a.s_first_data_block as int, 4)) + le_bytes(a.s_log_block_size as int, 4)) + le_bytes(a.s_log_frag_size as int, 4)) + le_bytes(a.s_blocks_per_group as int, 4)) + le_bytes(a.s_frags_per_group as int, 4)) + le_bytes(a.s_inodes_per_group as int, 4)), le_bytes(a.s_mtime as int, 4), ((((((((((le_bytes(b.s_inodes_count as int, 4) + le_bytes(b.s_blocks_count as int, 4)) + le_bytes(b.s_r_blocks_count as int, 4)) + le_bytes(b.s_free_blocks_count as int, 4)) + le_bytes(b.s_free_inodes_count as int, 4)) + le_bytes(b.s_first_data_block as int, 4)) + le_bytes(b.s_log_block_size as int, 4)) + le_bytes(b.s_log_frag_size as int, 4)) + le_bytes(b.s_blocks_per_group as int, 4)) + le_bytes(b.s_frags_per_group as int, 4)) + le_bytes(b.s_inodes_per_group as int, 4)), le_bytes(b.s_mtime as int, 4));
    lemma_concat_eq((((((((((le_bytes(a.s_inodes_count as int, 4) + le_bytes(a.s_blocks_count as int, 4)) + le_bytes(a.s_r_blocks_count as int, 4)) + le_bytes(a.s_free_blocks_count as int, 4)) + le_bytes(a.s_free_inodes_count as int, 4)) + le_bytes(a.s_first_data_block as int, 4)) + le_bytes(a.s_log_block_size as int, 4)) + le_bytes(a.s_log_frag_size as int, 4)) + le_bytes(a.s_blocks_per_group as int, 4)) + le_bytes(a.s_frags_per_group as int, 4)), le_bytes(a.s_inodes_per_group as int, 4), (((((((((le_bytes(b.s_inodes_count as int, 4) + le_bytes(b.s_blocks_count as int, 4)) + le_bytes(b.s_r_blocks_count as int, 4)) + le_bytes(b.s_free_blocks_count as int, 4)) + le_bytes(b.s_free_inodes_count as int, 4)) + le_bytes(b.s_first_data_block as int, 4)) + le_bytes(b.s_log_block_size as int, 4)) + le_bytes(b.s_log_frag_size as int, 4)) + le_bytes(b.s_blocks_per_group as int, 4)) + le_bytes(b.s_frags_per_group as int, 4)), le_bytes(b.s_inodes_per_group as int, 4));
    lemma_concat_eq(((((((((le_bytes(a.s_inodes_count as int, 4) + le_bytes(a.s_blocks_count as int, 4)) + le_bytes(a.s_r_blocks_count as int, 4)) + le_bytes(a.s_free_blocks_count as int, 4)) + le_bytes(a.s_free_inodes_count as int, 4)) + le_bytes(a.s_first_data_block as int, 4)) + le_bytes(a.s_log_block_size as int, 4)) + le_bytes(a.s_log_frag_size as int, 4)) + le_bytes(a.s_blocks_per_group as int, 4)), le_bytes(a.s_frags_per_group as int, 4), ((((((((le_bytes(b.s_inodes_count as int, 4) + le_bytes(b.s_blocks_count as int, 4)) + le_bytes(b.s_r_blocks_count as int, 4)) + le_bytes(b.s_free_blocks_count as int, 4)) + le_bytes(b.s_free_inodes_count as int, 4)) + le_bytes(b.s_first_data_block as int, 4)) + le_bytes(b.s_log_block_size as int, 4)) + le_bytes(b.s_log_frag_size as int, 4)) + le_bytes(b.s_blocks_per_group as int, 4)), le_bytes(b.s_frags_per_group as int, 4));
    lemma_concat_eq((((((((le_bytes(a.s_inodes_count as int, 4) + le_bytes(a.s_blocks_count as int, 4)) + le_bytes(a.s_r_blocks_count as int, 4)) + le_bytes(a.s_free_blocks_count as int, 4)) + le_bytes(a.s_free_inodes_count as int, 4)) + le_bytes(a.s_first_data_block as int, 4)) + le_bytes(a.s_log_block_size as int, 4)) + le_bytes(a.s_log_frag_size as int, 4)), le_bytes(a.s_blocks_per_group as int, 4), (((((((le_bytes(b.s_inodes_count as int, 4) + le_bytes(b.s_blocks_count as int, 4)) + le_bytes(b.s_r_blocks_count as int, 4)) + le_bytes(b.s_free_blocks_count as int, 4)) + le_bytes(b.s_free_inodes_count as int, 4)) + le_bytes(b.s_first_data_block as int, 4)) + le_bytes(b.s_log_block_size as int, 4)) + le_bytes(b.s_log_frag_size as int, 4)), le_bytes(b.s_blocks_per_group as int, 4));
    lemma_concat_eq(((((((le_bytes(a.s_inodes_count as int, 4) + le_bytes(a.s_blocks_count as int, 4)) + le_bytes(a.s_r_blocks_count as int, 4)) + le_bytes(a.s_free_blocks_count as int, 4)) + le_bytes(a.s_free_inodes_count as int, 4)) + le_bytes(a.s_first_data_block as int, 4)) + le_bytes(a.s_log_block_size as int, 4)), le_bytes(a.s_log_frag_size as int, 4), ((((((le_bytes(b.s_inodes_count as int, 4) + le_bytes(b.s_blocks_count as int, 4)) + le_bytes(b.s_r_blocks_count as int, 4)) + le_bytes(b.s_free_blocks_count as int, 4)) + le_bytes(b.s_free_inodes_count as int, 4)) + le_bytes(b.s_first_data_block as int, 4)) + le_bytes(b.s_log_block_size as int, 4)), le_bytes(b.s_log_frag_size as int, 4));
    lemma_concat_eq((((((le_bytes(a.s_inodes_count as int, 4) + le_bytes(a.s_blocks_count as int, 4)) + le_bytes(a.s_r_blocks_count as int, 4)) + le_bytes(a.s_free_blocks_count as int, 4)) + le_bytes(a.s_free_inodes_count as int, 4)) + le_bytes(a.s_first_data_block as int, 4)), le_bytes(a.s_log_block_size as int, 4), (((((le_bytes(b.s_inodes_count as int, 4) + le_bytes(b.s_blocks_count as int, 4)) + le_bytes(b.s_r_blocks_count as int, 4)) + le_bytes(b.s_free_blocks_count as int, 4)) + le_bytes(b.s_free_inodes_count as int, 4)) + le_bytes(b.s_first_data_block as int, 4)), le_bytes(b.s_log_block_size as int, 4));
    lemma_concat_eq(((((le_bytes(a.s_inodes_count as int, 4) + le_bytes(a.s_blocks_count as int, 4)) + le_bytes(a.s_r_blocks_count as int, 4)) + le_bytes(a.s_free_blocks_count as int, 4)) + le_bytes(a.s_free_inodes_count as int, 4)), le_bytes(a.s_first_data_block as int, 4), ((((le_bytes(b.s_inodes_count as int, 4) + le_bytes(b.s_blocks_count as int, 4)) + le_bytes(b.s_r_blocks_count as int, 4)) + le_bytes(b.s_free_blocks_count as int, 4)) + le_bytes(b.s_free_inodes_count as int, 4)), le_bytes(b.s_first_data_block as int, 4));
    lemma_concat_eq((((le_bytes(a.s_inodes_count as int, 4) + le_bytes(a.s_blocks_count as int, 4)) + le_bytes(a.s_r_blocks_count as int, 4)) + le_bytes(a.s_free_blocks_count as int, 4)), le_bytes(a.s_free_inodes_count as int, 4), (((le_bytes(b.s_inodes_count as int, 4) + le_bytes(b.s_blocks_count as int, 4)) + le_bytes(b.s_r_blocks_count as int, 4)) + le_bytes(b.s_free_blocks_count as int, 4)), le_bytes(b.s_free_inodes_count as int, 4));
    lemma_concat_eq(((le_bytes(a.s_inodes_count as int, 4) + le_bytes(a.s_blocks_count as int, 4)) + le_bytes(a.s_r_blocks_count as int, 4)), le_bytes(a.s_free_blocks_count as int, 4), ((le_bytes(b.s_inodes_count as int, 4) + le_bytes(b.s_blocks_count as int, 4)) + le_bytes(b.s_r_blocks_count as int, 4)), le_bytes(b.s_free_blocks_count as int, 4));
    lemma_concat_eq((le_bytes(a.s_inodes_count as int, 4) + le_bytes(a.s_blocks_count as int, 4)), le_bytes(a.s_r_blocks_count as int, 4), (le_bytes(b.s_inodes_count as int, 4) + le_bytes(b.s_blocks_count as int, 4)), le_bytes(b.s_r_blocks_count as int, 4));
    lemma_concat_eq(le_bytes(a.s_inodes_count as int, 4), le_bytes(a.s_blocks_count as int, 4), le_bytes(b.s_inodes_count as int, 4), le_bytes(b.s_blocks_count as int, 4));
    lemma_concat_eq(Seq::<u8>::empty(), le_bytes(a.s_inodes_count as int, 4), Seq::<u8>::empty(), le_bytes(b.s_inodes_count as int, 4));
    lemma_le_bytes_injective(a.s_inodes_count as int, b.s_inodes_count as int, 4);
    lemma_le_bytes_injective(a.s_blocks_count as int, b.s_blocks_count as int, 4);
    lemma_le_bytes_injective(a.s_r_blocks_count as int, b.s_r_blocks_count as int, 4);
    lemma_le_bytes_injective(a.s_free_blocks_count as int, b.s_free_blocks_count as int, 4);
    lemma_le_bytes_injective(a.s_free_inodes_count as int, b.s_free_inodes_count as int, 4);
    lemma_le_bytes_injective(a.s_first_data_block as int, b.s_first_data_block as int, 4);
    lemma_le_bytes_injective(a.s_log_block_size as int, b.s_log_block_size as int, 4);
    lemma_le_bytes_injective(a.s_log_frag_size as int, b.s_log_frag_size as int, 4);
    lemma_le_bytes_injective(a.s_blocks_per_group as int, b.s_blocks_per_group as int, 4);
    lemma_le_bytes_injective(a.s_frags_per_group as int, b.s_frags_per_group as int, 4);
    lemma_le_bytes_injective(a.s_inodes_per_group as int, b.s_inodes_per_group as int, 4);
    lemma_le_bytes_injective(a.s_mtime as int, b.s_mtime as int, 4);
    lemma_le_bytes_injective(a.s_wtime as int, b.s_wtime as int, 4);
    lemma_le_bytes_injective(a.s_mnt_count as int, b.s_mnt_count as int, 2);
    lemma_le_bytes_injective(a.s_max_mnt_count as int, b.s_max_mnt_count as int, 2);
    lemma_le_bytes_injective(a.s_magic as int, b.s_magic as int, 2);
    lemma_le_bytes_injective(a.s_state as int, b.s_state as int, 2);
    lemma_le_bytes_injective(a.s_errors as int, b.s_errors as int, 2);
    lemma_le_bytes_injective(a.s_minor_rev_level as int, b.s_minor_rev_level as int, 2);
    lemma_le_bytes_injective(a.s_lastcheck as int, b.s_lastcheck as int, 4);
    lemma_le_bytes_injective(a.s_checkinterval as int, b.s_checkinterval as int, 4);
    lemma_le_bytes_injective(a.s_creator_os as int, b.s_creator_os as int, 4);
    lemma_le_bytes_injective(a.s_rev_level as int, b.s_rev_level as int, 4);
    lemma_le_bytes_injective(a.s_def_resuid as int, b.s_def_resuid as int, 2);
    lemma_le_bytes_injective(a.s_def_resgid as int, b.s_def_resgid as int, 2);
    lemma_le_bytes_injective(a.s_first_ino as int, b.s_first_ino as int, 4);
    lemma_le_bytes_injective(a.s_inode_size as int, b.s_inode_size as int, 2);
    lemma_le_bytes_injective(a.s_block_group_nr as int, b.s_block_group_nr as int, 2);
    lemma_le_bytes_injective(a.s_feature_compat as int, b.s_feature_compat as int, 4);
    lemma_le_bytes_injective(a.s_feature_incompat as int, b.s_feature_incompat as int, 4);
    lemma_le_bytes_injective(a.s_feature_ro_compat as int, b.s_feature_ro_compat as int, 4);
    assert(a.s_uuid =~= b.s_uuid);
    assert(a.s_volume_name =~= b.s_volume_name);
    assert(a.s_last_mounted =~= b.s_last_mounted);
    lemma_le_bytes_injective(a.s_algo_bitmap as int, b.s_algo_bitmap as int, 4);
    assert(seq![a.s_prealloc_blocks][0] == seq![b.s_prealloc_blocks][0]);
    assert(seq![a.s_prealloc_dir_blocks][0] == seq![b.s_prealloc_dir_blocks][0]);
    lemma_le_bytes_injective(a.s_padding1 as int, b.s_padding1 as int, 2);
    assert(a.s_journal_uuid =~= b.s_journal_uuid);
    lemma_le_bytes_injective(a.s_journal_inum as int, b.s_journal_inum as int, 4);
    lemma_le_bytes_injective(a.s_journal_dev as int, b.s_journal_dev as int, 4);
    lemma_le_bytes_injective(a.s_last_orphan as int, b.s_last_orphan as int, 4);
    lemma_u32s_injective(a.s_hash_seed@, b.s_hash_seed@);
    assert(a.s_hash_seed =~= b.s_hash_seed);
    assert(seq![a.s_def_hash_version][0] == seq![b.s_def_hash_version][0]);
    assert(a.reserved =~= b.reserved);
    lemma_le_bytes_injective(a.s_default_mount_opts as int, b.s_default_mount_opts as int, 4);
    lemma_le_bytes_injective(a.s_first_meta_bg as int, b.s_first_meta_bg as int, 4);
}

/// Block Group Descriptor structure
#[derive(Clone, Copy, Debug, PartialEq, Eq, Structural)]
pub struct GroupDescriptor {
    /// Block number of block bitmap
    pub bg_block_bitmap: u32,
    /// Block number of inode bitmap
    pub bg_inode_bitmap: u32,
    /// Block number of inode table
    pub bg_inode_table: u32,
    /// Number of free blocks
    pub bg_free_blocks_count: u16,
    /// Number of free inodes
    pub bg_free_inodes_count: u16,
    /// Number of directories
    pub bg_used_dirs_count: u16,
}

/// The size in bytes of the on-disk form of [`GroupDescriptor`].
pub const GROUP_DESCRIPTOR_SIZE: usize = 18;

impl GroupDescriptor {
    /// The on-disk form: the fields one after another, little-endian.
    pub open spec fn spec_bytes(&self) -> Seq<u8> {
        (((((le_bytes(self.bg_block_bitmap as int, 4) + le_bytes(self.bg_inode_bitmap as int, 4)) + le_bytes(self.bg_inode_table as int, 4)) + le_bytes(self.bg_free_blocks_count as int, 2)) + le_bytes(self.bg_free_inodes_count as int, 2)) + le_bytes(self.bg_used_dirs_count as int, 2))
    }

    /// Parses the on-disk form at the start of `input`; the size read comes back with it.
    pub fn deserialize(input: &[u8]) -> (r: Result<(Self, usize), DvDeErr>)
        ensures
            input@.len() < GROUP_DESCRIPTOR_SIZE <==> r is Err,
            r matches Ok((v, n)) ==> n == GROUP_DESCRIPTOR_SIZE && v.spec_bytes() == input@.subrange(0, GROUP_DESCRIPTOR_SIZE as int),
    {
        if input.len() < GROUP_DESCRIPTOR_SIZE {
            return Err(DvDeErr::WrongBufferSize);
        }
        let ghost s = input@;
        let bg_block_bitmap = read_u32_le(input, 0);
        proof { lemma_le_fixed(s, 0); lemma_le_field(s, 0, 4, bg_block_bitmap as int); }
        assert(s.subrange(0, 4) =~= s.subrange(0, 0) + s.subrange(0, 4));
        let bg_inode_bitmap = read_u32_le(input, 4);
        proof { lemma_le_fixed(s, 4); lemma_le_field(s, 4, 4, bg_inode_bitmap as int); }
        assert(s.subrange(0, 8) =~= s.subrange(0, 4) + s.subrange(4, 8));
        let bg_inode_table = read_u32_le(input, 8);
        proof { lemma_le_fixed(s, 8); lemma_le_field(s, 8, 4, bg_inode_table as int); }
        assert(s.subrange(0, 12) =~= s.subrange(0, 8) + s.subrange(8, 12));
        let bg_free_blocks_count = read_u16_le(input, 12);
        proof { lemma_le_fixed(s, 12); lemma_le_field(s, 12, 2, bg_free_blocks_count as int); }
        assert(s.subrange(0, 14) =~= s.subrange(0, 12) + s.subrange(12, 14));
        let bg_free_inodes_count = read_u16_le(input, 14);
        proof { lemma_le_fixed(s, 14); lemma_le_field(s, 14, 2, bg_free_inodes_count as int); }
        assert(s.subrange(0, 16) =~= s.subrange(0, 14) + s.subrange(14, 16));
        let bg_used_dirs_count = read_u16_le(input, 16);
        proof { lemma_le_fixed(s, 16); lemma_le_field(s, 16, 2, bg_used_dirs_count as int); }
        assert(s.subrange(0, 18) =~= s.subrange(0, 16) + s.subrange(16, 18));
        let v = GroupDescriptor { bg_block_bitmap, bg_inode_bitmap, bg_inode_table, bg_free_blocks_count, bg_free_inodes_count, bg_used_dirs_count };
        assert(s.subrange(0, 0) =~= Seq::<u8>::empty());
        assert(Seq::<u8>::empty() + s.subrange(0, 4) =~= s.subrange(0, 4));
        Ok((v, GROUP_DESCRIPTOR_SIZE))
    }

    /// The on-disk form.
    pub fn to_bytes(&self) -> (out: Vec<u8>)
        ensures
            out@ == self.spec_bytes(),
            out@.len() == GROUP_DESCRIPTOR_SIZE,
    {
        let mut out: Vec<u8> = Vec::new();
        push_le(&mut out, 4, self.bg_block_bitmap as u128);
        push_le(&mut out, 4, self.bg_inode_bitmap as u128);
        push_le(&mut out, 4, self.bg_inode_table as u128);
        push_le(&mut out, 2, self.bg_free_blocks_count as u128);
        push_le(&mut out, 2, self.bg_free_inodes_count as u128);
        push_le(&mut out, 2, self.bg_used_dirs_count as u128);
        assert(out@ =~= self.spec_bytes());
        out
    }

    /// Writes the on-disk form into `target` at `off`; the size written comes back.
    pub fn serialize(&self, target: &mut Vec<u8>, off: usize) -> (r: Result<usize, DvSerErr>)
        ensures
            r is Err <==> old(target)@.len() < off + GROUP_DESCRIPTOR_SIZE,
            r is Err ==> final(target)@ == old(target)@,
            r matches Ok(n) ==> n == GROUP_DESCRIPTOR_SIZE && final(target)@ == old(target)@.take(off as int) + self.spec_bytes() + old(target)@.skip(off + GROUP_DESCRIPTOR_SIZE),
    {
        if target.len() < GROUP_DESCRIPTOR_SIZE || off > target.len() - GROUP_DESCRIPTOR_SIZE {
            return Err(DvSerErr::BufferTooSmall);
        }
        let ghost before = target@;
        let bytes = self.to_bytes();
        copy_into(target, off, bytes.as_slice());
        assert(target@ =~= before.take(off as int) + self.spec_bytes() + before.skip(off + GROUP_DESCRIPTOR_SIZE));
        Ok(GROUP_DESCRIPTOR_SIZE)
    }
}

/// Two values with the same on-disk form are equal, so parsing what was written gives
/// back what was written.
pub proof fn lemma_group_descriptor_bytes_injective(a: GroupDescriptor, b: GroupDescriptor)
    requires
        a.spec_bytes() == b.spec_bytes(),
    ensures
        a == b,
{
    lemma_pow256();
    lemma_concat_eq(((((le_bytes(a.bg_block_bitmap as int, 4) + le_bytes(a.bg_inode_bitmap as int, 4)) + le_bytes(a.bg_inode_table as int, 4)) + le_bytes(a.bg_free_blocks_count as int, 2)) + le_bytes(a.bg_free_inodes_count as int, 2)), le_bytes(a.bg_used_dirs_count as int, 2), ((((le_bytes(b.bg_block_bitmap as int, 4) + le_bytes(b.bg_inode_bitmap as int, 4)) + le_bytes(b.bg_inode_table as int, 4)) + le_bytes(b.bg_free_blocks_count as int, 2)) + le_bytes(b.bg_free_inodes_count as int, 2)), le_bytes(b.bg_used_dirs_count as int, 2));
    lemma_concat_eq((((le_bytes(a.bg_block_bitmap as int, 4) + le_bytes(a.bg_inode_bitmap as int, 4)) + le_bytes(a.bg_inode_table as int, 4)) + le_bytes(a.bg_free_blocks_count as int, 2)), le_bytes(a.bg_free_inodes_count as int, 2), (((le_bytes(b.bg_block_bitmap as int, 4) + le_bytes(b.bg_inode_bitmap as int, 4)) + le_bytes(b.bg_inode_table as int, 4)) + le_bytes(b.bg_free_blocks_count as int, 2)), le_bytes(b.bg_free_inodes_count as int, 2));
    lemma_concat_eq(((le_bytes(a.bg_block_bitmap as int, 4) + le_bytes(a.bg_inode_bitmap as int, 4)) + le_bytes(a.bg_inode_table as int, 4)), le_bytes(a.bg_free_blocks_count as int, 2), ((le_bytes(b.bg_block_bitmap as int, 4) + le_bytes(b.bg_inode_bitmap as int, 4)) + le_bytes(b.bg_inode_table as int, 4)), le_bytes(b.bg_free_blocks_count as int, 2));
    lemma_concat_eq((le_bytes(a.bg_block_bitmap as int, 4) + le_bytes(a.bg_inode_bitmap as int, 4)), le_bytes(a.bg_inode_table as int, 4), (le_bytes(b.bg_block_bitmap as int, 4) + le_bytes(b.bg_inode_bitmap as int, 4)), le_bytes(b.bg_inode_table as int, 4));
    lemma_concat_eq(le_bytes(a.bg_block_bitmap as int, 4), le_bytes(a.bg_inode_bitmap as int, 4), le_bytes(b.bg_block_bitmap as int, 4), le_bytes(b.bg_inode_bitmap as int, 4));
    lemma_concat_eq(Seq::<u8>::empty(), le_bytes(a.bg_block_bitmap as int, 4), Seq::<u8>::empty(), le_bytes(b.bg_block_bitmap as int, 4));
    lemma_le_bytes_injective(a.bg_block_bitmap as int, b.bg_block_bitmap as int, 4);
    lemma_le_bytes_injective(a.bg_inode_bitmap as int, b.bg_inode_bitmap as int, 4);
    lemma_le_bytes_injective(a.bg_inode_table as int, b.bg_inode_table as int, 4);
    lemma_le_bytes_injective(a.bg_free_blocks_count as int, b.bg_free_blocks_count as int, 2);
    lemma_le_bytes_injective(a.bg_free_inodes_count as int, b.bg_free_inodes_count as int, 2);
    lemma_le_bytes_injective(a.bg_used_dirs_count as int, b.bg_used_dirs_count as int, 2);
}

/// Inode structure - represents a file, directory, or other filesystem object
#[derive(Clone, Copy, Debug)]
pub struct Inode {
    /// File mode (type and permissions)
    pub i_mode: u16,
    /// Low 16 bits of owner UID
    pub i_uid: u16,
    /// Size in bytes
    pub i_size: u32,
    /// Access time
    pub i_atime: u32,
    /// Creation time
    pub i_ctime: u32,
    /// Modification time
    pub i_mtime: u32,
    /// Deletion time
    pub i_dtime: u32,
    /// Low 16 bits of group ID
    pub i_gid: u16,
    /// Links count
    pub i_links_count: u16,
    /// Blocks count (512-byte blocks)
    pub i_blocks: u32,
    /// File flags
    pub i_flags: u32,
    /// OS dependent field 1
    pub i_osd1: u32,
    /// Pointers to blocks
    pub i_block: [u32; 15],
    /// File version (for NFS)
    pub i_generation: u32,
    /// File ACL (extended attributes)
    pub i_file_acl: u32,
    /// Directory ACL (or high 32 bits of size)
    pub i_dir_acl: u32,
    /// Fragment address
    pub i_faddr: u32,
    /// OS dependent field 2
    pub i_osd2: [u8; 12],
}

/// The size in bytes of the on-disk form of [`Inode`].
pub const INODE_RECORD_SIZE: usize = 128;

impl Inode {
    /// The on-disk form: the fields one after another, little-endian.
    pub open spec fn spec_bytes(&self) -> Seq<u8> {
        (((((((((((((((((le_bytes(self.i_mode as int, 2) + le_bytes(self.i_uid as int, 2)) + le_bytes(self.i_size as int, 4)) + le_bytes(self.i_atime as int, 4)) + le_bytes(self.i_ctime as int, 4)) + le_bytes(self.i_mtime as int, 4)) + le_bytes(self.i_dtime as int, 4)) + le_bytes(self.i_gid as int, 2)) + le_bytes(self.i_links_count as int, 2)) + le_bytes(self.i_blocks as int, 4)) + le_bytes(self.i_flags as int, 4)) + le_bytes(self.i_osd1 as int, 4)) + u32s_le_bytes(self.i_block@)) + le_bytes(self.i_generation as int, 4)) + le_bytes(self.i_file_acl as int, 4)) + le_bytes(self.i_dir_acl as int, 4)) + le_bytes(self.i_faddr as int, 4)) + self.i_osd2@)
    }

    /// Parses the on-disk form at the start of `input`; the size read comes back with it.
    pub fn deserialize(input: &[u8]) -> (r: Result<(Self, usize), DvDeErr>)
        ensures
            input@.len() < INODE_RECORD_SIZE <==> r is Err,
            r matches Ok((v, n)) ==> n == INODE_RECORD_SIZE && v.spec_bytes() == input@.subrange(0, INODE_RECORD_SIZE as int),
    {
        if input.len() < INODE_RECORD_SIZE {
            return Err(DvDeErr::WrongBufferSize);
        }
        let ghost s = input@;
        let i_mode = read_u16_le(input, 0);
        proof { lemma_le_fixed(s, 0); lemma_le_field(s, 0, 2, i_mode as int); }
        assert(s.subrange(0, 2) =~= s.subrange(0, 0) + s.subrange(0, 2));
        let i_uid = read_u16_le(input, 2);
        proof { lemma_le_fixed(s, 2); lemma_le_field(s, 2, 2, i_uid as int); }
        assert(s.subrange(0, 4) =~= s.subrange(0, 2) + s.subrange(2, 4));
        let i_size = read_u32_le(input, 4);
        proof { lemma_le_fixed(s, 4); lemma_le_field(s, 4, 4, i_size as int); }
        assert(s.subrange(0, 8) =~= s.subrange(0, 4) + s.subrange(4, 8));
        let i_atime = read_u32_le(input, 8);
        proof { lemma_le_fixed(s, 8); lemma_le_field(s, 8, 4, i_atime as int); }
        assert(s.subrange(0, 12) =~= s.subrange(0, 8) + s.subrange(8, 12));
        let i_ctime = read_u32_le(input, 12);
        proof { lemma_le_fixed(s, 12); lemma_le_field(s, 12, 4, i_ctime as int); }
        assert(s.subrange(0, 16) =~= s.subrange(0, 12) + s.subrange(12, 16));
        let i_mtime = read_u32_le(input, 16);
        proof { lemma_le_fixed(s, 16); lemma_le_field(s, 16, 4, i_mtime as int); }
        assert(s.subrange(0, 20) =~= s.subrange(0, 16) + s.subrange(16, 20));
        let i_dtime = read_u32_le(input, 20);
        proof { lemma_le_fixed(s, 20); lemma_le_field(s, 20, 4, i_dtime as int); }
        assert(s.subrange(0, 24) =~= s.subrange(0, 20) + s.subrange(20, 24));
        let i_gid = read_u16_le(input, 24);
        proof { lemma_le_fixed(s, 24); lemma_le_field(s, 24, 2, i_gid as int); }
        assert(s.subrange(0, 26) =~= s.subrange(0, 24) + s.subrange(24, 26));
        let i_links_count = read_u16_le(input, 26);
        proof { lemma_le_fixed(s, 26); lemma_le_field(s, 26, 2, i_links_count as int); }
        assert(s.subrange(0, 28) =~= s.subrange(0, 26) + s.subrange(26, 28));
        let i_blocks = read_u32_le(input, 28);
        proof { lemma_le_fixed(s, 28); lemma_le_field(s, 28, 4, i_blocks as int); }
        assert(s.subrange(0, 32) =~= s.subrange(0, 28) + s.subrange(28, 32));
        let i_flags = read_u32_le(input, 32);
        proof { lemma_le_fixed(s, 32); lemma_le_field(s, 32, 4, i_flags as int); }
        assert(s.subrange(0, 36) =~= s.subrange(0, 32) + s.subrange(32, 36));
        let i_osd1 = read_u32_le(input, 36);
        proof { lemma_le_fixed(s, 36); lemma_le_field(s, 36, 4, i_osd1 as int); }
        assert(s.subrange(0, 40) =~= s.subrange(0, 36) + s.subrange(36, 40));
        let i_block: [u32; 15] = read_u32_array::<15>(input, 40);
        proof { lemma_u32s_field(s, 40, i_block@); }
        assert(s.subrange(0, 100) =~= s.subrange(0, 40) + s.subrange(40, 100));
        let i_generation = read_u32_le(input, 100);
        proof { lemma_le_fixed(s, 100); lemma_le_field(s, 100, 4, i_generation as int); }
        assert(s.subrange(0, 104) =~= s.subrange(0, 100) + s.subrange(100, 104));
        let i_file_acl = read_u32_le(input, 104);
        proof { lemma_le_fixed(s, 104); lemma_le_field(s, 104, 4, i_file_acl as int); }
        assert(s.subrange(0, 108) =~= s.subrange(0, 104) + s.subrange(104, 108));
        let i_dir_acl = read_u32_le(input, 108);
        proof { lemma_le_fixed(s, 108); lemma_le_field(s, 108, 4, i_dir_acl as int); }
        assert(s.subrange(0, 112) =~= s.subrange(0, 108) + s.subrange(108, 112));
        let i_faddr = read_u32_le(input, 112);
        proof { lemma_le_fixed(s, 112); lemma_le_field(s, 112, 4, i_faddr as int); }
        assert(s.subrange(0, 116) =~= s.subrange(0, 112) + s.subrange(112, 116));
        let i_osd2: [u8; 12] = read_u8_array::<12>(input, 116);
        assert(s.subrange(0, 128) =~= s.subrange(0, 116) + s.subrange(116, 128));
        let v = Inode { i_mode, i_uid, i_size, i_atime, i_ctime, i_mtime, i_dtime, i_gid, i_links_count, i_blocks, i_flags, i_osd1, i_block, i_generation, i_file_acl, i_dir_acl, i_faddr, i_osd2 };
        assert(s.subrange(0, 0) =~= Seq::<u8>::empty());
        assert(Seq::<u8>::empty() + s.subrange(0, 2) =~= s.subrange(0, 2));
        Ok((v, INODE_RECORD_SIZE))
    }

    /// The on-disk form.
    pub fn to_bytes(&self) -> (out: Vec<u8>)
        ensures
            out@ == self.spec_bytes(),
            out@.len() == INODE_RECORD_SIZE,
    {
        let mut out: Vec<u8> = Vec::new();
        push_le(&mut out, 2, self.i_mode as u128);
        push_le(&mut out, 2, self.i_uid as u128);
        push_le(&mut out, 4, self.i_size as u128);
        push_le(&mut out, 4, self.i_atime as u128);
        push_le(&mut out, 4, self.i_ctime as u128);
        push_le(&mut out, 4, self.i_mtime as u128);
        push_le(&mut out, 4, self.i_dtime as u128);
        push_le(&mut out, 2, self.i_gid as u128);
        push_le(&mut out, 2, self.i_links_count as u128);
        push_le(&mut out, 4, self.i_blocks as u128);
        push_le(&mut out, 4, self.i_flags as u128);
        push_le(&mut out, 4, self.i_osd1 as u128);
        push_u32_array(&mut out, &self.i_block);
        push_le(&mut out, 4, self.i_generation as u128);
        push_le(&mut out, 4, self.i_file_acl as u128);
        push_le(&mut out, 4, self.i_dir_acl as u128);
        push_le(&mut out, 4, self.i_faddr as u128);
        push_u8_array(&mut out, &self.i_osd2);
        assert(out@ =~= self.spec_bytes());
        out
    }

    /// Writes the on-disk form into `target` at `off`; the size written comes back.
    pub fn serialize(&self, target: &mut Vec<u8>, off: usize) -> (r: Result<usize, DvSerErr>)
        ensures
            r is Err <==> old(target)@.len() < off + INODE_RECORD_SIZE,
            r is Err ==> final(target)@ == old(target)@,
            r matches Ok(n) ==> n == INODE_RECORD_SIZE && final(target)@ == old(target)@.take(off as int) + self.spec_bytes() + old(target)@.skip(off + INODE_RECORD_SIZE),
    {
        if target.len() < INODE_RECORD_SIZE || off > target.len() - INODE_RECORD_SIZE {
            return Err(DvSerErr::BufferTooSmall);
        }
        let ghost before = target@;
        let bytes = self.to_bytes();
        copy_into(target, off, bytes.as_slice());
        assert(target@ =~= before.take(off as int) + self.spec_bytes() + before.skip(off + INODE_RECORD_SIZE));
        Ok(INODE_RECORD_SIZE)
    }
}

/// Two values with the same on-disk form are equal, so parsing what was written gives
/// back what was written.
pub proof fn lemma_inode_bytes_injective(a: Inode, b: Inode)
    requires
        a.spec_bytes() == b.spec_bytes(),
    ensures
        a == b,
{
    lemma_pow256();
    lemma_concat_eq(((((((((((((((((le_bytes(a.i_mode as int, 2) + le_bytes(a.i_uid as int, 2)) + le_bytes(a.i_size as int, 4)) + le_bytes(a.i_atime as int, 4)) + le_bytes(a.i_ctime as int, 4)) + le_bytes(a.i_mtime as int, 4)) + le_bytes(a.i_dtime as int, 4)) + le_bytes(a.i_gid as int, 2)) + le_bytes(a.i_links_count as int, 2)) + le_bytes(a.i_blocks as int, 4)) + le_bytes(a.i_flags as int, 4)) + le_bytes(a.i_osd1 as int, 4)) + u32s_le_bytes(a.i_block@)) + le_bytes(a.i_generation as int, 4)) + le_bytes(a.i_file_acl as int, 4)) + le_bytes(a.i_dir_acl as int, 4)) + le_bytes(a.i_faddr as int, 4)), a.i_osd2@, ((((((((((((((((le_bytes(b.i_mode as int, 2) + le_bytes(b.i_uid as int, 2)) + le_bytes(b.i_size as int, 4)) + le_bytes(b.i_atime as int, 4)) + le_bytes(b.i_ctime as int, 4)) + le_bytes(b.i_mtime as int, 4)) + le_bytes(b.i_dtime as int, 4)) + le_bytes(b.i_gid as int, 2)) + le_bytes(b.i_links_count as int, 2)) + le_bytes(b.i_blocks as int, 4)) + le_bytes(b.i_flags as int, 4)) + le_bytes(b.i_osd1 as int, 4)) + u32s_le_bytes(b.i_block@)) + le_bytes(b.i_generation as int, 4)) + le_bytes(b.i_file_acl as int, 4)) + le_bytes(b.i_dir_acl as int, 4)) + le_bytes(b.i_faddr as int, 4)), b.i_osd2@);
    lemma_concat_eq((((((((((((((((le_bytes(a.i_mode as int, 2) + le_bytes(a.i_uid as int, 2)) + le_bytes(a.i_size as int, 4)) + le_bytes(a.i_atime as int, 4)) + le_bytes(a.i_ctime as int, 4)) + le_bytes(a.i_mtime as int, 4)) + le_bytes(a.i_dtime as int, 4)) + le_bytes(a.i_gid as int, 2)) + le_bytes(a.i_links_count as int, 2)) + le_bytes(a.i_blocks as int, 4)) + le_bytes(a.i_flags as int, 4)) + le_bytes(a.i_osd1 as int, 4)) + u32s_le_bytes(a.i_block@)) + le_bytes(a.i_generation as int, 4)) + le_bytes(a.i_file_acl as int, 4)) + le_bytes(a.i_dir_acl as int, 4)), le_bytes(a.i_faddr as int, 4), (((((((((((((((le_bytes(b.i_mode as int, 2) + le_bytes(b.i_uid as int, 2)) + le_bytes(b.i_size as int, 4)) + le_bytes(b.i_atime as int, 4)) + le_bytes(b.i_ctime as int, 4)) + le_bytes(b.i_mtime as int, 4)) + le_bytes(b.i_dtime as int, 4)) + le_bytes(b.i_gid as int, 2)) + le_bytes(b.i_links_count as int, 2)) + le_bytes(b.i_blocks as int, 4)) + le_bytes(b.i_flags as int, 4)) + le_bytes(b.i_osd1 as int, 4)) + u32s_le_bytes(b.i_block@)) + le_bytes(b.i_generation as int, 4)) + le_bytes(b.i_file_acl as int, 4)) + le_bytes(b.i_dir_acl as int, 4)), le_bytes(b.i_faddr as int, 4));
    lemma_concat_eq(((((((((((((((le_bytes(a.i_mode as int, 2) + le_bytes(a.i_uid as int, 2)) + le_bytes(a.i_size as int, 4)) + le_bytes(a.i_atime as int, 4)) + le_bytes(a.i_ctime as int, 4)) + le_bytes(a.i_mtime as int, 4)) + le_bytes(a.i_dtime as int, 4)) + le_bytes(a.i_gid as int, 2)) + le_bytes(a.i_links_count as int, 2)) + le_bytes(a.i_blocks as int, 4)) + le_bytes(a.i_flags as int, 4)) + le_bytes(a.i_osd1 as int, 4)) + u32s_le_bytes(a.i_block@)) + le_bytes(a.i_generation as int, 4)) + le_bytes(a.i_file_acl as int, 4)), le_bytes(a.i_dir_acl as int, 4), ((((((((((((((le_bytes(b.i_mode as int, 2) + le_bytes(b.i_uid as int, 2)) + le_bytes(b.i_size as int, 4)) + le_bytes(b.i_atime as int, 4)) + le_bytes(b.i_ctime as int, 4)) + le_bytes(b.i_mtime as int, 4)) + le_bytes(b.i_dtime as int, 4)) + le_bytes(b.i_gid as int, 2)) + le_bytes(b.i_links_count as int, 2)) + le_bytes(b.i_blocks as int, 4)) + le_bytes(b.i_flags as int, 4)) + le_bytes(b.i_osd1 as int, 4)) + u32s_le_bytes(b.i_block@)) + le_bytes(b.i_generation as int, 4)) + le_bytes(b.i_file_acl as int, 4)), le_bytes(b.i_dir_acl as int, 4));
    lemma_concat_eq((((((((((((((le_bytes(a.i_mode as int, 2) + le_bytes(a.i_uid as int, 2)) + le_bytes(a.i_size as int, 4)) + le_bytes(a.i_atime as int, 4)) + le_bytes(a.i_ctime as int, 4)) + le_bytes(a.i_mtime as int, 4)) + le_bytes(a.i_dtime as int, 4)) + le_bytes(a.i_gid as int, 2)) + le_bytes(a.i_links_count as int, 2)) + le_bytes(a.i_blocks as int, 4)) + le_bytes(a.i_flags as int, 4)) + le_bytes(a.i_osd1 as int, 4)) + u32s_le_bytes(a.i_block@)) + le_bytes(a.i_generation as int, 4)), le_bytes(a.i_file_acl as int, 4), (((((((((((((le_bytes(b.i_mode as int, 2) + le_bytes(b.i_uid as int, 2)) + le_bytes(b.i_size as int, 4)) + le_bytes(b.i_atime as int, 4)) + le_bytes(b.i_ctime as int, 4)) + le_bytes(b.i_mtime as int, 4)) + le_bytes(b.i_dtime as int, 4)) + le_bytes(b.i_gid as int, 2)) + le_bytes(b.i_links_count as int, 2)) + le_bytes(b.i_blocks as int, 4)) + le_bytes(b.i_flags as int, 4)) + le_bytes(b.i_osd1 as int, 4)) + u32s_le_bytes(b.i_block@)) + le_bytes(b.i_generation as int, 4)), le_bytes(b.i_file_acl as int, 4));
    lemma_concat_eq(((((((((((((le_bytes(a.i_mode as int, 2) + le_bytes(a.i_uid as int, 2)) + le_bytes(a.i_size as int, 4)) + le_bytes(a.i_atime as int, 4)) + le_bytes(a.i_ctime as int, 4)) + le_bytes(a.i_mtime as int, 4)) + le_bytes(a.i_dtime as int, 4)) + le_bytes(a.i_gid as int, 2)) + le_bytes(a.i_links_count as int, 2)) + le_bytes(a.i_blocks as int, 4)) + le_bytes(a.i_flags as int, 4)) + le_bytes(a.i_osd1 as int, 4)) + u32s_le_bytes(a.i_block@)), le_bytes(a.i_generation as int, 4), ((((((((((((le_bytes(b.i_mode as int, 2) + le_bytes(b.i_uid as int, 2)) + le_bytes(b.i_size as int, 4)) + le_bytes(b.i_atime as int, 4)) + le_bytes(b.i_ctime as int, 4)) + le_bytes(b.i_mtime as int, 4)) + le_bytes(b.i_dtime as int, 4)) + le_bytes(b.i_gid as int, 2)) + le_bytes(b.i_links_count as int, 2)) + le_bytes(b.i_blocks as int, 4)) + le_bytes(b.i_flags as int, 4)) + le_bytes(b.i_osd1 as int, 4)) + u32s_le_bytes(b.i_block@)), le_bytes(b.i_generation as int, 4));
    lemma_concat_eq((((((((((((le_bytes(a.i_mode as int, 2) + le_bytes(a.i_uid as int, 2)) + le_bytes(a.i_size as int, 4)) + le_bytes(a.i_atime as int, 4)) + le_bytes(a.i_ctime as int, 4)) + le_bytes(a.i_mtime as int, 4)) + le_bytes(a.i_dtime as int, 4)) + le_bytes(a.i_gid as int, 2)) + le_bytes(a.i_links_count as int, 2)) + le_bytes(a.i_blocks as int, 4)) + le_bytes(a.i_flags as int, 4)) + le_bytes(a.i_osd1 as int, 4)), u32s_le_bytes(a.i_block@), (((((((((((le_bytes(b.i_mode as int, 2) + le_bytes(b.i_uid as int, 2)) + le_bytes(b.i_size as int, 4)) + le_bytes(b.i_atime as int, 4)) + le_bytes(b.i_ctime as int, 4)) + le_bytes(b.i_mtime as int, 4)) + le_bytes(b.i_dtime as int, 4)) + le_bytes(b.i_gid as int, 2)) + le_bytes(b.i_links_count as int, 2)) + le_bytes(b.i_blocks as int, 4)) + le_bytes(b.i_flags as int, 4)) + le_bytes(b.i_osd1 as int, 4)), u32s_le_bytes(b.i_block@));
    lemma_concat_eq(((((((((((le_bytes(a.i_mode as int, 2) + le_bytes(a.i_uid as int, 2)) + le_bytes(a.i_size as int, 4)) + le_bytes(a.i_atime as int, 4)) + le_bytes(a.i_ctime as int, 4)) + le_bytes(a.i_mtime as int, 4)) + le_bytes(a.i_dtime as int, 4)) + le_bytes(a.i_gid as int, 2)) + le_bytes(a.i_links_count as int, 2)) + le_bytes(a.i_blocks as int, 4)) + le_bytes(a.i_flags as int, 4)), le_bytes(a.i_osd1 as int, 4), ((((((((((le_bytes(b.i_mode as int, 2) + le_bytes(b.i_uid as int, 2)) + le_bytes(b.i_size as int, 4)) + le_bytes(b.i_atime as int, 4)) + le_bytes(b.i_ctime as int, 4)) + le_bytes(b.i_mtime as int, 4)) + le_bytes(b.i_dtime as int, 4)) + le_bytes(b.i_gid as int, 2)) + le_bytes(b.i_links_count as int, 2)) + le_bytes(b.i_blocks as int, 4)) + le_bytes(b.i_flags as int, 4)), le_bytes(b.i_osd1 as int, 4));
    lemma_concat_eq((((((((((le_bytes(a.i_mode as int, 2) + le_bytes(a.i_uid as int, 2)) + le_bytes(a.i_size as int, 4)) + le_bytes(a.i_atime as int, 4)) + le_bytes(a.i_ctime as int, 4)) + le_bytes(a.i_mtime as int, 4)) + le_bytes(a.i_dtime as int, 4)) + le_bytes(a.i_gid as int, 2)) + le_bytes(a.i_links_count as int, 2)) + le_bytes(a.i_blocks as int, 4)), le_bytes(a.i_flags as int, 4), (((((((((le_bytes(b.i_mode as int, 2) + le_bytes(b.i_uid as int, 2)) + le_bytes(b.i_size as int, 4)) + le_bytes(b.i_atime as int, 4)) + le_bytes(b.i_ctime as int, 4)) + le_bytes(b.i_mtime as int, 4)) + le_bytes(b.i_dtime as int, 4)) + le_bytes(b.i_gid as int, 2)) + le_bytes(b.i_links_count as int, 2)) + le_bytes(b.i_blocks as int, 4)), le_bytes(b.i_flags as int, 4));
    lemma_concat_eq(((((((((le_bytes(a.i_mode as int, 2) + le_bytes(a.i_uid as int, 2)) + le_bytes(a.i_size as int, 4)) + le_bytes(a.i_atime as int, 4)) + le_bytes(a.i_ctime as int, 4)) + le_bytes(a.i_mtime as int, 4)) + le_bytes(a.i_dtime as int, 4)) + le_bytes(a.i_gid as int, 2)) + le_bytes(a.i_links_count as int, 2)), le_bytes(a.i_blocks as int, 4), ((((((((le_bytes(b.i_mode as int, 2) + le_bytes(b.i_uid as int, 2)) + le_bytes(b.i_size as int, 4)) + le_bytes(b.i_atime as int, 4)) + le_bytes(b.i_ctime as int, 4)) + le_bytes(b.i_mtime as int, 4)) + le_bytes(b.i_dtime as int, 4)) + le_bytes(b.i_gid as int, 2)) + le_bytes(b.i_links_count as int, 2)), le_bytes(b.i_blocks as int, 4));
    lemma_concat_eq((((((((le_bytes(a.i_mode as int, 2) + le_bytes(a.i_uid as int, 2)) + le_bytes(a.i_size as int, 4)) + le_bytes(a.i_atime as int, 4)) + le_bytes(a.i_ctime as int, 4)) + le_bytes(a.i_mtime as int, 4)) + le_bytes(a.i_dtime as int, 4)) + le_bytes(a.i_gid as int, 2)), le_bytes(a.i_links_count as int, 2), (((((((le_bytes(b.i_mode as int, 2) + le_bytes(b.i_uid as int, 2)) + le_bytes(b.i_size as int, 4)) + le_bytes(b.i_atime as int, 4)) + le_bytes(b.i_ctime as int, 4)) + le_bytes(b.i_mtime as int, 4)) + le_bytes(b.i_dtime as int, 4)) + le_bytes(b.i_gid as int, 2)), le_bytes(b.i_links_count as int, 2));
    lemma_concat_eq(((((((le_bytes(a.i_mode as int, 2) + le_bytes(a.i_uid as int, 2)) + le_bytes(a.i_size as int, 4)) + le_bytes(a.i_atime as int, 4)) + le_bytes(a.i_ctime as int, 4)) + le_bytes(a.i_mtime as int, 4)) + le_bytes(a.i_dtime as int, 4)), le_bytes(a.i_gid as int, 2), ((((((le_bytes(b.i_mode as int, 2) + le_bytes(b.i_uid as int, 2)) + le_bytes(b.i_size as int, 4)) + le_bytes(b.i_atime as int, 4)) + le_bytes(b.i_ctime as int, 4)) + le_bytes(b.i_mtime as int, 4)) + le_bytes(b.i_dtime as int, 4)), le_bytes(b.i_gid as int, 2));
    lemma_concat_eq((((((le_bytes(a.i_mode as int, 2) + le_bytes(a.i_uid as int, 2)) + le_bytes(a.i_size as int, 4)) + le_bytes(a.i_atime as int, 4)) + le_bytes(a.i_ctime as int, 4)) + le_bytes(a.i_mtime as int, 4)), le_bytes(a.i_dtime as int, 4), (((((le_bytes(b.i_mode as int, 2) + le_bytes(b.i_uid as int, 2)) + le_bytes(b.i_size as int, 4)) + le_bytes(b.i_atime as int, 4)) + le_bytes(b.i_ctime as int, 4)) + le_bytes(b.i_mtime as int, 4)), le_bytes(b.i_dtime as int, 4));
    lemma_concat_eq(((((le_bytes(a.i_mode as int, 2) + le_bytes(a.i_uid as int, 2)) + le_bytes(a.i_size as int, 4)) + le_bytes(a.i_atime as int, 4)) + le_bytes(a.i_ctime as int, 4)), le_bytes(a.i_mtime as int, 4), ((((le_bytes(b.i_mode as int, 2) + le_bytes(b.i_uid as int, 2)) + le_bytes(b.i_size as int, 4)) + le_bytes(b.i_atime as int, 4)) + le_bytes(b.i_ctime as int, 4)), le_bytes(b.i_mtime as int, 4));
    lemma_concat_eq((((le_bytes(a.i_mode as int, 2) + le_bytes(a.i_uid as int, 2)) + le_bytes(a.i_size as int, 4)) + le_bytes(a.i_atime as int, 4)), le_bytes(a.i_ctime as int, 4), (((le_bytes(b.i_mode as int, 2) + le_bytes(b.i_uid as int, 2)) + le_bytes(b.i_size as int, 4)) + le_bytes(b.i_atime as int, 4)), le_bytes(b.i_ctime as int, 4));
    lemma_concat_eq(((le_bytes(a.i_mode as int, 2) + le_bytes(a.i_uid as int, 2)) + le_bytes(a.i_size as int, 4)), le_bytes(a.i_atime as int, 4), ((le_bytes(b.i_mode as int, 2) + le_bytes(b.i_uid as int, 2)) + le_bytes(b.i_size as int, 4)), le_bytes(b.i_atime as int, 4));
    lemma_concat_eq((le_bytes(a.i_mode as int, 2) + le_bytes(a.i_uid as int, 2)), le_bytes(a.i_size as int, 4), (le_bytes(b.i_mode as int, 2) + le_bytes(b.i_uid as int, 2)), le_bytes(b.i_size as int, 4));
    lemma_concat_eq(le_bytes(a.i_mode as int, 2), le_bytes(a.i_uid as int, 2), le_bytes(b.i_mode as int, 2), le_bytes(b.i_uid as int, 2));
    lemma_concat_eq(Seq::<u8>::empty(), le_bytes(a.i_mode as int, 2), Seq::<u8>::empty(), le_bytes(b.i_mode as int, 2));
    lemma_le_bytes_injective(a.i_mode as int, b.i_mode as int, 2);
    lemma_le_bytes_injective(a.i_uid as int, b.i_uid as int, 2);
    lemma_le_bytes_injective(a.i_size as int, b.i_size as int, 4);
    lemma_le_bytes_injective(a.i_atime as int, b.i_atime as int, 4);
    lemma_le_bytes_injective(a.i_ctime as int, b.i_ctime as int, 4);
    lemma_le_bytes_injective(a.i_mtime as int, b.i_mtime as int, 4);
    lemma_le_bytes_injective(a.i_dtime as int, b.i_dtime as int, 4);
    lemma_le_bytes_injective(a.i_gid as int, b.i_gid as int, 2);
    lemma_le_bytes_injective(a.i_links_count as int, b.i_links_count as int, 2);
    lemma_le_bytes_injective(a.i_blocks as int, b.i_blocks as int, 4);
    lemma_le_bytes_injective(a.i_flags as int, b.i_flags as int, 4);
    lemma_le_bytes_injective(a.i_osd1 as int, b.i_osd1 as int, 4);
    lemma_u32s_injective(a.i_block@, b.i_block@);
    assert(a.i_block =~= b.i_block);
    lemma_le_bytes_injective(a.i_generation as int, b.i_generation as int, 4);
    lemma_le_bytes_injective(a.i_file_acl as int, b.i_file_acl as int, 4);
    lemma_le_bytes_injective(a.i_dir_acl as int, b.i_dir_acl as int, 4);
    lemma_le_bytes_injective(a.i_faddr as int, b.i_faddr as int, 4);
    assert(a.i_osd2 =~= b.i_osd2);
}

} // verus!
