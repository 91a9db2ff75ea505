//! GUID partition tables: the header and entries on disk, and the checks that decide
//! which copy of the table is used.
use vstd::prelude::*;
use crate::serialize::{DvDeErr, DvSerErr};
use crate::utils::bytes::{
    copy_into, le_bytes, lemma_concat_eq, lemma_le_bytes_injective, lemma_le_field, lemma_le_fixed,
    lemma_pow256, lemma_u16s_field, lemma_u16s_injective, push_le, push_u16_array, push_u8_array,
    read_u128_le, read_u16_array, read_u32_le, read_u64_le, read_u8_array, u16s_le_bytes, le32,
    put_le,
};
use crate::utils::crc32::{is_verified_crc32, spec_crc32};
use crate::utils::guid::Guid;
use crate::utils::strings::push_char;
use crate::ejcineque::pools::{DiskIOBufferPool, DiskIOBufferPoolHandle};

verus! {

/// The header of a GUID partition table.
#[derive(Clone, Copy, Debug)]
pub struct GPTHeader {
    /// Signature, `EFI PART`
    pub sig: [u8; 8],
    /// Revision of the format
    pub revision: u32,
    /// Size of the header in bytes
    pub size: u32,
    /// CRC32 of the header, computed with this field zero
    pub header_crc32: u32,
    /// Reserved, zero
    pub reserved: u32,
    /// Sector of this header
    pub loc: u64,
    /// Sector of the other header
    pub backup_loc: u64,
    /// First sector that partitions may use
    pub first_usable_block: u64,
    /// Last sector that partitions may use
    pub last_usable_block: u64,
    /// The disk's GUID
    pub guid: u128,
    /// Sector where the entry array starts
    pub array_start: u64,
    /// Number of entries in the array
    pub entry_num: u32,
    /// Size of one entry in bytes
    pub entry_size: u32,
    /// CRC32 of the entry array
    pub array_crc32: u32,
}

/// The size in bytes of the on-disk form of [`GPTHeader`].
pub const GPT_HEADER_SIZE: usize = 92;

impl GPTHeader {
    /// The on-disk form: the fields one after another, little-endian.
    pub open spec fn spec_bytes(&self) -> Seq<u8> {
        (((((((((((((self.sig@ + le_bytes(self.revision as int, 4)) + le_bytes(self.size as int, 4)) + le_bytes(self.header_crc32 as int, 4)) + le_bytes(self.reserved as int, 4)) + le_bytes(self.loc as int, 8)) + le_bytes(self.backup_loc as int, 8)) + le_bytes(self.first_usable_block as int, 8)) + le_bytes(self.last_usable_block as int, 8)) + le_bytes(self.guid as int, 16)) + le_bytes(self.array_start as int, 8)) + le_bytes(self.entry_num as int, 4)) + le_bytes(self.entry_size as int, 4)) + le_bytes(self.array_crc32 as int, 4))
    }

    /// Parses the on-disk form at the start of `input`; the size read comes back with it.
    pub fn deserialize(input: &[u8]) -> (r: Result<(Self, usize), DvDeErr>)
        ensures
            input@.len() < GPT_HEADER_SIZE <==> r is Err,
            r matches Ok((v, n)) ==> n == GPT_HEADER_SIZE && v.spec_bytes() == input@.subrange(0, GPT_HEADER_SIZE as int),
    {
        if input.len() < GPT_HEADER_SIZE {
            return Err(DvDeErr::WrongBufferSize);
        }
        let ghost s = input@;
        let sig: [u8; 8] = read_u8_array::<8>(input, 0);
        assert(s.subrange(0, 8) =~= s.subrange(0, 0) + s.subrange(0, 8));
        let revision = read_u32_le(input, 8);
        proof { lemma_le_fixed(s, 8); lemma_le_field(s, 8, 4, revision as int); }
        assert(s.subrange(0, 12) =~= s.subrange(0, 8) + s.subrange(8, 12));
        let size = read_u32_le(input, 12);
        proof { lemma_le_fixed(s, 12); lemma_le_field(s, 12, 4, size as int); }
        assert(s.subrange(0, 16) =~= s.subrange(0, 12) + s.subrange(12, 16));
        let header_crc32 = read_u32_le(input, 16);
        proof { lemma_le_fixed(s, 16); lemma_le_field(s, 16, 4, header_crc32 as int); }
        assert(s.subrange(0, 20) =~= s.subrange(0, 16) + s.subrange(16, 20));
        let reserved = read_u32_le(input, 20);
        proof { lemma_le_fixed(s, 20); lemma_le_field(s, 20, 4, reserved as int); }
        assert(s.subrange(0, 24) =~= s.subrange(0, 20) + s.subrange(20, 24));
        let loc = read_u64_le(input, 24);
        proof { lemma_le_fixed(s, 24); lemma_le_field(s, 24, 8, loc as int); }
        assert(s.subrange(0, 32) =~= s.subrange(0, 24) + s.subrange(24, 32));
        let backup_loc = read_u64_le(input, 32);
        proof { lemma_le_fixed(s, 32); lemma_le_field(s, 32, 8, backup_loc as int); }
        assert(s.subrange(0, 40) =~= s.subrange(0, 32) + s.subrange(32, 40));
        let first_usable_block = read_u64_le(input, 40);
        proof { lemma_le_fixed(s, 40); lemma_le_field(s, 40, 8, first_usable_block as int); }
        assert(s.subrange(0, 48) =~= s.subrange(0, 40) + s.subrange(40, 48));
        let last_usable_block = read_u64_le(input, 48);
        proof { lemma_le_fixed(s, 48); lemma_le_field(s, 48, 8, last_usable_block as int); }
        assert(s.subrange(0, 56) =~= s.subrange(0, 48) + s.subrange(48, 56));
        let guid = read_u128_le(input, 56);
        proof { lemma_le_fixed(s, 56); lemma_le_field(s, 56, 16, guid as int); }
        assert(s.subrange(0, 72) =~= s.subrange(0, 56) + s.subrange(56, 72));
        let array_start = read_u64_le(input, 72);
        proof { lemma_le_fixed(s, 72); lemma_le_field(s, 72, 8, array_start as int); }
        assert(s.subrange(0, 80) =~= s.subrange(0, 72) + s.subrange(72, 80));
        let entry_num = read_u32_le(input, 80);
        proof { lemma_le_fixed(s, 80); lemma_le_field(s, 80, 4, entry_num as int); }
        assert(s.subrange(0, 84) =~= s.subrange(0, 80) + s.subrange(80, 84));
        let entry_size = read_u32_le(input, 84);
        proof { lemma_le_fixed(s, 84); lemma_le_field(s, 84, 4, entry_size as int); }
        assert(s.subrange(0, 88) =~= s.subrange(0, 84) + s.subrange(84, 88));
        let array_crc32 = read_u32_le(input, 88);
        proof { lemma_le_fixed(s, 88); lemma_le_field(s, 88, 4, array_crc32 as int); }
        assert(s.subrange(0, 92) =~= s.subrange(0, 88) + s.subrange(88, 92));
        let v = GPTHeader { sig, revision, size, header_crc32, reserved, loc, backup_loc, first_usable_block, last_usable_block, guid, array_start, entry_num, entry_size, array_crc32 };
        assert(s.subrange(0, 0) =~= Seq::<u8>::empty());
        assert(Seq::<u8>::empty() + s.subrange(0, 8) =~= s.subrange(0, 8));
        Ok((v, GPT_HEADER_SIZE))
    }

    /// The on-disk form.
    pub fn to_bytes(&self) -> (out: Vec<u8>)
        ensures
            out@ == self.spec_bytes(),
            out@.len() == GPT_HEADER_SIZE,
    {
        let mut out: Vec<u8> = Vec::new();
        push_u8_array(&mut out, &self.sig);
        push_le(&mut out, 4, self.revision as u128);
        push_le(&mut out, 4, self.size as u128);
        push_le(&mut out, 4, self.header_crc32 as u128);
        push_le(&mut out, 4, self.reserved as u128);
        push_le(&mut out, 8, self.loc as u128);
        push_le(&mut out, 8, self.backup_loc as u128);
        push_le(&mut out, 8, self.first_usable_block as u128);
        push_le(&mut out, 8, self.last_usable_block as u128);
        push_le(&mut out, 16, self.guid as u128);
        push_le(&mut out, 8, self.array_start as u128);
        push_le(&mut out, 4, self.entry_num as u128);
        push_le(&mut out, 4, self.entry_size as u128);
        push_le(&mut out, 4, self.array_crc32 as u128);
        assert(out@ =~= self.spec_bytes());
        out
    }

    /// Writes the on-disk form into `target` at `off`; the size written comes back.
    pub fn serialize(&self, target: &mut Vec<u8>, off: usize) -> (r: Result<usize, DvSerErr>)
        ensures
            r is Err <==> old(target)@.len() < off + GPT_HEADER_SIZE,
            r is Err ==> final(target)@ == old(target)@,
            r matches Ok(n) ==> n == GPT_HEADER_SIZE && final(target)@ == old(target)@.take(off as int) + self.spec_bytes() + old(target)@.skip(off + GPT_HEADER_SIZE),
    {
        if target.len() < GPT_HEADER_SIZE || off > target.len() - GPT_HEADER_SIZE {
            return Err(DvSerErr::BufferTooSmall);
        }
        let ghost before = target@;
        let bytes = self.to_bytes();
        copy_into(target, off, bytes.as_slice());
        assert(target@ =~= before.take(off as int) + self.spec_bytes() + before.skip(off + GPT_HEADER_SIZE));
        Ok(GPT_HEADER_SIZE)
    }
}

/// Two values with the same on-disk form are equal, so parsing what was written gives
/// back what was written.
pub proof fn lemma_gpt_header_bytes_injective(a: GPTHeader, b: GPTHeader)
    requires
        a.spec_bytes() == b.spec_bytes(),
    ensures
        a == b,
{
    lemma_pow256();
    lemma_concat_eq(((((((((((((a.sig@ + le_bytes(a.revision as int, 4)) + le_bytes(a.size as int, 4)) + le_bytes(a.header_crc32 as int, 4)) + le_bytes(a.reserved as int, 4)) + le_bytes(a.loc as int, 8)) + le_bytes(a.backup_loc as int, 8)) + le_bytes(a.first_usable_block as int, 8)) + le_bytes(a.last_usable_block as int, 8)) + le_bytes(a.guid as int, 16)) + le_bytes(a.array_start as int, 8)) + le_bytes(a.entry_num as int, 4)) + le_bytes(a.entry_size as int, 4)), le_bytes(a.array_crc32 as int, 4), ((((((((((((b.sig@ + le_bytes(b.revision as int, 4)) + le_bytes(b.size as int, 4)) + le_bytes(b.header_crc32 as int, 4)) + le_bytes(b.reserved as int, 4)) + le_bytes(b.loc as int, 8)) + le_bytes(b.backup_loc as int, 8)) + le_bytes(b.first_usable_block as int, 8)) + le_bytes(b.last_usable_block as int, 8)) + le_bytes(b.guid as int, 16)) + le_bytes(b.array_start as int, 8)) + le_bytes(b.entry_num as int, 4)) + le_bytes(b.entry_size as int, 4)), le_bytes(b.array_crc32 as int, 4));
    lemma_concat_eq((((((((((((a.sig@ + le_bytes(a.revision as int, 4)) + le_bytes(a.size as int, 4)) + le_bytes(a.header_crc32 as int, 4)) + le_bytes(a.reserved as int, 4)) + le_bytes(a.loc as int, 8)) + le_bytes(a.backup_loc as int, 8)) + le_bytes(a.first_usable_block as int, 8)) + le_bytes(a.last_usable_block as int, 8)) + le_bytes(a.guid as int, 16)) + le_bytes(a.array_start as int, 8)) + le_bytes(a.entry_num as int, 4)), le_bytes(a.entry_size as int, 4), (((((((((((b.sig@ + le_bytes(b.revision as int, 4)) + le_bytes(b.size as int, 4)) + le_bytes(b.header_crc32 as int, 4)) + le_bytes(b.reserved as int, 4)) + le_bytes(b.loc as int, 8)) + le_bytes(b.backup_loc as int, 8)) + le_bytes(b.first_usable_block as int, 8)) + le_bytes(b.last_usable_block as int, 8)) + le_bytes(b.guid as int, 16)) + le_bytes(b.array_start as int, 8)) + le_bytes(b.entry_num as int, 4)), le_bytes(b.entry_size as int, 4));
    lemma_concat_eq(((((((((((a.sig@ + le_bytes(a.revision as int, 4)) + le_bytes(a.size as int, 4)) + le_bytes(a.header_crc32 as int, 4)) + le_bytes(a.reserved as int, 4)) + le_bytes(a.loc as int, 8)) + le_bytes(a.backup_loc as int, 8)) + le_bytes(a.first_usable_block as int, 8)) + le_bytes(a.last_usable_block as int, 8)) + le_bytes(a.guid as int, 16)) + le_bytes(a.array_start as int, 8)), le_bytes(a.entry_num as int, 4), ((((((((((b.sig@ + le_bytes(b.revision as int, 4)) + le_bytes(b.size as int, 4)) + le_bytes(b.header_crc32 as int, 4)) + le_bytes(b.reserved as int, 4)) + le_bytes(b.loc as int, 8)) + le_bytes(b.backup_loc as int, 8)) + le_bytes(b.first_usable_block as int, 8)) + le_bytes(b.last_usable_block as int, 8)) + le_bytes(b.guid as int, 16)) + le_bytes(b.array_start as int, 8)), le_bytes(b.entry_num as int, 4));
    lemma_concat_eq((((((((((a.sig@ + le_bytes(a.revision as int, 4)) + le_bytes(a.size as int, 4)) + le_bytes(a.header_crc32 as int, 4)) + le_bytes(a.reserved as int, 4)) + le_bytes(a.loc as int, 8)) + le_bytes(a.backup_loc as int, 8)) + le_bytes(a.first_usable_block as int, 8)) + le_bytes(a.last_usable_block as int, 8)) + le_bytes(a.guid as int, 16)), le_bytes(a.array_start as int, 8), (((((((((b.sig@ + le_bytes(b.revision as int, 4)) + le_bytes(b.size as int, 4)) + le_bytes(b.header_crc32 as int, 4)) + le_bytes(b.reserved as int, 4)) + le_bytes(b.loc as int, 8)) + le_bytes(b.backup_loc as int, 8)) + le_bytes(b.first_usable_block as int, 8)) + le_bytes(b.last_usable_block as int, 8)) + le_bytes(b.guid as int, 16)), le_bytes(b.array_start as int, 8));
    lemma_concat_eq(((((((((a.sig@ + le_bytes(a.revision as int, 4)) + le_bytes(a.size as int, 4)) + le_bytes(a.header_crc32 as int, 4)) + le_bytes(a.reserved as int, 4)) + le_bytes(a.loc as int, 8)) + le_bytes(a.backup_loc as int, 8)) + le_bytes(a.first_usable_block as int, 8)) + le_bytes(a.last_usable_block as int, 8)), le_bytes(a.guid as int, 16), ((((((((b.sig@ + le_bytes(b.revision as int, 4)) + le_bytes(b.size as int, 4)) + le_bytes(b.header_crc32 as int, 4)) + le_bytes(b.reserved as int, 4)) + le_bytes(b.loc as int, 8)) + le_bytes(b.backup_loc as int, 8)) + le_bytes(b.first_usable_block as int, 8)) + le_bytes(b.last_usable_block as int, 8)), le_bytes(b.guid as int, 16));
    lemma_concat_eq((((((((a.sig@ + le_bytes(a.revision as int, 4)) + le_bytes(a.size as int, 4)) + le_bytes(a.header_crc32 as int, 4)) + le_bytes(a.reserved as int, 4)) + le_bytes(a.loc as int, 8)) + le_bytes(a.backup_loc as int, 8)) + le_bytes(a.first_usable_block as int, 8)), le_bytes(a.last_usable_block as int, 8), (((((((b.sig@ + le_bytes(b.revision as int, 4)) + le_bytes(b.size as int, 4)) + le_bytes(b.header_crc32 as int, 4)) + le_bytes(b.reserved as int, 4)) + le_bytes(b.loc as int, 8)) + le_bytes(b.backup_loc as int, 8)) + le_bytes(b.first_usable_block as int, 8)), le_bytes(b.last_usable_block as int, 8));
    lemma_concat_eq(((((((a.sig@ + le_bytes(a.revision as int, 4)) + le_bytes(a.size as int, 4)) + le_bytes(a.header_crc32 as int, 4)) + le_bytes(a.reserved as int, 4)) + le_bytes(a.loc as int, 8)) + le_bytes(a.backup_loc as int, 8)), le_bytes(a.first_usable_block as int, 8), ((((((b.sig@ + le_bytes(b.revision as int, 4)) + le_bytes(b.size as int, 4)) + le_bytes(b.header_crc32 as int, 4)) + le_bytes(b.reserved as int, 4)) + le_bytes(b.loc as int, 8)) + le_bytes(b.backup_loc as int, 8)), le_bytes(b.first_usable_block as int, 8));
    lemma_concat_eq((((((a.sig@ + le_bytes(a.revision as int, 4)) + le_bytes(a.size as int, 4)) + le_bytes(a.header_crc32 as int, 4)) + le_bytes(a.reserved as int, 4)) + le_bytes(a.loc as int, 8)), le_bytes(a.backup_loc as int, 8), (((((b.sig@ + le_bytes(b.revision as int, 4)) + le_bytes(b.size as int, 4)) + le_bytes(b.header_crc32 as int, 4)) + le_bytes(b.reserved as int, 4)) + le_bytes(b.loc as int, 8)), le_bytes(b.backup_loc as int, 8));
    lemma_concat_eq(((((a.sig@ + le_bytes(a.revision as int, 4)) + le_bytes(a.size as int, 4)) + le_bytes(a.header_crc32 as int, 4)) + le_bytes(a.reserved as int, 4)), le_bytes(a.loc as int, 8), ((((b.sig@ + le_bytes(b.revision as int, 4)) + le_bytes(b.size as int, 4)) + le_bytes(b.header_crc32 as int, 4)) + le_bytes(b.reserved as int, 4)), le_bytes(b.loc as int, 8));
    lemma_concat_eq((((a.sig@ + le_bytes(a.revision as int, 4)) + le_bytes(a.size as int, 4)) + le_bytes(a.header_crc32 as int, 4)), le_bytes(a.reserved as int, 4), (((b.sig@ + le_bytes(b.revision as int, 4)) + le_bytes(b.size as int, 4)) + le_bytes(b.header_crc32 as int, 4)), le_bytes(b.reserved as int, 4));
    lemma_concat_eq(((a.sig@ + le_bytes(a.revision as int, 4)) + le_bytes(a.size as int, 4)), le_bytes(a.header_crc32 as int, 4), ((b.sig@ + le_bytes(b.revision as int, 4)) + le_bytes(b.size as int, 4)), le_bytes(b.header_crc32 as int, 4));
    lemma_concat_eq((a.sig@ + le_bytes(a.revision as int, 4)), le_bytes(a.size as int, 4), (b.sig@ + le_bytes(b.revision as int, 4)), le_bytes(b.size as int, 4));
    lemma_concat_eq(a.sig@, le_bytes(a.revision as int, 4), b.sig@, le_bytes(b.revision as int, 4));
    lemma_concat_eq(Seq::<u8>::empty(), a.sig@, Seq::<u8>::empty(), b.sig@);
    assert(a.sig =~= b.sig);
    lemma_le_bytes_injective(a.revision as int, b.revision as int, 4);
    lemma_le_bytes_injective(a.size as int, b.size as int, 4);
    lemma_le_bytes_injective(a.header_crc32 as int, b.header_crc32 as int, 4);
    lemma_le_bytes_injective(a.reserved as int, b.reserved as int, 4);
    lemma_le_bytes_injective(a.loc as int, b.loc as int, 8);
    lemma_le_bytes_injective(a.backup_loc as int, b.backup_loc as int, 8);
    lemma_le_bytes_injective(a.first_usable_block as int, b.first_usable_block as int, 8);
    lemma_le_bytes_injective(a.last_usable_block as int, b.last_usable_block as int, 8);
    lemma_le_bytes_injective(a.guid as int, b.guid as int, 16);
    lemma_le_bytes_injective(a.array_start as int, b.array_start as int, 8);
    lemma_le_bytes_injective(a.entry_num as int, b.entry_num as int, 4);
    lemma_le_bytes_injective(a.entry_size as int, b.entry_size as int, 4);
    lemma_le_bytes_injective(a.array_crc32 as int, b.array_crc32 as int, 4);
}

/// One partition entry of a GUID partition table.
#[derive(Clone, Copy, Debug)]
pub struct GPTEntry {
    /// GUID of the partition's type
    pub type_guid: u128,
    /// GUID of the partition
    pub unique_guid: u128,
    /// First sector of the partition
    pub start_lba: u64,
    /// Last sector of the partition
    pub end_lba: u64,
    /// Attribute flags
    pub flags: u64,
    /// Name in UTF-16 code units, first part
    pub name1: [u16; 32],
    /// Name in UTF-16 code units, rest
    pub name2: [u16; 4],
}

/// The size in bytes of the on-disk form of [`GPTEntry`].
pub const GPT_ENTRY_SIZE: usize = 128;

impl GPTEntry {
    /// The on-disk form: the fields one after another, little-endian.
    pub open spec fn spec_bytes(&self) -> Seq<u8> {
        ((((((le_bytes(self.type_guid as int, 16) + le_bytes(self.unique_guid as int, 16)) + le_bytes(self.start_lba as int, 8)) + le_bytes(self.end_lba as int, 8)) + le_bytes(self.flags as int, 8)) + u16s_le_bytes(self.name1@)) + u16s_le_bytes(self.name2@))
    }

    /// Parses the on-disk form at the start of `input`; the size read comes back with it.
    pub fn deserialize(input: &[u8]) -> (r: Result<(Self, usize), DvDeErr>)
        ensures
            input@.len() < GPT_ENTRY_SIZE <==> r is Err,
            r matches Ok((v, n)) ==> n == GPT_ENTRY_SIZE && v.spec_bytes() == input@.subrange(0, GPT_ENTRY_SIZE as int),
    {
        if input.len() < GPT_ENTRY_SIZE {
            return Err(DvDeErr::WrongBufferSize);
        }
        let ghost s = input@;
        let type_guid = read_u128_le(input, 0);
        proof { lemma_le_fixed(s, 0); lemma_le_field(s, 0, 16, type_guid as int); }
        assert(s.subrange(0, 16) =~= s.subrange(0, 0) + s.subrange(0, 16));
        let unique_guid = read_u128_le(input, 16);
        proof { lemma_le_fixed(s, 16); lemma_le_field(s, 16, 16, unique_guid as int); }
        assert(s.subrange(0, 32) =~= s.subrange(0, 16) + s.subrange(16, 32));
        let start_lba = read_u64_le(input, 32);
        proof { lemma_le_fixed(s, 32); lemma_le_field(s, 32, 8, start_lba as int); }
        assert(s.subrange(0, 40) =~= s.subrange(0, 32) + s.subrange(32, 40));
        let end_lba = read_u64_le(input, 40);
        proof { lemma_le_fixed(s, 40); lemma_le_field(s, 40, 8, end_lba as int); }
        assert(s.subrange(0, 48) =~= s.subrange(0, 40) + s.subrange(40, 48));
        let flags = read_u64_le(input, 48);
        proof { lemma_le_fixed(s, 48); lemma_le_field(s, 48, 8, flags as int); }
        assert(s.subrange(0, 56) =~= s.subrange(0, 48) + s.subrange(48, 56));
        let name1: [u16; 32] = read_u16_array::<32>(input, 56);
        proof { lemma_u16s_field(s, 56, name1@); }
        assert(s.subrange(0, 120) =~= s.subrange(0, 56) + s.subrange(56, 120));
        let name2: [u16; 4] = read_u16_array::<4>(input, 120);
        proof { lemma_u16s_field(s, 120, name2@); }
        assert(s.subrange(0, 128) =~= s.subrange(0, 120) + s.subrange(120, 128));
        let v = GPTEntry { type_guid, unique_guid, start_lba, end_lba, flags, name1, name2 };
        assert(s.subrange(0, 0) =~= Seq::<u8>::empty());
        assert(Seq::<u8>::empty() + s.subrange(0, 16) =~= s.subrange(0, 16));
        Ok((v, GPT_ENTRY_SIZE))
    }

    /// The on-disk form.
    pub fn to_bytes(&self) -> (out: Vec<u8>)
        ensures
            out@ == self.spec_bytes(),
            out@.len() == GPT_ENTRY_SIZE,
    {
        let mut out: Vec<u8> = Vec::new();
        push_le(&mut out, 16, self.type_guid as u128);
        push_le(&mut out, 16, self.unique_guid as u128);
        push_le(&mut out, 8, self.start_lba as u128);
        push_le(&mut out, 8, self.end_lba as u128);
        push_le(&mut out, 8, self.flags as u128);
        push_u16_array(&mut out, &self.name1);
        push_u16_array(&mut out, &self.name2);
        assert(out@ =~= self.spec_bytes());
        out
    }

    /// Writes the on-disk form into `target` at `off`; the size written comes back.
    pub fn serialize(&self, target: &mut Vec<u8>, off: usize) -> (r: Result<usize, DvSerErr>)
        ensures
            r is Err <==> old(target)@.len() < off + GPT_ENTRY_SIZE,
            r is Err ==> final(target)@ == old(target)@,
            r matches Ok(n) ==> n == GPT_ENTRY_SIZE && final(target)@ == old(target)@.take(off as int) + self.spec_bytes() + old(target)@.skip(off + GPT_ENTRY_SIZE),
    {
        if target.len() < GPT_ENTRY_SIZE || off > target.len() - GPT_ENTRY_SIZE {
            return Err(DvSerErr::BufferTooSmall);
        }
        let ghost before = target@;
        let bytes = self.to_bytes();
        copy_into(target, off, bytes.as_slice());
        assert(target@ =~= before.take(off as int) + self.spec_bytes() + before.skip(off + GPT_ENTRY_SIZE));
        Ok(GPT_ENTRY_SIZE)
    }
}

/// Two values with the same on-disk form are equal, so parsing what was written gives
/// back what was written.
pub proof fn lemma_gpt_entry_bytes_injective(a: GPTEntry, b: GPTEntry)
    requires
        a.spec_bytes() == b.spec_bytes(),
    ensures
        a == b,
{
    lemma_pow256();
    lemma_concat_eq((((((le_bytes(a.type_guid as int, 16) + le_bytes(a.unique_guid as int, 16)) + le_bytes(a.start_lba as int, 8)) + le_bytes(a.end_lba as int, 8)) + le_bytes(a.flags as int, 8)) + u16s_le_bytes(a.name1@)), u16s_le_bytes(a.name2@), (((((le_bytes(b.type_guid as int, 16) + le_bytes(b.unique_guid as int, 16)) + le_bytes(b.start_lba as int, 8)) + le_bytes(b.end_lba as int, 8)) + le_bytes(b.flags as int, 8)) + u16s_le_bytes(b.name1@)), u16s_le_bytes(b.name2@));
    lemma_concat_eq(((((le_bytes(a.type_guid as int, 16) + le_bytes(a.unique_guid as int, 16)) + le_bytes(a.start_lba as int, 8)) + le_bytes(a.end_lba as int, 8)) + le_bytes(a.flags as int, 8)), u16s_le_bytes(a.name1@), ((((le_bytes(b.type_guid as int, 16) + le_bytes(b.unique_guid as int, 16)) + le_bytes(b.start_lba as int, 8)) + le_bytes(b.end_lba as int, 8)) + le_bytes(b.flags as int, 8)), u16s_le_bytes(b.name1@));
    lemma_concat_eq((((le_bytes(a.type_guid as int, 16) + le_bytes(a.unique_guid as int, 16)) + le_bytes(a.start_lba as int, 8)) + le_bytes(a.end_lba as int, 8)), le_bytes(a.flags as int, 8), (((le_bytes(b.type_guid as int, 16) + le_bytes(b.unique_guid as int, 16)) + le_bytes(b.start_lba as int, 8)) + le_bytes(b.end_lba as int, 8)), le_bytes(b.flags as int, 8));
    lemma_concat_eq(((le_bytes(a.type_guid as int, 16) + le_bytes(a.unique_guid as int, 16)) + le_bytes(a.start_lba as int, 8)), le_bytes(a.end_lba as int, 8), ((le_bytes(b.type_guid as int, 16) + le_bytes(b.unique_guid as int, 16)) + le_bytes(b.start_lba as int, 8)), le_bytes(b.end_lba as int, 8));
    lemma_concat_eq((le_bytes(a.type_guid as int, 16) + le_bytes(a.unique_guid as int, 16)), le_bytes(a.start_lba as int, 8), (le_bytes(b.type_guid as int, 16) + le_bytes(b.unique_guid as int, 16)), le_bytes(b.start_lba as int, 8));
    lemma_concat_eq(le_bytes(a.type_guid as int, 16), le_bytes(a.unique_guid as int, 16), le_bytes(b.type_guid as int, 16), le_bytes(b.unique_guid as int, 16));
    lemma_concat_eq(Seq::<u8>::empty(), le_bytes(a.type_guid as int, 16), Seq::<u8>::empty(), le_bytes(b.type_guid as int, 16));
    lemma_le_bytes_injective(a.type_guid as int, b.type_guid as int, 16);
    lemma_le_bytes_injective(a.unique_guid as int, b.unique_guid as int, 16);
    lemma_le_bytes_injective(a.start_lba as int, b.start_lba as int, 8);
    lemma_le_bytes_injective(a.end_lba as int, b.end_lba as int, 8);
    lemma_le_bytes_injective(a.flags as int, b.flags as int, 8);
    lemma_u16s_injective(a.name1@, b.name1@);
    assert(a.name1 =~= b.name1);
    lemma_u16s_injective(a.name2@, b.name2@);
    assert(a.name2 =~= b.name2);
}

/// The signature that starts a GPT header.
pub open spec fn gpt_signature() -> Seq<u8> {
    seq![0x45u8, 0x46, 0x49, 0x20, 0x50, 0x41, 0x52, 0x54]
}

impl GPTHeader {
    /// The disk's GUID.
    pub fn guid(&self) -> (g: Guid)
        ensures
            g.decodes(put_le(Seq::new(16, |i: int| 0u8), 0, 16, self.guid as int)),
    {
        Guid::from_u128(self.guid)
    }
}

/// The character that a partition name shows for the UTF-16 code unit `c`: the unit
/// itself, or a space where the unit is a lone surrogate.
pub open spec fn name_unit_char(c: u16) -> char {
    if 0xD800 <= c <= 0xDFFF {
        ' '
    } else {
        c as char
    }
}

/// The characters of a partition name: its nonzero code units, each shown by
/// `name_unit_char`.
pub open spec fn name_chars(units: Seq<u16>) -> Seq<char>
    decreases units.len(),
{
    if units.len() == 0 {
        Seq::empty()
    } else {
        let rest = name_chars(units.drop_last());
        if units.last() == 0 {
            rest
        } else {
            rest.push(name_unit_char(units.last()))
        }
    }
}

/// Calls `char::from_u32` of the standard library, which gives the character whose
/// scalar value is `c`, and nothing where `c` is a surrogate or above `0x10FFFF`.
#[verifier::external_body]
fn char_from_u32(c: u32) -> (r: Option<char>)
    ensures
        (c < 0xD800 || (0xE000 <= c <= 0x10FFFF)) ==> r == Some(c as char),
        !(c < 0xD800 || (0xE000 <= c <= 0x10FFFF)) ==> r is None,
{
    char::from_u32(c)
}

impl Default for GPTEntry {
    /// The empty entry: every field zero.
    fn default() -> (e: Self)
        ensures
            e.type_guid == 0 && e.unique_guid == 0 && e.start_lba == 0 && e.end_lba == 0
                && e.flags == 0,
            forall|i: int| 0 <= i < 32 ==> #[trigger] e.name1@[i] == 0,
            forall|i: int| 0 <= i < 4 ==> #[trigger] e.name2@[i] == 0,
    {
        GPTEntry {
            type_guid: 0,
            unique_guid: 0,
            start_lba: 0,
            end_lba: 0,
            flags: 0,
            name1: [0; 32],
            name2: [0; 4],
        }
    }
}

impl GPTEntry {
    /// Whether the slot holds no partition: its first sector is zero.
    pub fn is_empty(&self) -> (b: bool)
        ensures
            b == (self.start_lba == 0),
    {
        self.start_lba == 0
    }

    /// The GUID of the partition's type.
    pub fn type_guid(&self) -> (g: Guid)
        ensures
            g.decodes(put_le(Seq::new(16, |i: int| 0u8), 0, 16, self.type_guid as int)),
    {
        Guid::from_u128(self.type_guid)
    }

    /// The GUID of the partition.
    pub fn unique_guid(&self) -> (g: Guid)
        ensures
            g.decodes(put_le(Seq::new(16, |i: int| 0u8), 0, 16, self.unique_guid as int)),
    {
        Guid::from_u128(self.unique_guid)
    }

    /// All code units of the name, both parts.
    pub open spec fn name_units(&self) -> Seq<u16> {
        self.name1@ + self.name2@
    }

    /// The partition's name: the nonzero code units of both parts, in order, each a
    /// character, or a space where it is a lone surrogate.
    pub fn get_name(&self) -> (name: String)
        ensures
            name@ == name_chars(self.name_units()),
    {
        let mut name = String::new();
        let mut units: Vec<u16> = Vec::new();
        let mut k: usize = 0;
        while k < 32
            invariant
                k <= 32,
                units@ == self.name1@.take(k as int),
            decreases 32 - k,
        {
            units.push(self.name1[k]);
            assert(units@ =~= self.name1@.take(k + 1));
            k = k + 1;
        }
        k = 0;
        while k < 4
            invariant
                k <= 4,
                units@ == self.name1@ + self.name2@.take(k as int),
            decreases 4 - k,
        {
            units.push(self.name2[k]);
            assert(units@ =~= self.name1@ + self.name2@.take(k + 1));
            k = k + 1;
        }
        assert(units@ =~= self.name_units());
        assert(name@ =~= name_chars(units@.take(0)));
        let mut i: usize = 0;
        while i < units.len()
            invariant
                i <= units@.len(),
                name@ == name_chars(units@.take(i as int)),
            decreases units@.len() - i,
        {
            let c = units[i];
            assert(units@.take(i + 1).drop_last() =~= units@.take(i as int));
            if c != 0 {
                let ch = match char_from_u32(c as u32) {
                    Some(ch) => ch,
                    None => ' ',
                };
                push_char(&mut name, ch);
            }
            i = i + 1;
        }
        assert(units@.take(units@.len() as int) =~= units@);
        name
    }
}

/// Declares the standard library's `FromUtf16Error`, the error of decoding UTF-16 text, so that
/// the partition-table errors can carry it; nothing is claimed of its contents.
#[verifier::external_type_specification]
#[verifier::external_body]
pub struct ExFromUtf16Error(std::string::FromUtf16Error);

/// Why a GPT could not be read or changed.
#[derive(Debug)]
pub enum GPTErr {
    /// The buffer input is too small
    BufferTooSmall,
    /// A GPT table already exists
    GPTAlreadyExist,
    /// A GPT table doesn't exist
    GPTNonExist,
    /// The GPT table is corrupted
    GPTCorrupted,
    /// The Array size is bad
    BadArrayEntrySize,
    /// There is no free slot
    NoFreeSlot,
    /// Partition overlapped
    OverlappingPartition,
    /// LBA range is invalid
    InvalidLBARange,
    /// Entry index is invalid
    InvalidEntryIndex,
    /// Entry is already empty
    EntryAlreadyEmpty,
    /// The name is too long
    NameTooLong,
    /// Failed to serialize
    SerializationErr(std::string::FromUtf16Error),
    /// Read/Write failed
    Io(String),
    /// Drive didn't respond
    DriveDidntRespond,
}

/// Whether `x` is a power of two.
pub open spec fn is_power_of_two(x: u32) -> bool {
    exists|k: nat| k < 32 && x == vstd::arithmetic::power2::pow2(k)
}

/// Whether `x` is a power of two, computed as `u32::is_power_of_two` of the standard library
/// defines it.
pub fn u32_is_power_of_two(x: u32) -> (b: bool)
    ensures
        b == is_power_of_two(x),
{
    let mut k: u32 = 0;
    let mut p: u32 = 1;
    proof {
        vstd::arithmetic::power2::lemma2_to64();
    }
    while k < 32
        invariant
            k <= 32,
            k < 32 ==> p == vstd::arithmetic::power2::pow2(k as nat),
            forall|j: nat| j < k ==> x != #[trigger] vstd::arithmetic::power2::pow2(j),
        decreases 32 - k,
    {
        if x == p {
            return true;
        }
        if k < 31 {
            proof {
                vstd::arithmetic::power2::lemma_pow2_adds(k as nat, 1);
                vstd::arithmetic::power2::lemma2_to64();
                vstd::arithmetic::power2::lemma_pow2_strictly_increases(k as nat + 1, 32);
            }
            p = p * 2;
        }
        k = k + 1;
    }
    false
}

/// The sectors that an array of `entry_num` entries of `entry_size` bytes spans, a partly
/// used last sector counted.
pub open spec fn array_sector_count(entry_num: u32, entry_size: u32) -> int {
    let bytes = entry_num * entry_size;
    bytes / 512 + if bytes % 512 != 0 { 1int } else { 0 }
}

/// Reads the partition table of the drive at `idx` in the device table.
pub struct GptReader {
    idx: usize,
}

pub const SECTOR_SIZE: usize = 512;

impl GptReader {
    /// A reader of the drive at `idx` in the device table.
    pub fn new(idx: usize) -> (r: Self)
        ensures
            r.idx() == idx,
    {
        Self { idx }
    }

    /// The drive's position in the device table.
    pub closed spec fn idx(&self) -> usize {
        self.idx
    }

    /// A sector-sized buffer from `pool`: the lowest free slot, taken; `None` where the pool
    /// is full.
    pub fn get_buffer(pool: &mut DiskIOBufferPool) -> (h: Option<DiskIOBufferPoolHandle>)
        ensures
            match h {
                Some(handle) => handle.size == old(pool).size && handle.idx is Some
                    && handle.idx->0 < 64
                    && final(pool).mask == old(pool).mask | (1u64 << (handle.idx->0 as u64))
                    && !crate::ejcineque::pools::taken(old(pool).mask, handle.idx->0 as int)
                    && (forall|j: int| 0 <= j < handle.idx->0 ==> #[trigger] crate::ejcineque::pools::taken(old(pool).mask, j))
                    && handle.inner == old(pool).buffers@[handle.idx->0 as int],
                None => (forall|j: int| 0 <= j < 64 ==> #[trigger] crate::ejcineque::pools::taken(old(pool).mask, j))
                    && final(pool).mask == old(pool).mask,
            },
            final(pool).buffers == old(pool).buffers,
            final(pool).size == old(pool).size,
    {
        match pool.get_buffer() {
            Some((i, addr)) => Some(DiskIOBufferPoolHandle { size: pool.size, idx: Some(i), inner: addr }),
            None => None,
        }
    }

    /// The drive's position in the device table.
    pub fn drive_idx(&self) -> (r: usize)
        ensures
            r == self.idx(),
    {
        self.idx
    }

    /// Whether a sector holds a GPT header: it starts with the signature `EFI PART`.
    pub fn has_signature(buf: &[u8]) -> (b: bool)
        ensures
            b == (buf@.len() >= 8 && buf@.take(8) == gpt_signature()),
    {
        if buf.len() < 8 {
            return false;
        }
        let sig: [u8; 8] = [0x45u8, 0x46, 0x49, 0x20, 0x50, 0x41, 0x52, 0x54];
        let mut i: usize = 0;
        while i < 8
            invariant
                i <= 8,
                buf@.len() >= 8,
                sig@ == gpt_signature(),
                buf@.take(i as int) == gpt_signature().take(i as int),
            decreases 8 - i,
        {
            if buf[i] != sig[i] {
                assert(buf@.take(8)[i as int] != gpt_signature()[i as int]);
                return false;
            }
            assert(buf@.take(i + 1) =~= gpt_signature().take(i + 1));
            i = i + 1;
        }
        assert(gpt_signature().take(8) =~= gpt_signature());
        true
    }

    /// Checks a header sector: its CRC field is cleared in `buf`, and the header is valid
    /// when the CRC-32 of its 92 bytes, so cleared, equals the value the field held.
    pub fn is_valid_header(&self, buf: &mut Vec<u8>) -> (ok: bool)
        requires
            old(buf)@.len() >= GPT_HEADER_SIZE,
        ensures
            final(buf)@ == put_le(old(buf)@, 16, 4, 0),
            ok == (spec_crc32(final(buf)@.take(GPT_HEADER_SIZE as int)) == le32(old(buf)@, 16)),
    {
        let crc = read_u32_le(buf.as_slice(), 16);
        crate::utils::bytes::write_le(buf, 16, 4, 0);
        let mut header: Vec<u8> = Vec::new();
        let mut i: usize = 0;
        while i < GPT_HEADER_SIZE
            invariant
                i <= GPT_HEADER_SIZE,
                buf@.len() >= GPT_HEADER_SIZE,
                header@ == buf@.take(i as int),
            decreases GPT_HEADER_SIZE - i,
        {
            header.push(buf[i]);
            assert(header@ =~= buf@.take(i + 1));
            i = i + 1;
        }
        is_verified_crc32(&header, crc)
    }

    /// Checks the header sector read from `lba` and says where its entry array lies: the
    /// header, the sector of the array (counted back from the disk's end for the backup
    /// table, whose array sits just before its header), and the length in bytes that is
    /// read of it.  A header whose CRC does not match is corrupted; one whose entry size is
    /// not 128 times a power of two has a bad entry size.
    pub fn get_table_header(&self, header_buf: &mut Vec<u8>, is_backup: bool) -> (r: Result<
        (GPTHeader, i64, usize),
        GPTErr,
    >)
        requires
            old(header_buf)@.len() >= GPT_HEADER_SIZE,
            le32(old(header_buf)@, 80) * le32(old(header_buf)@, 84) <= u32::MAX,
        ensures
            final(header_buf)@ == put_le(old(header_buf)@, 16, 4, 0),
            spec_crc32(final(header_buf)@.take(GPT_HEADER_SIZE as int)) != le32(old(header_buf)@, 16)
                <==> r matches Err(GPTErr::GPTCorrupted),
            r matches Err(e) ==> (e is GPTCorrupted || e is BadArrayEntrySize),
            spec_crc32(final(header_buf)@.take(GPT_HEADER_SIZE as int)) == le32(old(header_buf)@, 16)
                ==> match r {
                Ok((h, arr_lba, arr_len)) => {
                    &&& h.spec_bytes() == final(header_buf)@.take(GPT_HEADER_SIZE as int)
                    &&& is_power_of_two(h.entry_size / 128)
                    &&& arr_lba == if is_backup {
                        -1 - array_sector_count(h.entry_num, h.entry_size)
                    } else {
                        h.array_start as i64 as int
                    }
                    &&& arr_len == ((h.entry_num * h.entry_size / 512) as u16) * 512
                },
                Err(e) => e is BadArrayEntrySize && {
                    let size = le32(final(header_buf)@, 84) as u32;
                    !is_power_of_two(size / 128)
                },
            },
    {
        if !self.is_valid_header(header_buf) {
            return Err(GPTErr::GPTCorrupted);
        }
        let header = match GPTHeader::deserialize(header_buf.as_slice()) {
            Ok((h, _)) => h,
            Err(_) => {
                return Err(GPTErr::BufferTooSmall);
            },
        };
        proof {
            assert(header_buf@.subrange(0, GPT_HEADER_SIZE as int) =~= header_buf@.take(GPT_HEADER_SIZE as int));
            lemma_header_fields(header, header_buf@);
            assert(le32(header_buf@, 80) == le32(old(header_buf)@, 80));
            assert(le32(header_buf@, 84) == le32(old(header_buf)@, 84));
        }
        if !u32_is_power_of_two(header.entry_size / 128) {
            return Err(GPTErr::BadArrayEntrySize);
        }
        let bytes = header.entry_num * header.entry_size;
        let arr_block_count: i64 = (bytes / 512 + if bytes % 512 != 0 { 1u32 } else { 0u32 }) as i64;
        let arr_lba: i64 = if is_backup {
            -1 - arr_block_count
        } else {
            header.array_start as i64
        };
        let arr_sectors = (bytes / 512) as u16;
        let arr_len = arr_sectors as usize * 512;
        Ok((header, arr_lba, arr_len))
    }

    /// Checks the entry array read for `header` and splits it into entries, one for every
    /// `entry_size` bytes, each read from the start of its slice.  An array whose CRC-32
    /// differs from the header's is corrupted.
    pub fn get_table_array(&self, header: GPTHeader, arr: &Vec<u8>) -> (r: Result<
        (GPTHeader, Vec<GPTEntry>),
        GPTErr,
    >)
        requires
            header.entry_size > 0,
            (arr@.len() as int) % (header.entry_size as int) == 0 || (arr@.len() as int) % (header.entry_size as int)
                >= GPT_ENTRY_SIZE,
            header.entry_size >= GPT_ENTRY_SIZE || arr@.len() < header.entry_size,
        ensures
            (header.array_crc32 != spec_crc32(arr@)) <==> r is Err,
            r matches Err(e) ==> e is GPTCorrupted,
            r matches Ok((h, entries)) ==> {
                &&& h == header
                &&& entries@.len() == (arr@.len() + header.entry_size - 1) / (header.entry_size as int)
                &&& forall|k: int|
                    0 <= k < entries@.len() ==> (#[trigger] entries@[k]).spec_bytes() == arr@.subrange(
                        k * header.entry_size,
                        k * header.entry_size + GPT_ENTRY_SIZE,
                    )
            },
    {
        if !is_verified_crc32(arr, header.array_crc32) {
            return Err(GPTErr::GPTCorrupted);
        }
        let size = header.entry_size as usize;
        proof {
            if arr.len() % size != 0 {
                assert(arr.len() / size < usize::MAX) by (nonlinear_arith)
                    requires
                        size > 0,
                        arr.len() % size != 0,
                        arr.len() <= usize::MAX,
                ;
            }
        }
        let n = arr.len() / size + if arr.len() % size != 0 { 1usize } else { 0usize };
        proof {
            lemma_chunk_total(arr@.len() as int, size as int);
        }
        let mut entries: Vec<GPTEntry> = Vec::new();
        let mut k: usize = 0;
        while k < n
            invariant
                size == header.entry_size,
                size > 0,
                k <= n,
                n == (arr@.len() + size - 1) / (size as int),
                (arr@.len() as int) % (size as int) == 0 || (arr@.len() as int) % (size as int) >= GPT_ENTRY_SIZE,
                size >= GPT_ENTRY_SIZE || arr@.len() < size,
                entries@.len() == k,
                forall|j: int|
                    0 <= j < entries@.len() ==> (#[trigger] entries@[j]).spec_bytes() == arr@.subrange(
                        j * size,
                        j * size + GPT_ENTRY_SIZE,
                    ),
            decreases n - k,
        {
            proof {
                lemma_chunk_below(arr@.len() as int, size as int, k as int);
                lemma_chunk_fits(arr@.len() as int, size as int, k as int);
            }
            assert(k * size < arr@.len());
            assert(arr@.len() == arr.len());
            let off = k * size;
            let rest = vstd::slice::slice_subrange(arr.as_slice(), off, arr.len());
            let entry = match GPTEntry::deserialize(rest) {
                Ok((e, _)) => e,
                Err(_) => {
                    return Err(GPTErr::BufferTooSmall);
                },
            };
            assert(rest@.subrange(0, GPT_ENTRY_SIZE as int) =~= arr@.subrange(
                off as int,
                off + GPT_ENTRY_SIZE,
            ));
            entries.push(entry);
            k = k + 1;
        }
        Ok((header, entries))
    }

    /// Chooses the table that reading the GPT gives: the primary one where it could be read,
    /// the backup otherwise; with neither, the table is corrupted.
    pub fn read_gpt(
        primary: Result<(GPTHeader, Vec<GPTEntry>), GPTErr>,
        backup: Result<(GPTHeader, Vec<GPTEntry>), GPTErr>,
    ) -> (r: Result<(GPTHeader, Vec<GPTEntry>), GPTErr>)
        ensures
            primary is Ok ==> r == primary,
            primary is Err && backup is Ok ==> r == backup,
            primary is Err && backup is Err ==> r matches Err(GPTErr::GPTCorrupted),
    {
        match primary {
            Ok(p) => Ok(p),
            Err(_) => match backup {
                Ok(b) => Ok(b),
                Err(_) => Err(GPTErr::GPTCorrupted),
            },
        }
    }
}

/// The fields of a header parsed from `s` are the little-endian values at their offsets.
proof fn lemma_header_fields(h: GPTHeader, s: Seq<u8>)
    requires
        s.len() >= GPT_HEADER_SIZE,
        h.spec_bytes() == s.subrange(0, GPT_HEADER_SIZE as int),
    ensures
        h.entry_num == le32(s, 80),
        h.entry_size == le32(s, 84),
{
    let sb = h.spec_bytes();
    lemma_pow256();
    assert(sb.len() == GPT_HEADER_SIZE);
    assert(sb.subrange(80, 84) =~= le_bytes(h.entry_num as int, 4));
    assert(sb.subrange(84, 88) =~= le_bytes(h.entry_size as int, 4));
    assert(s.subrange(80, 84) =~= sb.subrange(80, 84));
    assert(s.subrange(84, 88) =~= sb.subrange(84, 88));
    crate::utils::bytes::lemma_le_bytes_decode(s, 80, 4, h.entry_num as int);
    crate::utils::bytes::lemma_le_bytes_decode(s, 84, 4, h.entry_size as int);
    lemma_le_fixed(s, 80);
    lemma_le_fixed(s, 84);
}

/// While entries remain, the next slice holds a whole entry.
proof fn lemma_chunk_fits(len: int, size: int, k: int)
    requires
        size > 0,
        0 <= k,
        k * size < len,
        len % size == 0 || len % size >= GPT_ENTRY_SIZE,
        size >= GPT_ENTRY_SIZE || len < size,
    ensures
        k * size + GPT_ENTRY_SIZE <= len,
{
    if size >= GPT_ENTRY_SIZE {
        if k * size + size > len {
            // the last, partial slice
            assert(len / size == k) by (nonlinear_arith)
                requires
                    size > 0,
                    k * size < len,
                    len < k * size + size,
            ;
            assert(len % size == len - k * size) by (nonlinear_arith)
                requires
                    size > 0,
                    len / size == k,
            ;
        } else {
            assert(k * size + size <= len);
        }
    } else {
        assert(k == 0) by (nonlinear_arith)
            requires
                size > 0,
                k >= 0,
                k * size < len,
                len < size,
        ;
        assert(len % size == len) by (nonlinear_arith)
            requires
                0 <= len < size,
        ;
    }
}

/// The number of slices of `size` bytes that `len` bytes split into, a partial last one
/// counted.
proof fn lemma_chunk_total(len: int, size: int)
    requires
        size > 0,
        0 <= len,
    ensures
        len / size + (if len % size != 0 { 1int } else { 0 }) == (len + size - 1) / size,
{
    vstd::arithmetic::div_mod::lemma_fundamental_div_mod(len, size);
    let q = len / size;
    let r = len % size;
    assert(len == q * size + r) by (nonlinear_arith)
        requires
            len == size * q + r,
    ;
    if r == 0 {
        vstd::arithmetic::div_mod::lemma_fundamental_div_mod_converse(len + size - 1, size, q, size - 1);
    } else {
        assert(len + size - 1 == (q + 1) * size + (r - 1)) by (nonlinear_arith)
            requires
                len == q * size + r,
        ;
        vstd::arithmetic::div_mod::lemma_fundamental_div_mod_converse(len + size - 1, size, q + 1, r - 1);
    }
}

/// Slice `k` of fewer than `(len + size - 1) / size` starts inside the `len` bytes.
proof fn lemma_chunk_below(len: int, size: int, k: int)
    requires
        size > 0,
        0 <= len,
        0 <= k < (len + size - 1) / size,
    ensures
        k * size < len,
{
    vstd::arithmetic::div_mod::lemma_fundamental_div_mod(len + size - 1, size);
    let q = (len + size - 1) / size;
    assert(k * size <= (q - 1) * size) by (nonlinear_arith)
        requires
            k <= q - 1,
            size > 0,
    ;
    assert((q - 1) * size == q * size - size) by (nonlinear_arith);
}

/// Whether the range `start..=end` meets the partition `e`: one of its ends lies inside
/// `e`, or it covers `e`.
pub open spec fn overlaps(start: u64, end: u64, e: GPTEntry) -> bool {
    ||| (start >= e.start_lba && start <= e.end_lba)
    ||| (end >= e.start_lba && end <= e.end_lba)
    ||| (start <= e.start_lba && end >= e.end_lba)
}

/// A range that does not meet a partition shares no sector with it: it ends before the
/// partition starts or starts after it ends.
pub proof fn lemma_no_overlap_is_disjoint(start: u64, end: u64, e: GPTEntry)
    requires
        start <= end,
        !overlaps(start, end, e),
    ensures
        end < e.start_lba || start > e.end_lba,
{
}

/// Whether slot `k` is the first empty one of `es`.
pub open spec fn first_empty(es: Seq<GPTEntry>, k: int) -> bool {
    &&& 0 <= k < es.len()
    &&& es[k].start_lba == 0
    &&& forall|j: int| 0 <= j < k ==> (#[trigger] es[j]).start_lba != 0
}

/// The entry array as written to disk: `total` bytes, zero but for the first
/// `min(128, size)` bytes of each entry at `size` times its index.
pub open spec fn array_bytes(es: Seq<GPTEntry>, size: int, total: int) -> Seq<u8>
    decreases es.len(),
{
    if es.len() == 0 {
        Seq::new(total as nat, |i: int| 0u8)
    } else {
        let prev = array_bytes(es.drop_last(), size, total);
        let at = (es.len() - 1) * size;
        let n = if size < 128 { size } else { 128 };
        prev.take(at) + es.last().spec_bytes().take(n) + prev.skip(at + n)
    }
}

/// The header after the entry array `array` is written: its array CRC set, then its own
/// CRC, computed over its 92 bytes with the CRC field zero.
pub open spec fn rehashed_header(h: GPTHeader, array: Seq<u8>) -> GPTHeader {
    let h0 = GPTHeader { array_crc32: spec_crc32(array), header_crc32: 0, ..h };
    GPTHeader { header_crc32: spec_crc32(h0.spec_bytes()), ..h0 }
}

/// The entry array once it is laid out: as long as `array_bytes` says.
proof fn lemma_array_bytes_len(es: Seq<GPTEntry>, size: int, total: int)
    requires
        0 <= size,
        es.len() * size <= total,
    ensures
        array_bytes(es, size, total).len() == total,
    decreases es.len(),
{
    if es.len() > 0 {
        assert((es.len() - 1) * size <= es.len() * size) by (nonlinear_arith)
            requires
                es.len() >= 1,
                size >= 0,
        ;
        lemma_array_bytes_len(es.drop_last(), size, total);
        let at = (es.len() - 1) * size;
        assert(at + size == es.len() * size) by (nonlinear_arith)
            requires
                at == (es.len() - 1) * size,
        ;
    }
}

/// Adds a partition to a partition table: the first empty slot takes it (with a zero
/// partition GUID); the table gets no such slot, a range that meets a partition in use, a
/// range outside the usable sectors, or a range that does not end after it starts.  On
/// success the slot, the header with its CRCs computed anew, the entries and the entry
/// array's bytes come back, ready to be written.
pub fn add_entry(header: &GPTHeader, entries: &Vec<GPTEntry>, new: &GPTEntry) -> (r: Result<
    (usize, GPTHeader, Vec<GPTEntry>, Vec<u8>),
    GPTErr,
>)
    requires
        entries@.len() <= header.entry_num,
        header.entry_num * header.entry_size <= u32::MAX,
    ensures
        (forall|k: int| 0 <= k < entries@.len() ==> (#[trigger] entries@[k]).start_lba != 0) <==> (r matches Err(
            e,
        ) && e is NoFreeSlot),
        forall|k: int| #[trigger] first_empty(entries@, k) ==> {
            let overlapping = exists|i: int| 0 <= i < entries@.len() && i != k && (#[trigger] entries@[i]).start_lba != 0
                && overlaps(new.start_lba, new.end_lba, entries@[i]);
            let bad_range = new.start_lba < header.first_usable_block || new.end_lba > header.last_usable_block
                || new.start_lba >= new.end_lba;
            &&& overlapping <==> (r matches Err(e) && e is OverlappingPartition)
            &&& !overlapping && bad_range <==> (r matches Err(e) && e is InvalidLBARange)
            &&& !overlapping && !bad_range <==> r is Ok
            &&& (r is Ok ==> forall|i: int| 0 <= i < entries@.len() && i != k && (#[trigger] entries@[i]).start_lba != 0
                ==> new.end_lba < entries@[i].start_lba || new.start_lba > entries@[i].end_lba)
            &&& (r is Ok ==> {
                let placed = GPTEntry { unique_guid: 0, ..*new };
                let es = entries@.update(k, placed);
                let arr = array_bytes(es, header.entry_size as int, header.entry_num * header.entry_size);
                &&& r->Ok_0.0 == k
                &&& r->Ok_0.2@ == es
                &&& r->Ok_0.3@ == arr
                &&& r->Ok_0.1 == rehashed_header(*header, arr)
            })
        },
{
    let mut k: usize = 0;
    while k < entries.len()
        invariant
            k <= entries@.len(),
            forall|j: int| 0 <= j < k ==> (#[trigger] entries@[j]).start_lba != 0,
        ensures
            k <= entries@.len(),
            forall|j: int| 0 <= j < k ==> (#[trigger] entries@[j]).start_lba != 0,
            k < entries@.len() ==> entries@[k as int].start_lba == 0,
        decreases entries@.len() - k,
    {
        if entries[k].is_empty() {
            break;
        }
        k = k + 1;
    }
    if k == entries.len() {
        return Err(GPTErr::NoFreeSlot);
    }
    proof {
        assert(first_empty(entries@, k as int));
        assert forall|m: int| #[trigger] first_empty(entries@, m) implies m == k by {
            if m < k {
                assert(entries@[m].start_lba != 0);
            } else if m > k {
                assert(entries@[k as int].start_lba != 0);
            }
        }
    }
    let start = new.start_lba;
    let end = new.end_lba;
    let mut i: usize = 0;
    while i < entries.len()
        invariant
            i <= entries@.len(),
            k < entries@.len(),
            entries@[k as int].start_lba == 0,
            start == new.start_lba && end == new.end_lba,
            forall|j: int| 0 <= j < i && j != k && (#[trigger] entries@[j]).start_lba != 0 ==> !overlaps(start, end, entries@[j]),
        decreases entries@.len() - i,
    {
        if i != k && !entries[i].is_empty() {
            let es = entries[i].start_lba;
            let ee = entries[i].end_lba;
            if (start >= es && start <= ee) || (end >= es && end <= ee) || (start <= es && end >= ee) {
                assert(overlaps(start, end, entries@[i as int]));
                return Err(GPTErr::OverlappingPartition);
            }
        }
        i = i + 1;
    }
    if start < header.first_usable_block || end > header.last_usable_block {
        return Err(GPTErr::InvalidLBARange);
    }
    if start >= end {
        return Err(GPTErr::InvalidLBARange);
    }
    let placed = GPTEntry {
        type_guid: new.type_guid,
        // the all-zero identifier, as `Guid::new` gives
        unique_guid: 0,
        start_lba: new.start_lba,
        end_lba: new.end_lba,
        flags: new.flags,
        name1: new.name1,
        name2: new.name2,
    };
    let mut out: Vec<GPTEntry> = Vec::new();
    let mut j: usize = 0;
    while j < entries.len()
        invariant
            j <= entries@.len(),
            k < entries@.len(),
            out@ == entries@.update(k as int, placed).take(j as int),
        decreases entries@.len() - j,
    {
        if j == k {
            out.push(placed);
        } else {
            out.push(entries[j]);
        }
        assert(out@ =~= entries@.update(k as int, placed).take(j + 1));
        j = j + 1;
    }
    assert(out@ =~= entries@.update(k as int, placed));
    let size = header.entry_size as usize;
    let total = (header.entry_num * header.entry_size) as usize;
    let mut arr: Vec<u8> = vec![0u8; total];
    let ghost es = out@;
    assert(arr@ =~= array_bytes(es.take(0), size as int, total as int));
    let n: usize = if size < 128 { size } else { 128 };
    let mut m: usize = 0;
    while m < out.len()
        invariant
            m <= out@.len(),
            es == out@,
            out@.len() <= header.entry_num,
            total == header.entry_num * header.entry_size,
            size == header.entry_size,
            n == if size < 128 { size } else { 128 },
            arr@ == array_bytes(es.take(m as int), size as int, total as int),
            arr@.len() == total,
        decreases out@.len() - m,
    {
        proof {
            assert(m * size + size <= total) by (nonlinear_arith)
                requires
                    m < out@.len(),
                    out@.len() <= header.entry_num,
                    size == header.entry_size,
                    total == header.entry_num * header.entry_size,
            ;
        }
        let bytes = out[m].to_bytes();
        let head = vstd::slice::slice_subrange(bytes.as_slice(), 0, n);
        let at = m * size;
        let ghost prev = arr@;
        copy_into(&mut arr, at, head);
        proof {
            let t = es.take(m + 1);
            assert(t.drop_last() =~= es.take(m as int));
            assert(t.last() == es[m as int]);
            assert(head@ =~= es[m as int].spec_bytes().take(n as int));
            assert(arr@ =~= prev.take(at as int) + head@ + prev.skip(at + n)) by {
                assert forall|x: int| 0 <= x < arr@.len() implies arr@[x] == (prev.take(at as int) + head@ + prev.skip(at + n))[x] by {
                    if at <= x < at + n {
                        assert(arr@[x] == arr@.subrange(at as int, at + n)[x - at]);
                    }
                }
            }
            assert((t.len() - 1) * size == at);
        }
        m = m + 1;
    }
    assert(es.take(es.len() as int) =~= es);
    let mut h = *header;
    h.array_crc32 = crate::utils::crc32::full_crc(&arr);
    h.header_crc32 = 0;
    let hb = h.to_bytes();
    h.header_crc32 = crate::utils::crc32::full_crc(&hb);
    Ok((k, h, out, arr))
}

/// The entry of the partition whose unique GUID is `guid` (whole, little-endian), as the
/// root file system is found at boot: the last one that matches, where several do.
pub fn find_entry_by_guid(entries: &Vec<GPTEntry>, guid: u128) -> (r: Option<usize>)
    ensures
        r matches Some(k) ==> k < entries@.len() && entries@[k as int].unique_guid == guid
            && forall|j: int| k < j < entries@.len() ==> (#[trigger] entries@[j]).unique_guid != guid,
        r is None ==> forall|j: int| 0 <= j < entries@.len() ==> (#[trigger] entries@[j]).unique_guid != guid,
{
    let mut res: Option<usize> = None;
    let mut i: usize = 0;
    while i < entries.len()
        invariant
            i <= entries@.len(),
            res matches Some(k) ==> k < i && entries@[k as int].unique_guid == guid
                && forall|j: int| k < j < i ==> (#[trigger] entries@[j]).unique_guid != guid,
            res is None ==> forall|j: int| 0 <= j < i ==> (#[trigger] entries@[j]).unique_guid != guid,
        decreases entries@.len() - i,
    {
        if entries[i].unique_guid == guid {
            res = Some(i);
        }
        i = i + 1;
    }
    res
}

} // verus!
