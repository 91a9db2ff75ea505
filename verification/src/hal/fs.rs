//! File-system level types shared by the file systems and the VFS.
use vstd::prelude::*;
use crate::hal::storage::HalStorageOperationErr;
use crate::serialize::{DvDeErr, DvSerErr};
use crate::drivers::fs::ext2::fs::InodePlus;
use crate::utils::bytes::{le_bytes, push_le, copy_into};

verus! {

pub const EOF: usize = 0;

/// Why a file-system operation failed.
#[derive(Debug)]
pub enum HalFsIOErr {
    HalErr(HalStorageOperationErr),
    DeserializationErr(DvDeErr),
    SerializationErr(DvSerErr),
    DirectoryNotEmpty,
    NoPermsProvided,
    FileTooLarge,
    BadPath,
    NameTooLong,
    BufTooSmall,
    IsDirectory,
    Internal,
    NoSpaceLeft,
    NoSuchFileOrDirectory,
    NotADirectory,
    NoAvailableInode,
    FileExists,
    Unsupported,
    Corrupted,
}

/// The read/write position of an opened file.
#[derive(Debug)]
pub struct HalIOCtx {
    pub head: usize,
}

impl HalIOCtx {
    /// A position at the start of the file.
    pub fn new() -> (c: Self)
        ensures
            c.head == 0,
    {
        HalIOCtx { head: 0 }
    }
}

/// A directory entry as directory listings hand it out.
#[derive(Debug)]
pub struct DirEnt64 {
    pub inode_idx: u64,
    pub offset: i64,
    pub file_type: u8,
    pub name: String,
}

/// The record length of a listed entry whose name has `n` bytes: the 19-byte head, the name
/// and its terminating zero, plus eight, rounded down to a multiple of eight.
pub open spec fn dirent64_rec_len(n: int) -> int {
    ((19 + n + 1 + 8) / 8) * 8
}

/// The bytes a listed entry is written as: its inode, offset, record length, type, name
/// and a terminating zero.
pub open spec fn dirent64_bytes(inode_idx: u64, offset: i64, rec_len: u16, file_type: u8, name: Seq<u8>) -> Seq<u8> {
    le_bytes(inode_idx as int, 8) + le_bytes(offset as u64 as int, 8) + le_bytes(rec_len as int, 2) + seq![file_type] + name + seq![0u8]
}

impl DirEnt64 {
    /// The UTF-8 bytes of the name.
    pub open spec fn name_bytes(&self) -> Seq<u8> {
        vstd::utf8::encode_utf8(self.name@)
    }

    /// The length of the record this entry takes in a listing.
    pub fn rec_len(&self) -> (r: usize)
        requires
            self.name_bytes().len() + 28 <= usize::MAX,
        ensures
            r == dirent64_rec_len(self.name_bytes().len() as int),
    {
        let length = 8 + 8 + 2 + 1 + self.name.as_str().len() + 1;
        let x = length + 8;
        assert(x & !7usize == (x / 8) * 8) by (bit_vector);
        x & !7usize
    }

    /// Writes the entry at `off` of `target`; the record length comes back.  The target
    /// needs room for the whole record.
    pub fn serialize(&self, target: &mut Vec<u8>, off: usize) -> (r: Result<usize, DvSerErr>)
        requires
            self.name_bytes().len() + 28 <= usize::MAX,
            self.name_bytes().len() + 20 <= u16::MAX,
        ensures
            (old(target)@.len() < off + dirent64_rec_len(self.name_bytes().len() as int)) <==> r is Err,
            r matches Err(e) ==> e == DvSerErr::BufferTooSmall && final(target)@ == old(target)@,
            r matches Ok(n) ==> {
                let len = self.name_bytes().len() as int;
                &&& n == dirent64_rec_len(len)
                &&& final(target)@ == old(target)@.take(off as int) + dirent64_bytes(
                    self.inode_idx,
                    self.offset,
                    n as u16,
                    self.file_type,
                    self.name_bytes(),
                ) + old(target)@.skip(off + 20 + len)
            },
    {
        let length = self.rec_len();
        if target.len() < length || off > target.len() - length {
            return Err(DvSerErr::BufferTooSmall);
        }
        let name_bytes = self.name.as_str().as_bytes();
        let mut bytes: Vec<u8> = Vec::new();
        push_le(&mut bytes, 8, self.inode_idx as u128);
        push_le(&mut bytes, 8, (self.offset as u64) as u128);
        push_le(&mut bytes, 2, (length as u16) as u128);
        bytes.push(self.file_type);
        let ghost head = bytes@;
        let mut i: usize = 0;
        while i < name_bytes.len()
            invariant
                i <= name_bytes@.len(),
                bytes@ == head + name_bytes@.take(i as int),
            decreases name_bytes@.len() - i,
        {
            bytes.push(name_bytes[i]);
            assert(bytes@ =~= head + name_bytes@.take(i + 1));
            i = i + 1;
        }
        bytes.push(0u8);
        assert(name_bytes@.take(name_bytes@.len() as int) =~= name_bytes@);
        assert(bytes@ =~= dirent64_bytes(self.inode_idx, self.offset, length as u16, self.file_type, self.name_bytes()));
        let ghost before = target@;
        copy_into(target, off, bytes.as_slice());
        assert(target@ =~= before.take(off as int) + dirent64_bytes(self.inode_idx, self.offset, length as u16, self.file_type, self.name_bytes()) + before.skip(off + 20 + self.name_bytes().len()));
        Ok(length)
    }
}

/// How a file is opened for access.
#[derive(Debug, Clone, Copy, PartialEq, Eq, Structural)]
pub enum OpenAccessMode {
    ReadOnly,
    WriteOnly,
    ReadNWrite,
    Search,
    ExecuteOnly,
}

impl Default for OpenAccessMode {
    /// Read-only.
    fn default() -> (r: Self)
        ensures
            r == OpenAccessMode::ReadOnly,
    {
        OpenAccessMode::ReadOnly
    }
}

/// The bits of the open flags.
#[derive(Debug, Clone, Copy, PartialEq, Eq, Structural)]
pub enum OpenFlagsValue {
    /// do not block on open or for data to become available
    NonBlock,
    /// append on each write
    Append,
    /// create file if it does not exist
    CreateIfNotExist,
    /// truncate size to 0
    Truncate,
    /// error if O_CREAT and the file exists
    ErrorIfCreateFileExists,
    /// atomically obtain a shared lock
    SharedLock,
    /// atomically obtain an exclusive lock
    ExclusiveLock,
    /// restrict open to a directory
    OpenDirectoryOnly,
    /// do not follow symlinks
    NoSymlink,
    /// allow open of symlinks
    AllowSymlink,
    /// descriptor requested for event notifications only
    EventDescriptor,
    /// mark as close-on-exec
    MarkCloseOnExec,
    /// do not follow symlinks in the entire path
    NoSymlinkAny,
    /// path resolution must not escape the directory associated with the file descriptor
    ResolveBeneath,
    /// ensure a file is opened only if it has a single hard link
    Unique,
}

impl OpenFlagsValue {
    /// The bit's position among the flags.
    pub open spec fn spec_bit(&self) -> int {
        match self {
            OpenFlagsValue::NonBlock => 0,
            OpenFlagsValue::Append => 1,
            OpenFlagsValue::CreateIfNotExist => 2,
            OpenFlagsValue::Truncate => 3,
            OpenFlagsValue::ErrorIfCreateFileExists => 4,
            OpenFlagsValue::SharedLock => 5,
            OpenFlagsValue::ExclusiveLock => 6,
            OpenFlagsValue::OpenDirectoryOnly => 7,
            OpenFlagsValue::NoSymlink => 8,
            OpenFlagsValue::AllowSymlink => 9,
            OpenFlagsValue::EventDescriptor => 10,
            OpenFlagsValue::MarkCloseOnExec => 11,
            OpenFlagsValue::NoSymlinkAny => 12,
            OpenFlagsValue::ResolveBeneath => 13,
            OpenFlagsValue::Unique => 14,
        }
    }

    /// The flag's value: one bit, at its position.
    pub fn value(&self) -> (v: i32)
        ensures
            v == vstd::arithmetic::power2::pow2(self.spec_bit() as nat),
    {
        proof {
            vstd::arithmetic::power2::lemma2_to64();
        }
        match self {
            OpenFlagsValue::NonBlock => 0x1,
            OpenFlagsValue::Append => 0x2,
            OpenFlagsValue::CreateIfNotExist => 0x4,
            OpenFlagsValue::Truncate => 0x8,
            OpenFlagsValue::ErrorIfCreateFileExists => 0x10,
            OpenFlagsValue::SharedLock => 0x20,
            OpenFlagsValue::ExclusiveLock => 0x40,
            OpenFlagsValue::OpenDirectoryOnly => 0x80,
            OpenFlagsValue::NoSymlink => 0x100,
            OpenFlagsValue::AllowSymlink => 0x200,
            OpenFlagsValue::EventDescriptor => 0x400,
            OpenFlagsValue::MarkCloseOnExec => 0x800,
            OpenFlagsValue::NoSymlinkAny => 0x1000,
            OpenFlagsValue::ResolveBeneath => 0x2000,
            OpenFlagsValue::Unique => 0x4000,
        }
    }
}

/// How a file is to be opened: its access mode, the flag bits and, for a file to create, its
/// permissions.
#[derive(Debug, Clone, Copy)]
pub struct OpenFlags {
    pub access_mode: OpenAccessMode,
    pub flags: i32,
    pub perms: Option<i32>,
}

impl Default for OpenFlags {
    /// Read-only, no flags, no permissions.
    fn default() -> (r: Self)
        ensures
            r.access_mode == OpenAccessMode::ReadOnly,
            r.flags == 0,
            r.perms is None,
    {
        OpenFlags { access_mode: OpenAccessMode::ReadOnly, flags: 0, perms: None }
    }
}

/// An opened file's inode, by file system.
#[derive(Debug, Clone, Copy)]
pub enum HalInode {
    Ext2(InodePlus),
}

} // verus!
