//! The control of a whole read and a whole write of a file, one step at a time: from where
//! the transfer stands and what the last step reported, the next step and what to do.  The
//! block walk, the copying of each block and the disk work are done by the caller with the
//! iterator and the copy functions of this crate.
use vstd::prelude::*;

verus! {

/// Where a read of a file stands.
#[derive(Debug, Clone, Copy, PartialEq, Eq, Structural)]
pub enum ReadPhase {
    /// Nothing checked yet.
    Start,
    /// The walk is to move to the head's block.
    Skip,
    /// The next block of the walk is to be fetched.
    Fetch,
    /// The fetched block is to be copied out.
    Copy,
    /// Finished with `bytes` read.
    Done { bytes: usize },
    /// Refused: the file is a directory.
    Failed,
}

/// A read of a file: the phase, the head, the file's size, the room of the target and the
/// bytes read so far.
#[derive(Debug, Clone, Copy, PartialEq, Eq, Structural)]
pub struct ReadState {
    pub phase: ReadPhase,
    pub is_dir: bool,
    pub head: usize,
    pub size: u32,
    pub room: usize,
    pub read: usize,
}

/// What the last step of a read reported.
#[derive(Debug, Clone, Copy, PartialEq, Eq, Structural)]
pub enum ReadEvent {
    /// The read is asked for.
    Begin,
    /// The walk is at the head's block.
    Skipped,
    /// The walk gave its next block, or said it has none left.
    Block { terminated: bool },
    /// The block was copied out: the head and the bytes read now.
    Copied { head: usize, read: usize },
}

/// What a read does next.
#[derive(Debug, Clone, Copy, PartialEq, Eq, Structural)]
pub enum ReadAction {
    /// Move the walk to the block that holds the head.
    SkipToHead,
    /// Fetch the walk's next block.
    NextBlock,
    /// Copy the fetched block out from the head.
    CopyBlock,
    /// Answer that the file is a directory.
    FailIsDirectory,
    /// Answer with the bytes read.
    Finish { bytes: usize },
}

/// The bytes a read can give from the head: the rest of the file, no more than the room.
pub open spec fn to_read(s: ReadState) -> int {
    let remaining = if s.size > s.head { s.size - s.head } else { 0 };
    if s.room < remaining { s.room as int } else { remaining }
}

/// Whether the read goes on: the head (as a 32-bit value) is before the file's end and the
/// target has room left.
pub open spec fn read_goes_on(head: usize, size: u32, read: usize, room: usize) -> bool {
    (head as u32) < size && read < room
}

/// One step of a read: a directory is refused; nothing to read answers zero; else the walk
/// moves to the block that holds the head, and blocks are fetched and copied out while the head is before the file's end and the target has
/// room, and the walk running out ends the read early.  The answer is the bytes read.  An
/// event that does not fit the phase changes nothing and asks again for what the phase
/// needs.
pub open spec fn spec_read_step(s: ReadState, ev: ReadEvent) -> (ReadState, ReadAction) {
    match s.phase {
        ReadPhase::Start => {
            if s.is_dir {
                (ReadState { phase: ReadPhase::Failed, ..s }, ReadAction::FailIsDirectory)
            } else if to_read(s) == 0 {
                (ReadState { phase: ReadPhase::Done { bytes: 0 }, read: 0, ..s }, ReadAction::Finish { bytes: 0 })
            } else {
                (ReadState { phase: ReadPhase::Skip, read: 0, ..s }, ReadAction::SkipToHead)
            }
        },
        ReadPhase::Skip => match ev {
            ReadEvent::Skipped => (ReadState { phase: ReadPhase::Fetch, ..s }, ReadAction::NextBlock),
            _ => (s, ReadAction::SkipToHead),
        },
        ReadPhase::Fetch => match ev {
            ReadEvent::Block { terminated } => {
                if terminated {
                    (ReadState { phase: ReadPhase::Done { bytes: s.read }, ..s }, ReadAction::Finish { bytes: s.read })
                } else {
                    (ReadState { phase: ReadPhase::Copy, ..s }, ReadAction::CopyBlock)
                }
            },
            _ => (s, ReadAction::NextBlock),
        },
        ReadPhase::Copy => match ev {
            ReadEvent::Copied { head, read } => {
                if read_goes_on(head, s.size, read, s.room) {
                    (ReadState { phase: ReadPhase::Fetch, head, read, ..s }, ReadAction::NextBlock)
                } else {
                    (ReadState { phase: ReadPhase::Done { bytes: read }, head, read, ..s }, ReadAction::Finish { bytes: read })
                }
            },
            _ => (s, ReadAction::CopyBlock),
        },
        ReadPhase::Done { bytes } => (s, ReadAction::Finish { bytes }),
        ReadPhase::Failed => (s, ReadAction::FailIsDirectory),
    }
}

/// One step of a read, as `spec_read_step` says.
pub fn read_step(s: &ReadState, ev: ReadEvent) -> (r: (ReadState, ReadAction))
    ensures
        r == spec_read_step(*s, ev),
{
    let s = *s;
    match s.phase {
        ReadPhase::Start => {
            if s.is_dir {
                return (ReadState { phase: ReadPhase::Failed, ..s }, ReadAction::FailIsDirectory);
            }
            let remaining: usize = if (s.size as usize) > s.head { s.size as usize - s.head } else { 0 };
            let n = if s.room < remaining { s.room } else { remaining };
            if n == 0 {
                (ReadState { phase: ReadPhase::Done { bytes: 0 }, read: 0, ..s }, ReadAction::Finish { bytes: 0 })
            } else {
                (ReadState { phase: ReadPhase::Skip, read: 0, ..s }, ReadAction::SkipToHead)
            }
        },
        ReadPhase::Skip => match ev {
            ReadEvent::Skipped => (ReadState { phase: ReadPhase::Fetch, ..s }, ReadAction::NextBlock),
            _ => (s, ReadAction::SkipToHead),
        },
        ReadPhase::Fetch => match ev {
            ReadEvent::Block { terminated } => {
                if terminated {
                    (ReadState { phase: ReadPhase::Done { bytes: s.read }, ..s }, ReadAction::Finish { bytes: s.read })
                } else {
                    (ReadState { phase: ReadPhase::Copy, ..s }, ReadAction::CopyBlock)
                }
            },
            _ => (s, ReadAction::NextBlock),
        },
        ReadPhase::Copy => match ev {
            ReadEvent::Copied { head, read } => {
                if (head as u32) < s.size && read < s.room {
                    (ReadState { phase: ReadPhase::Fetch, head, read, ..s }, ReadAction::NextBlock)
                } else {
                    (ReadState { phase: ReadPhase::Done { bytes: read }, head, read, ..s }, ReadAction::Finish { bytes: read })
                }
            },
            _ => (s, ReadAction::CopyBlock),
        },
        ReadPhase::Done { bytes } => (s, ReadAction::Finish { bytes }),
        ReadPhase::Failed => (s, ReadAction::FailIsDirectory),
    }
}

/// Where a write of a file stands.
#[derive(Debug, Clone, Copy, PartialEq, Eq, Structural)]
pub enum WritePhase {
    /// Nothing checked yet.
    Start,
    /// The block at the walk's position is to be made to exist.
    SetBlock,
    /// The block is written from inside, so its bytes are to be read in first.
    LoadBlock,
    /// The input is to be copied into that block.
    Copy,
    /// The inode is written back; the newly allocated blocks are to be recorded next.
    RecordAllocated,
    /// Finished with `bytes` written.
    Done { bytes: usize },
    /// Refused: the file is a directory.
    Failed,
}

/// A write of a file: the phase, the input's length, the bytes written so far, the blocks
/// allocated on the way, the file system's block size, and the offset inside the current
/// block where writing starts (that of the head for the first block, zero after).
#[derive(Debug, Clone, Copy, PartialEq, Eq, Structural)]
pub struct WriteState {
    pub phase: WritePhase,
    pub is_dir: bool,
    pub len: usize,
    pub written: usize,
    pub allocated: usize,
    pub block_size: u32,
    pub offset: u32,
}

/// What the last step of a write reported.
#[derive(Debug, Clone, Copy, PartialEq, Eq, Structural)]
pub enum WriteEvent {
    /// The write is asked for.
    Begin,
    /// The block at the walk's position exists; `allocated` blocks were allocated for it.
    BlockSet { allocated: usize },
    /// The input was copied into the block: the bytes written now.
    Copied { written: usize },
    /// The disk work of the last action is done.
    Stored,
}

/// What a write does next.
#[derive(Debug, Clone, Copy, PartialEq, Eq, Structural)]
pub enum WriteAction {
    /// Move the walk to the head's block.
    SkipToHead,
    /// Make the block at the walk's position exist.
    SetBlock,
    /// Read that block in, so that the bytes before the offset are kept.
    LoadBlock,
    /// Copy the input into that block from the offset, and write it back.
    CopyBlock,
    /// Stamp the inode's modification time, take the walk's pointers, add `i_blocks_added`
    /// to its block count and write it back.
    UpdateInode { i_blocks_added: u32 },
    /// Record the newly allocated blocks in the bitmaps and group descriptors.
    RecordAllocated,
    /// Answer that the file is a directory.
    FailIsDirectory,
    /// Answer with the bytes written.
    Finish { bytes: usize },
}

/// The allocation count after `n` more, counted up to the largest value.
pub open spec fn add_allocated(a: usize, n: usize) -> usize {
    if a + n > usize::MAX { usize::MAX } else { (a + n) as usize }
}

/// What the inode's block count grows by.  The count is kept in 512-byte sectors, so each
/// allocated block adds `block_size / 512`; the sum is taken modulo 2^32 as the 32-bit
/// count is.
pub open spec fn i_blocks_added(allocated: usize, block_size: u32) -> u32 {
    ((allocated as u32) as int * (block_size / 512) as int) as u32
}

/// The step after the last block: the inode is updated and written back.
pub open spec fn write_finish(s: WriteState) -> (WriteState, WriteAction) {
    (WriteState { phase: WritePhase::RecordAllocated, ..s }, WriteAction::UpdateInode {
        i_blocks_added: i_blocks_added(s.allocated, s.block_size),
    })
}

/// One step of a write: a directory is refused; else the walk moves to the head's block,
/// and while input is left the block at the walk's position is made to exist (counting the
/// blocks allocated for it), read in where writing starts inside it, and the input copied
/// into it; then the inode is stamped, given the walk's pointers and its block count grown
/// by the allocated blocks in 512-byte sectors, and written back, and the newly allocated
/// blocks are recorded.  The answer is the bytes written.  An event that does not fit the
/// phase changes nothing and asks again for what the phase needs.
pub open spec fn spec_write_step(s: WriteState, ev: WriteEvent) -> (WriteState, WriteAction) {
    match s.phase {
        WritePhase::Start => {
            if s.is_dir {
                (WriteState { phase: WritePhase::Failed, ..s }, WriteAction::FailIsDirectory)
            } else {
                (WriteState { phase: WritePhase::SetBlock, written: 0, allocated: 0, ..s }, WriteAction::SkipToHead)
            }
        },
        WritePhase::SetBlock => match ev {
            WriteEvent::Stored => {
                if s.written < s.len {
                    (s, WriteAction::SetBlock)
                } else {
                    write_finish(s)
                }
            },
            WriteEvent::BlockSet { allocated } => {
                let total = add_allocated(s.allocated, allocated);
                if s.offset != 0 {
                    (WriteState { phase: WritePhase::LoadBlock, allocated: total, ..s }, WriteAction::LoadBlock)
                } else {
                    (WriteState { phase: WritePhase::Copy, allocated: total, ..s }, WriteAction::CopyBlock)
                }
            },
            _ => (s, WriteAction::SetBlock),
        },
        WritePhase::LoadBlock => match ev {
            WriteEvent::Stored => (WriteState { phase: WritePhase::Copy, ..s }, WriteAction::CopyBlock),
            _ => (s, WriteAction::LoadBlock),
        },
        WritePhase::Copy => match ev {
            WriteEvent::Copied { written } => {
                if written < s.len {
                    (WriteState { phase: WritePhase::SetBlock, written, offset: 0, ..s }, WriteAction::SetBlock)
                } else {
                    write_finish(WriteState { written, offset: 0, ..s })
                }
            },
            _ => (s, WriteAction::CopyBlock),
        },
        WritePhase::RecordAllocated => match ev {
            WriteEvent::Stored => (
                WriteState { phase: WritePhase::Done { bytes: s.written }, ..s },
                WriteAction::RecordAllocated,
            ),
            _ => (s, WriteAction::UpdateInode { i_blocks_added: i_blocks_added(s.allocated, s.block_size) }),
        },
        WritePhase::Done { bytes } => (s, WriteAction::Finish { bytes }),
        WritePhase::Failed => (s, WriteAction::FailIsDirectory),
    }
}

/// What the inode's block count grows by, as `i_blocks_added` says.
fn blocks_added(allocated: usize, block_size: u32) -> (r: u32)
    ensures
        r == i_blocks_added(allocated, block_size),
{
    let a = allocated as u32;
    let per = block_size / 512;
    let r = a.wrapping_mul(per);
    assert(r == ((a as int * per as int) as u32)) by (bit_vector)
        requires
            r == a.wrapping_mul(per),
    ;
    r
}

/// One step of a write, as `spec_write_step` says.
pub fn write_step(s: &WriteState, ev: WriteEvent) -> (r: (WriteState, WriteAction))
    ensures
        r == spec_write_step(*s, ev),
{
    let s = *s;
    match s.phase {
        WritePhase::Start => {
            if s.is_dir {
                (WriteState { phase: WritePhase::Failed, ..s }, WriteAction::FailIsDirectory)
            } else {
                (WriteState { phase: WritePhase::SetBlock, written: 0, allocated: 0, ..s }, WriteAction::SkipToHead)
            }
        },
        WritePhase::SetBlock => match ev {
            WriteEvent::Stored => {
                if s.written < s.len {
                    (s, WriteAction::SetBlock)
                } else {
                    (WriteState { phase: WritePhase::RecordAllocated, ..s }, WriteAction::UpdateInode {
                        i_blocks_added: blocks_added(s.allocated, s.block_size),
                    })
                }
            },
            WriteEvent::BlockSet { allocated } => {
                let total = s.allocated.saturating_add(allocated);
                if s.offset != 0 {
                    (WriteState { phase: WritePhase::LoadBlock, allocated: total, ..s }, WriteAction::LoadBlock)
                } else {
                    (WriteState { phase: WritePhase::Copy, allocated: total, ..s }, WriteAction::CopyBlock)
                }
            },
            _ => (s, WriteAction::SetBlock),
        },
        WritePhase::LoadBlock => match ev {
            WriteEvent::Stored => (WriteState { phase: WritePhase::Copy, ..s }, WriteAction::CopyBlock),
            _ => (s, WriteAction::LoadBlock),
        },
        WritePhase::Copy => match ev {
            WriteEvent::Copied { written } => {
                if written < s.len {
                    (WriteState { phase: WritePhase::SetBlock, written, offset: 0, ..s }, WriteAction::SetBlock)
                } else {
                    (WriteState { phase: WritePhase::RecordAllocated, written, offset: 0, ..s }, WriteAction::UpdateInode {
                        i_blocks_added: blocks_added(s.allocated, s.block_size),
                    })
                }
            },
            _ => (s, WriteAction::CopyBlock),
        },
        WritePhase::RecordAllocated => match ev {
            WriteEvent::Stored => (
                WriteState { phase: WritePhase::Done { bytes: s.written }, ..s },
                WriteAction::RecordAllocated,
            ),
            _ => (s, WriteAction::UpdateInode { i_blocks_added: blocks_added(s.allocated, s.block_size) }),
        },
        WritePhase::Done { bytes } => (s, WriteAction::Finish { bytes }),
        WritePhase::Failed => (s, WriteAction::FailIsDirectory),
    }
}

/// Where an allocation of blocks across the block groups stands: the group to look at
/// next, the group to leave out, the number of groups, the blocks still wanted, and whether
/// a group's bitmap is being taken from.
#[derive(Debug, Clone, Copy, PartialEq, Eq, Structural)]
pub struct AllocState {
    pub group: i64,
    pub exclude: i64,
    pub group_count: i64,
    pub remaining: usize,
    pub awaiting: bool,
    pub done: bool,
}

/// What an allocation does next.
#[derive(Debug, Clone, Copy, PartialEq, Eq, Structural)]
pub enum AllocAction {
    /// Read the block bitmap of `group` and take up to the remaining blocks from it (with
    /// `allocate_in_bitmap`), reporting how many it took.
    TakeFromGroup { group: i64 },
    /// Stop: every wanted block was found, or there is no space left.
    Finish { ok: bool },
}

/// The finishing step: the allocation succeeds where nothing is wanted any more.
pub open spec fn alloc_finish(s: AllocState) -> (AllocState, AllocAction) {
    (AllocState { awaiting: false, done: true, ..s }, AllocAction::Finish { ok: s.remaining == 0 })
}

/// Taking from group `g`, where blocks are still wanted.
pub open spec fn alloc_take(s: AllocState, g: i64) -> (AllocState, AllocAction) {
    if s.remaining == 0 {
        alloc_finish(s)
    } else {
        (AllocState { group: g, awaiting: true, ..s }, AllocAction::TakeFromGroup { group: g })
    }
}

/// The decision at group `s.group`: past the last group the allocation ends; the left-out
/// group is passed over; with nothing more wanted it ends; else blocks are taken from it.
pub open spec fn alloc_scan(s: AllocState) -> (AllocState, AllocAction) {
    if s.group >= s.group_count {
        alloc_finish(s)
    } else if s.group == s.exclude {
        if s.group + 1 >= s.group_count {
            alloc_finish(AllocState { group: (s.group + 1) as i64, ..s })
        } else {
            alloc_take(s, (s.group + 1) as i64)
        }
    } else {
        alloc_take(s, s.group)
    }
}

/// One step of allocating blocks across the groups, in group order from the first, the
/// left-out group passed over: each group gives what it has free, up to the blocks still
/// wanted, and the allocation stops once none is wanted or the groups run out, failing
/// with no space left where some are still wanted.  `taken` is what the last group gave;
/// it counts only while a group is being taken from.
pub open spec fn spec_alloc_step(s: AllocState, taken: usize) -> (AllocState, AllocAction) {
    if s.done {
        (s, AllocAction::Finish { ok: s.remaining == 0 })
    } else if s.awaiting {
        let left = if taken >= s.remaining { 0usize } else { (s.remaining - taken) as usize };
        if s.group >= s.group_count {
            alloc_finish(AllocState { remaining: left, ..s })
        } else {
            alloc_scan(AllocState { group: (s.group + 1) as i64, remaining: left, awaiting: false, ..s })
        }
    } else {
        alloc_scan(s)
    }
}

/// The decision at the current group, as `alloc_scan` says.
fn alloc_scan_exec(s: AllocState) -> (r: (AllocState, AllocAction))
    ensures
        r == alloc_scan(s),
{
    if s.group >= s.group_count {
        return (AllocState { awaiting: false, done: true, ..s }, AllocAction::Finish { ok: s.remaining == 0 });
    }
    let g = if s.group == s.exclude { s.group + 1 } else { s.group };
    if g >= s.group_count || s.remaining == 0 {
        let s2 = AllocState { group: g, ..s };
        if g >= s.group_count {
            return (AllocState { awaiting: false, done: true, ..s2 }, AllocAction::Finish { ok: s.remaining == 0 });
        }
        return (AllocState { awaiting: false, done: true, ..s }, AllocAction::Finish { ok: true });
    }
    (AllocState { group: g, awaiting: true, ..s }, AllocAction::TakeFromGroup { group: g })
}

/// One step of allocating blocks across the groups, as `spec_alloc_step` says.
pub fn alloc_step(s: &AllocState, taken: usize) -> (r: (AllocState, AllocAction))
    ensures
        r == spec_alloc_step(*s, taken),
{
    let s = *s;
    if s.done {
        return (s, AllocAction::Finish { ok: s.remaining == 0 });
    }
    if s.awaiting {
        let left = if taken >= s.remaining { 0 } else { s.remaining - taken };
        if s.group >= s.group_count {
            return (AllocState { remaining: left, awaiting: false, done: true, ..s }, AllocAction::Finish { ok: left == 0 });
        }
        return alloc_scan_exec(AllocState { group: s.group + 1, remaining: left, awaiting: false, ..s });
    }
    alloc_scan_exec(s)
}

/// Whether making a directory at a path may go on, once the path was walked: a file
/// already there is refused, as is a path without a last component.
pub fn mkdir_check(exists: bool, has_name: bool) -> (r: Result<(), crate::hal::fs::HalFsIOErr>)
    ensures
        exists ==> (r matches Err(e) && e is FileExists),
        !exists && !has_name ==> (r matches Err(e) && e is BadPath),
        !exists && has_name ==> r is Ok,
{
    if exists {
        return Err(crate::hal::fs::HalFsIOErr::FileExists);
    }
    if !has_name {
        return Err(crate::hal::fs::HalFsIOErr::BadPath);
    }
    Ok(())
}

/// Whether removing a directory may go on, once the path was walked: nothing there is
/// refused, as is a file that is not a directory; then the directory must be empty.
/// `empty` is what the scan for entries found, `None` before it ran; `Ok(false)` asks for
/// that scan, `Ok(true)` lets the removal go on.
pub fn rmdir_check(found: bool, is_dir: bool, empty: Option<bool>) -> (r: Result<bool, crate::hal::fs::HalFsIOErr>)
    ensures
        !found ==> (r matches Err(e) && e is NoSuchFileOrDirectory),
        found && !is_dir ==> (r matches Err(e) && e is NotADirectory),
        found && is_dir && empty is None ==> r == Ok::<bool, crate::hal::fs::HalFsIOErr>(false),
        found && is_dir && empty == Some(false) ==> (r matches Err(e) && e is DirectoryNotEmpty),
        found && is_dir && empty == Some(true) ==> r == Ok::<bool, crate::hal::fs::HalFsIOErr>(true),
{
    if !found {
        return Err(crate::hal::fs::HalFsIOErr::NoSuchFileOrDirectory);
    }
    if !is_dir {
        return Err(crate::hal::fs::HalFsIOErr::NotADirectory);
    }
    match empty {
        None => Ok(false),
        Some(true) => Ok(true),
        Some(false) => Err(crate::hal::fs::HalFsIOErr::DirectoryNotEmpty),
    }
}

} // verus!
