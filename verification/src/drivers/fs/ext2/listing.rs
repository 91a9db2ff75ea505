//! Listing a directory: the used entries of one block, from an offset, written into the
//! caller's buffer as listing records until it is full.
use vstd::prelude::*;
use crate::drivers::fs::ext2::dir::{entry_name_at, entry_parses, latin1, lemma_utf8_len, DirEntry};
use crate::drivers::fs::ext2::io::Progress;
use crate::hal::fs::{dirent64_bytes, dirent64_rec_len, DirEnt64};
use crate::utils::bytes::{le16, le32};

verus! {

/// Where listing the entries of a block stops.
pub enum BlockListing {
    /// The listing stopped at an entry that does not parse (`full` false) or at a used entry
    /// whose record does not fit the room left (`full` true), with the target as written,
    /// the bytes written and the directory offset reached.
    Stopped { target: Seq<u8>, written: int, offset: int, full: bool },
    /// The listing cannot finish: an entry does not advance, or the offset overflows.
    Stuck,
}

/// Lists the entries of the block `s` from byte `p`, at directory offset `offset`, into the
/// target `t` of which `w` bytes are written.  An unused entry (inode zero) is passed over;
/// a used one is written as a listing record whose offset is the directory offset after
/// the entry, as long as the record leaves room in the target.
pub open spec fn list_block(s: Seq<u8>, p: int, offset: int, t: Seq<u8>, w: int) -> BlockListing
    decreases s.len() - p,
{
    if p < 0 || !entry_parses(s, p) {
        BlockListing::Stopped { target: t, written: w, offset, full: false }
    } else {
        let n = le16(s, p + 4);
        if n == 0 || offset + n > i64::MAX {
            BlockListing::Stuck
        } else if le32(s, p) != 0 {
            let name = vstd::utf8::encode_utf8(entry_name_at(s, p));
            let rl = dirent64_rec_len(name.len() as int);
            if rl + w >= t.len() {
                BlockListing::Stopped { target: t, written: w, offset, full: true }
            } else {
                let rec = dirent64_bytes(le32(s, p) as u64, (offset + n) as i64, rl as u16, s[p + 7], name);
                list_block(s, p + n, offset + n, t.take(w) + rec + t.skip(w + 20 + name.len()), w + rl)
            }
        } else {
            list_block(s, p + n, offset + n, t, w)
        }
    }
}

/// Whether listing the block `s` from byte `p` cannot finish, for a target of `tlen` bytes
/// of which `w` are written: it depends on the lengths only.
pub open spec fn list_stuck(s: Seq<u8>, p: int, offset: int, tlen: int, w: int) -> bool
    decreases s.len() - p,
{
    if p < 0 || !entry_parses(s, p) {
        false
    } else {
        let n = le16(s, p + 4);
        if n == 0 || offset + n > i64::MAX {
            true
        } else if le32(s, p) != 0 {
            let rl = dirent64_rec_len(vstd::utf8::encode_utf8(entry_name_at(s, p)).len() as int);
            if rl + w >= tlen {
                false
            } else {
                list_stuck(s, p + n, offset + n, tlen, w + rl)
            }
        } else {
            list_stuck(s, p + n, offset + n, tlen, w)
        }
    }
}

/// Listing gets stuck exactly where the walk over the lengths says so, and writing keeps the
/// target's length.
proof fn lemma_list_stuck(s: Seq<u8>, p: int, offset: int, t: Seq<u8>, w: int)
    requires
        0 <= w <= t.len(),
    ensures
        (list_block(s, p, offset, t, w) is Stuck) == list_stuck(s, p, offset, t.len() as int, w),
    decreases s.len() - p,
{
    if p >= 0 && entry_parses(s, p) {
        let n = le16(s, p + 4);
        if n != 0 && offset + n <= i64::MAX {
            if le32(s, p) != 0 {
                let name = vstd::utf8::encode_utf8(entry_name_at(s, p));
                let rl = dirent64_rec_len(name.len() as int);
                if rl + w < t.len() {
                    let rec = dirent64_bytes(le32(s, p) as u64, (offset + n) as i64, rl as u16, s[p + 7], name);
                    let t2 = t.take(w) + rec + t.skip(w + 20 + name.len());
                    assert(t2.len() == t.len());
                    lemma_list_stuck(s, p + n, offset + n, t2, w + rl);
                }
            } else {
                lemma_list_stuck(s, p + n, offset + n, t, w);
            }
        }
    }
}

/// Whether listing the block `buf` from `start` at directory offset `offset` cannot finish,
/// for a target of `tlen` bytes of which `written` are written.
pub fn listing_is_stuck(buf: &[u8], start: usize, offset: i64, tlen: usize, written: usize) -> (b: bool)
    requires
        start <= buf@.len(),
        buf@.len() + 0x1_0000 <= usize::MAX,
        tlen + 0x1_0000 <= usize::MAX,
        written <= tlen,
    ensures
        b == list_stuck(buf@, start as int, offset as int, tlen as int, written as int),
{
    let ghost s = buf@;
    let mut p = start;
    let mut off = offset;
    let mut w = written;
    loop
        invariant
            s == buf@,
            p <= s.len(),
            s.len() + 0x1_0000 <= usize::MAX,
            tlen + 0x1_0000 <= usize::MAX,
            w <= tlen,
            list_stuck(s, p as int, off as int, tlen as int, w as int) == list_stuck(s, start as int, offset as int, tlen as int, written as int),
        decreases s.len() - p,
    {
        let rest = vstd::slice::slice_subrange(buf, p, buf.len());
        assert(rest@ =~= s.subrange(p as int, s.len() as int));
        let (entry, n) = match DirEntry::deserialize(rest) {
            Ok(v) => v,
            Err(_) => {
                assert(!entry_parses(s, p as int));
                return false;
            },
        };
        assert(entry_parses(s, p as int));
        assert(le16(s, p + 4) == le16(rest@, 4));
        assert(le32(s, p as int) == le32(rest@, 0));
        assert(rest@.subrange(8, 8 + rest@[6]) =~= s.subrange(p + 8, p + 8 + s[p + 6]));
        if n == 0 || off > i64::MAX - n as i64 {
            return true;
        }
        if entry.inode != 0 {
            proof {
                lemma_utf8_len(entry.name@);
            }
            let listed = DirEnt64 { inode_idx: 0, offset: 0, file_type: 0, name: entry.name };
            let rl = listed.rec_len();
            if rl >= tlen || w >= tlen - rl {
                return false;
            }
            w = w + rl;
        }
        off = off + n as i64;
        p = p + n;
    }
}

/// Lists the used entries of the block `buf` from the progress offset into `target`, each
/// as a listing record, counting the directory offset in `offset`.  A record that does not
/// fit ends the listing with the block left behind: `(false, true)` and the next block.
/// Otherwise the listing ends at the first entry that does not parse; `(true, true)` says
/// the directory offset reached the directory's size, else `(false, false)` and the next
/// block.
pub fn list_block_entries(buf: &[u8], dir_size: u32, target: &mut Vec<u8>, offset: &mut i64, progress: &mut Progress) -> (r: (bool, bool))
    requires
        old(progress).offset <= buf@.len(),
        old(progress).bytes_written <= old(target)@.len(),
        old(progress).block_idx < u32::MAX,
        buf@.len() + 0x1_0000 <= usize::MAX,
        old(target)@.len() + 0x1_0000 <= usize::MAX,
        !list_stuck(buf@, old(progress).offset as int, *old(offset) as int, old(target)@.len() as int, old(progress).bytes_written as int),
    ensures
        match list_block(buf@, old(progress).offset as int, *old(offset) as int, old(target)@, old(progress).bytes_written as int) {
            BlockListing::Stopped { target: t, written: w, offset: o, full } => {
                &&& final(target)@ == t
                &&& final(progress).bytes_written == w
                &&& *final(offset) == o
                &&& if full {
                    r == (false, true) && final(progress).block_idx == old(progress).block_idx + 1 && final(progress).offset == 0
                } else if o >= dir_size {
                    r == (true, true) && final(progress).block_idx == old(progress).block_idx && final(progress).offset
                        == old(progress).offset
                } else {
                    r == (false, false) && final(progress).block_idx == old(progress).block_idx + 1 && final(progress).offset == 0
                }
            },
            BlockListing::Stuck => false,
        },
{
    let ghost s = buf@;
    let ghost goal = list_block(s, progress.offset as int, *offset as int, target@, progress.bytes_written as int);
    proof {
        lemma_list_stuck(s, progress.offset as int, *offset as int, target@, progress.bytes_written as int);
    }
    let mut p: usize = progress.offset as usize;
    let mut full = false;
    loop
        invariant_except_break
            list_block(s, p as int, *offset as int, target@, progress.bytes_written as int) == goal,
            !full,
        invariant
            s == buf@,
            p <= s.len(),
            s.len() + 0x1_0000 <= usize::MAX,
            progress.bytes_written <= target@.len(),
            target@.len() == old(target)@.len(),
            target@.len() + 0x1_0000 <= usize::MAX,
            progress.block_idx == old(progress).block_idx,
            progress.offset == old(progress).offset,
            progress.block_idx < u32::MAX,
            goal == list_block(s, old(progress).offset as int, *old(offset) as int, old(target)@, old(progress).bytes_written as int),
            !(goal is Stuck),
        ensures
            goal == (BlockListing::Stopped { target: target@, written: progress.bytes_written as int, offset: *offset as int, full }),
            progress.block_idx == old(progress).block_idx,
            progress.offset == old(progress).offset,
            progress.block_idx < u32::MAX,
        decreases s.len() - p,
    {
        let rest = vstd::slice::slice_subrange(buf, p, buf.len());
        assert(rest@ =~= s.subrange(p as int, s.len() as int));
        let parsed = DirEntry::deserialize(rest);
        let (entry, n) = match parsed {
            Ok(v) => v,
            Err(_) => {
                assert(!entry_parses(s, p as int));
                break;
            },
        };
        assert(entry_parses(s, p as int));
        assert(le16(s, p + 4) == le16(rest@, 4));
        assert(le32(s, p as int) == le32(rest@, 0));
        assert(rest@.subrange(8, 8 + rest@[6]) =~= s.subrange(p + 8, p + 8 + s[p + 6]));
        assert(entry.name@ == entry_name_at(s, p as int));
        if entry.inode != 0 {
            proof {
                lemma_utf8_len(entry.name@);
            }
            let result_entry = DirEnt64 {
                inode_idx: entry.inode as u64,
                offset: *offset + n as i64,
                file_type: entry.file_type,
                name: entry.name,
            };
            let rl = result_entry.rec_len();
            if rl >= target.len() || progress.bytes_written >= target.len() - rl {
                full = true;
                break;
            }
            let w = progress.bytes_written;
            let written = result_entry.serialize(target, w);
            match written {
                Ok(k) => {
                    progress.bytes_written = w + k;
                },
                Err(_) => {
                    assert(false);
                },
            }
        }
        *offset = *offset + n as i64;
        p = p + n;
    }
    if full {
        progress.block_idx = progress.block_idx + 1;
        progress.offset = 0;
        return (false, true);
    }
    if *offset >= dir_size as i64 {
        return (true, true);
    }
    progress.block_idx = progress.block_idx + 1;
    progress.offset = 0;
    (false, false)
}

} // verus!
