//! Directory entries and the blocks that hold them.
use vstd::prelude::*;
use crate::serialize::{DvDeErr, DvSerErr};
use crate::utils::bytes::{
    copy_into, le16, le32, le_bytes, lemma_concat_eq, lemma_le_bytes_injective, lemma_le_field, lemma_le_fixed,
    lemma_pow256, push_le, read_u16_le, read_u32_le, write_le, put_le,
};
use crate::utils::strings::{is_dot_dot, is_single, push_char};
use crate::hal::fs::HalFsIOErr;
use vstd::string::*;

verus! {

/// The fixed-size head of a directory entry, as it lies on disk
#[derive(Clone, Copy, Debug, PartialEq, Eq, Structural)]
pub struct DirEntryPartial {
    /// Inode number (0 if entry is unused)
    pub inode: u32,
    /// Distance to next directory entry
    pub rec_len: u16,
    /// Name length
    pub name_len: u8,
    /// File type
    pub file_type: u8,
}

/// The size in bytes of the on-disk form of [`DirEntryPartial`].
pub const DIR_ENTRY_HEADER_SIZE: usize = 8;

impl DirEntryPartial {
    /// The on-disk form: the fields one after another, little-endian.
    pub open spec fn spec_bytes(&self) -> Seq<u8> {
        (((le_bytes(self.inode as int, 4) + le_bytes(self.rec_len as int, 2)) + seq![self.name_len]) + seq![self.file_type])
    }

    /// Parses the on-disk form at the start of `input`; the size read comes back with it.
    pub fn deserialize(input: &[u8]) -> (r: Result<(Self, usize), DvDeErr>)
        ensures
            input@.len() < DIR_ENTRY_HEADER_SIZE <==> r is Err,
            r matches Ok((v, n)) ==> n == DIR_ENTRY_HEADER_SIZE && v.spec_bytes() == input@.subrange(0, DIR_ENTRY_HEADER_SIZE as int),
    {
        if input.len() < DIR_ENTRY_HEADER_SIZE {
            return Err(DvDeErr::WrongBufferSize);
        }
        let ghost s = input@;
        let inode = read_u32_le(input, 0);
        proof { lemma_le_fixed(s, 0); lemma_le_field(s, 0, 4, inode as int); }
        assert(s.subrange(0, 4) =~= s.subrange(0, 0) + s.subrange(0, 4));
        let rec_len = read_u16_le(input, 4);
        proof { lemma_le_fixed(s, 4); lemma_le_field(s, 4, 2, rec_len as int); }
        assert(s.subrange(0, 6) =~= s.subrange(0, 4) + s.subrange(4, 6));
        let name_len = input[6];
        assert(seq![name_len] =~= s.subrange(6, 7));
        assert(s.subrange(0, 7) =~= s.subrange(0, 6) + s.subrange(6, 7));
        let file_type = input[7];
        assert(seq![file_type] =~= s.subrange(7, 8));
        assert(s.subrange(0, 8) =~= s.subrange(0, 7) + s.subrange(7, 8));
        let v = DirEntryPartial { inode, rec_len, name_len, file_type };
        assert(s.subrange(0, 0) =~= Seq::<u8>::empty());
        assert(Seq::<u8>::empty() + s.subrange(0, 4) =~= s.subrange(0, 4));
        Ok((v, DIR_ENTRY_HEADER_SIZE))
    }

    /// The on-disk form.
    pub fn to_bytes(&self) -> (out: Vec<u8>)
        ensures
            out@ == self.spec_bytes(),
            out@.len() == DIR_ENTRY_HEADER_SIZE,
    {
        let mut out: Vec<u8> = Vec::new();
        push_le(&mut out, 4, self.inode as u128);
        push_le(&mut out, 2, self.rec_len as u128);
        out.push(self.name_len);
        out.push(self.file_type);
        assert(out@ =~= self.spec_bytes());
        out
    }

    /// Writes the on-disk form into `target` at `off`; the size written comes back.
    pub fn serialize(&self, target: &mut Vec<u8>, off: usize) -> (r: Result<usize, DvSerErr>)
        ensures
            r is Err <==> old(target)@.len() < off + DIR_ENTRY_HEADER_SIZE,
            r is Err ==> final(target)@ == old(target)@,
            r matches Ok(n) ==> n == DIR_ENTRY_HEADER_SIZE && final(target)@ == old(target)@.take(off as int) + self.spec_bytes() + old(target)@.skip(off + DIR_ENTRY_HEADER_SIZE),
    {
        if target.len() < DIR_ENTRY_HEADER_SIZE || off > target.len() - DIR_ENTRY_HEADER_SIZE {
            return Err(DvSerErr::BufferTooSmall);
        }
        let ghost before = target@;
        let bytes = self.to_bytes();
        copy_into(target, off, bytes.as_slice());
        assert(target@ =~= before.take(off as int) + self.spec_bytes() + before.skip(off + DIR_ENTRY_HEADER_SIZE));
        Ok(DIR_ENTRY_HEADER_SIZE)
    }
}

/// Two values with the same on-disk form are equal, so parsing what was written gives
/// back what was written.
pub proof fn lemma_dir_entry_partial_bytes_injective(a: DirEntryPartial, b: DirEntryPartial)
    requires
        a.spec_bytes() == b.spec_bytes(),
    ensures
        a == b,
{
    lemma_pow256();
    lemma_concat_eq(((le_bytes(a.inode as int, 4) + le_bytes(a.rec_len as int, 2)) + seq![a.name_len]), seq![a.file_type], ((le_bytes(b.inode as int, 4) + le_bytes(b.rec_len as int, 2)) + seq![b.name_len]), seq![b.file_type]);
    lemma_concat_eq((le_bytes(a.inode as int, 4) + le_bytes(a.rec_len as int, 2)), seq![a.name_len], (le_bytes(b.inode as int, 4) + le_bytes(b.rec_len as int, 2)), seq![b.name_len]);
    lemma_concat_eq(le_bytes(a.inode as int, 4), le_bytes(a.rec_len as int, 2), le_bytes(b.inode as int, 4), le_bytes(b.rec_len as int, 2));
    lemma_concat_eq(Seq::<u8>::empty(), le_bytes(a.inode as int, 4), Seq::<u8>::empty(), le_bytes(b.inode as int, 4));
    lemma_le_bytes_injective(a.inode as int, b.inode as int, 4);
    lemma_le_bytes_injective(a.rec_len as int, b.rec_len as int, 2);
    assert(seq![a.name_len][0] == seq![b.name_len][0]);
    assert(seq![a.file_type][0] == seq![b.file_type][0]);
}


/// What is written for an entry reads back as that entry: its inode, record length, name
/// length, type and name lie at the offsets that parsing reads them from.
pub proof fn lemma_entry_bytes_read_back(inode: u32, rec_len: u16, file_type: u8, name: Seq<u8>)
    requires
        name.len() <= 255,
    ensures
        ({
            let b = spec_entry_bytes(inode, rec_len, file_type, name);
            &&& b.len() == 8 + name.len()
            &&& le32(b, 0) == inode
            &&& le16(b, 4) == rec_len
            &&& b[6] == name.len()
            &&& b[7] == file_type
            &&& b.subrange(8, 8 + name.len() as int) == name
        }),
{
    let b = spec_entry_bytes(inode, rec_len, file_type, name);
    lemma_pow256();
    assert(b.subrange(0, 4) =~= le_bytes(inode as int, 4));
    assert(b.subrange(4, 6) =~= le_bytes(rec_len as int, 2));
    crate::utils::bytes::lemma_le_bytes_decode(b, 0, 4, inode as int);
    crate::utils::bytes::lemma_le_bytes_decode(b, 4, 2, rec_len as int);
    lemma_le_fixed(b, 0);
    lemma_le_fixed(b, 4);
    assert(b.subrange(8, 8 + name.len() as int) =~= name);
}

/// The characters of a name stored one byte per character.
pub open spec fn latin1(s: Seq<u8>) -> Seq<char> {
    Seq::new(s.len(), |i: int| s[i] as char)
}

/// The record length that a name of `n` bytes needs: the 8-byte head and the name,
/// rounded up to a multiple of four.
pub open spec fn spec_record_length(n: int) -> int {
    ((8 + n + 3) / 4) * 4
}

impl DirEntryPartial {
    /// The smallest record length that this entry's name fits in.
    pub fn min_reclen(&self) -> (r: u16)
        ensures
            r == spec_record_length(self.name_len as int),
    {
        ((8 + self.name_len as u16 + 3) / 4) * 4
    }
}

/// Directory entry structure (variable length).
/// The name_len field is abstracted away for the name field.
/// Parsing and writing report where the next entry begins.
#[derive(Debug)]
pub struct DirEntry {
    /// Inode number (0 if entry is unused)
    pub inode: u32,
    /// Distance to next directory entry
    pub rec_len: u16,
    /// File type
    pub file_type: u8,
    /// File name (variable length, not null-terminated)
    pub name: String,
}

/// The head and name bytes that an entry is written as.
pub open spec fn spec_entry_bytes(inode: u32, rec_len: u16, file_type: u8, name: Seq<u8>) -> Seq<u8> {
    le_bytes(inode as int, 4) + le_bytes(rec_len as int, 2) + seq![name.len() as u8, file_type] + name
}

impl DirEntry {
    /// The UTF-8 bytes of the name.
    pub open spec fn name_bytes(&self) -> Seq<u8> {
        vstd::utf8::encode_utf8(self.name@)
    }

    /// An entry for `name` pointing at `inode`, as long as its name needs.
    pub fn new(inode: u32, name: String) -> (e: DirEntry)
        requires
            vstd::utf8::encode_utf8(name@).len() <= 255,
        ensures
            e.inode == inode,
            e.name@ == name@,
            e.file_type == super::EXT2_FT_UNKNOWN,
            e.rec_len == spec_record_length(vstd::utf8::encode_utf8(name@).len() as int),
    {
        let mut e = DirEntry { inode, rec_len: 0, file_type: super::EXT2_FT_UNKNOWN, name };
        e.rec_len = e.record_length();
        e
    }

    /// The record length that this entry's name needs.
    pub fn record_length(&self) -> (r: u16)
        requires
            self.name_bytes().len() <= 16000,
        ensures
            r == spec_record_length(self.name_bytes().len() as int),
    {
        let n = self.name.as_str().len();
        ((8 + n as u16 + 3) / 4) * 4
    }

    /// Parses the entry at the start of `input`; on success the distance to the next
    /// entry, its record length, comes back with it.  The record may reach exactly to the
    /// end of `input`, as the last entry of a block does.
    pub fn deserialize(input: &[u8]) -> (r: Result<(DirEntry, usize), DvDeErr>)
        ensures
            r is Ok <==> (input@.len() >= 8 && 8 + input@[6] <= input@.len() && le16(input@, 4)
                <= input@.len()),
            r matches Err(e) ==> e == DvDeErr::WrongBufferSize,
            r matches Ok((e, n)) ==> {
                &&& e.inode == le32(input@, 0)
                &&& e.rec_len == le16(input@, 4)
                &&& e.file_type == input@[7]
                &&& e.name@ == latin1(input@.subrange(8, 8 + input@[6]))
                &&& n == e.rec_len
            },
    {
        if input.len() < 8 {
            return Err(DvDeErr::WrongBufferSize);
        }
        let inode = read_u32_le(input, 0);
        let rec_len = read_u16_le(input, 4);
        let name_len = input[6];
        let file_type = input[7];

        let mut name = String::new();
        let mut i: usize = 0;
        while i < name_len as usize
            invariant
                i <= name_len,
                input@.len() >= 8,
                name_len == input@[6],
                i <= input@.len() - 8,
                name@ == latin1(input@.subrange(8, 8 + i as int)),
            decreases name_len - i,
        {
            if i >= input.len() - 8 {
                return Err(DvDeErr::WrongBufferSize);
            }
            let ghost prev = name@;
            push_char(&mut name, input[8 + i] as char);
            assert(name@ =~= latin1(input@.subrange(8, 8 + i + 1)));
            i = i + 1;
        }

        // the next entry begins rec_len bytes after this one
        let acc = rec_len as usize;
        if acc > input.len() {
            return Err(DvDeErr::WrongBufferSize);
        }

        Ok((DirEntry { inode, rec_len, file_type, name }, acc))
    }

    /// Writes the entry at `off` of `target`: its head, then its name; on success the
    /// record length comes back, the distance to where the next entry goes.
    pub fn serialize(&self, target: &mut Vec<u8>, off: usize) -> (r: Result<usize, DvSerErr>)
        requires
            self.name_bytes().len() <= 255 && off + 8 <= old(target)@.len() ==> off + 8
                + self.name_bytes().len() <= old(target)@.len(),
        ensures
            self.name_bytes().len() > 255 ==> r == Err::<usize, DvSerErr>(DvSerErr::BadStringLength(0, 255)),
            self.name_bytes().len() <= 255 && off + 8 > old(target)@.len() ==> r == Err::<usize, DvSerErr>(
                DvSerErr::BufferTooSmall,
            ),
            self.name_bytes().len() <= 255 && off + 8 <= old(target)@.len() ==> r is Ok,
            r is Err ==> final(target)@ == old(target)@,
            r matches Ok(n) ==> {
                &&& n == self.rec_len
                &&& final(target)@ == old(target)@.take(off as int) + spec_entry_bytes(
                    self.inode,
                    self.rec_len,
                    self.file_type,
                    self.name_bytes(),
                ) + old(target)@.skip(off + 8 + self.name_bytes().len())
            },
    {
        let name_bytes = self.name.as_str().as_bytes();
        if name_bytes.len() > 255 {
            return Err(DvSerErr::BadStringLength(0, 255));
        }
        if target.len() < 8 || off > target.len() - 8 {
            return Err(DvSerErr::BufferTooSmall);
        }
        let name_len = name_bytes.len() as u8;
        let mut bytes: Vec<u8> = Vec::new();
        push_le(&mut bytes, 4, self.inode as u128);
        push_le(&mut bytes, 2, self.rec_len as u128);
        bytes.push(name_len);
        bytes.push(self.file_type);
        let mut i: usize = 0;
        let ghost head = bytes@;
        while i < name_bytes.len()
            invariant
                i <= name_bytes@.len(),
                bytes@ == head + name_bytes@.take(i as int),
            decreases name_bytes@.len() - i,
        {
            bytes.push(name_bytes[i]);
            assert(bytes@ =~= head + name_bytes@.take(i + 1));
            i = i + 1;
        }
        assert(name_bytes@.take(name_bytes@.len() as int) =~= name_bytes@);
        assert(name_bytes@ == self.name_bytes());
        assert(bytes@ =~= spec_entry_bytes(self.inode, self.rec_len, self.file_type, self.name_bytes()));
        let ghost before = target@;
        copy_into(target, off, bytes.as_slice());
        assert(target@ =~= before.take(off as int) + spec_entry_bytes(
            self.inode,
            self.rec_len,
            self.file_type,
            self.name_bytes(),
        ) + before.skip(off + 8 + self.name_bytes().len()));
        Ok(self.rec_len as usize)
    }
}


/// UTF-8 spends at most four bytes on a character.
pub proof fn lemma_utf8_len(chars: Seq<char>)
    ensures
        vstd::utf8::encode_utf8(chars).len() <= 4 * chars.len(),
    decreases chars.len(),
{
    if chars.len() > 0 {
        lemma_utf8_len(chars.drop_first());
    }
}

/// Whether the entry at offset `p` parses: its head and name lie inside `s` and its
/// record length reaches no further than the end of `s`.
pub open spec fn entry_parses(s: Seq<u8>, p: int) -> bool {
    &&& 0 <= p
    &&& p + 8 <= s.len()
    &&& p + 8 + s[p + 6] <= s.len()
    &&& p + le16(s, p + 4) <= s.len()
}

/// The name of the entry at offset `p`.
pub open spec fn entry_name_at(s: Seq<u8>, p: int) -> Seq<char> {
    latin1(s.subrange(p + 8, p + 8 + s[p + 6]))
}

/// The outcome of scanning a directory block for a name.
pub enum BlockScan {
    /// An entry could not be parsed.
    Unparsable,
    /// The scan cannot finish: an offset or the size count over- or underflows, or an
    /// entry does not advance.
    Stuck,
    /// The name was found: its inode, whether the directory ends with it, its offset, the
    /// offset of the entry before it (its own at the start of the block), and the size
    /// left after it.
    Found { inode: u32, terminated: bool, at: int, prev: int, remaining: int },
    /// The name is not in the block: whether the directory ended (only said when it ends
    /// on `.` or `..`), and the size left.
    Missing { terminated: bool, remaining: int },
}

/// Scans the entries of the block `s` of `bs` bytes from offset `p` for `name`; `prev` is
/// the offset of the entry before, `remaining` the directory size not yet passed.  With
/// `find_is_empty` no name matches.
pub open spec fn scan_block(
    s: Seq<u8>,
    bs: int,
    name: Seq<char>,
    find_is_empty: bool,
    p: int,
    prev: int,
    remaining: int,
) -> BlockScan
    decreases (if bs > p {
        bs - p
    } else {
        0
    }),
{
    if p >= bs {
        BlockScan::Missing { terminated: false, remaining }
    } else if p > s.len() {
        BlockScan::Stuck
    } else if !entry_parses(s, p) {
        BlockScan::Unparsable
    } else {
        let rl = le16(s, p + 4);
        if p + rl > u32::MAX || rl > remaining {
            BlockScan::Stuck
        } else {
            let rem = remaining - rl;
            let term = rem == 0;
            let nm = entry_name_at(s, p);
            if nm == seq!['.'] || nm == seq!['.', '.'] {
                if term {
                    BlockScan::Missing { terminated: true, remaining: rem }
                } else if rl == 0 {
                    BlockScan::Stuck
                } else {
                    scan_block(s, bs, name, find_is_empty, p + rl, p, rem)
                }
            } else if le32(s, p) != 0 && nm == name && !find_is_empty {
                BlockScan::Found { inode: le32(s, p) as u32, terminated: term, at: p, prev, remaining: rem }
            } else if term {
                BlockScan::Missing { terminated: false, remaining: rem }
            } else if rl == 0 {
                BlockScan::Stuck
            } else {
                scan_block(s, bs, name, find_is_empty, p + rl, p, rem)
            }
        }
    }
}

/// How a scan of a directory block ends, as far as a caller must know before scanning:
/// whether it cannot finish, and where it finds the name.
#[derive(Debug, Clone, Copy, PartialEq, Eq, Structural)]
pub enum ScanShape {
    /// The scan cannot finish.
    Stuck,
    /// The name is found at `at`, the entry before it at `prev`.
    Found { at: usize, prev: usize },
    /// The scan ends without the name, or at an entry that does not parse.
    Other,
}

/// How scanning the block `buf` of `block_size` bytes for `name`, with `remaining` of the
/// directory's size left, ends: the same walk as the scan, without changing anything.
pub fn scan_shape(buf: &[u8], block_size: u32, name: &str, find_is_empty: bool, remaining: u32) -> (r: ScanShape)
    ensures
        match scan_block(buf@, block_size as int, name@, find_is_empty, 0, 0, remaining as int) {
            BlockScan::Stuck => r == ScanShape::Stuck,
            BlockScan::Found { at, prev, .. } => r == (ScanShape::Found { at: at as usize, prev: prev as usize }),
            _ => r == ScanShape::Other,
        },
{
    let ghost s = buf@;
    let ghost bs = block_size as int;
    let name_s = String::from_str(name);
    let mut p: u32 = 0;
    let mut prev: usize = 0;
    let mut rem: u32 = remaining;
    loop
        invariant
            s == buf@,
            bs == block_size as int,
            name_s@ == name@,
            prev <= p,
            scan_block(s, bs, name@, find_is_empty, p as int, prev as int, rem as int)
                == scan_block(s, bs, name@, find_is_empty, 0, 0, remaining as int),
        decreases (if p < block_size { block_size - p } else { 0 }),
    {
        if p >= block_size {
            return ScanShape::Other;
        }
        if p as usize > buf.len() {
            return ScanShape::Stuck;
        }
        let rest = vstd::slice::slice_subrange(buf, p as usize, buf.len());
        proof {
            assert(rest@ =~= s.subrange(p as int, s.len() as int));
        }
        let (entry, n) = match DirEntry::deserialize(rest) {
            Ok(v) => v,
            Err(_) => {
                assert(!entry_parses(s, p as int));
                return ScanShape::Other;
            },
        };
        proof {
            assert(entry_parses(s, p as int));
            assert(entry.name@ =~= entry_name_at(s, p as int));
        }
        assert(n == le16(s, p + 4));
        if n as u32 > u32::MAX - p || n as u32 > rem {
            return ScanShape::Stuck;
        }
        let here = p as usize;
        p = p + n as u32;
        rem = rem - n as u32;
        let term = rem == 0;
        if is_single(&entry.name, '.') || is_dot_dot(&entry.name) {
            if term {
                return ScanShape::Other;
            }
            if n == 0 {
                return ScanShape::Stuck;
            }
            prev = here;
            continue;
        }
        if entry.inode != 0 && name_s == entry.name && !find_is_empty {
            return ScanShape::Found { at: here, prev };
        }
        if term {
            return ScanShape::Other;
        }
        if n == 0 {
            return ScanShape::Stuck;
        }
        prev = here;
    }
}

/// Whether removing the found entry keeps the record length of the entry before it
/// in range.
pub open spec fn deletion_fits(s: Seq<u8>, at: int, prev: int) -> bool {
    at == prev || le16(s, prev + 4) + le16(s, at + 4) <= u16::MAX
}

/// The block after removing the entry at `at`: the first entry of a block becomes an
/// unused entry as long as its name needs; any other is merged into the entry before it.
pub open spec fn block_after_delete(s: Seq<u8>, at: int, prev: int) -> Seq<u8> {
    if at == prev {
        let reclen = spec_record_length(vstd::utf8::encode_utf8(entry_name_at(s, at)).len() as int);
        put_le(put_le(put_le(s, 0, 4, 0), 4, 2, reclen), 6, 1, 0)
    } else {
        put_le(s, prev + 4, 2, le16(s, prev + 4) + le16(s, at + 4))
    }
}

/// Looks for `name` among the entries of one directory block, starting at its first
/// entry, counting the directory size left down in `remaining_size`; `.` and `..` never
/// match.  Returns the inode of the entry found and whether the directory ends with the
/// entry where the scan stopped.  With `delete`, the entry found is also removed from
/// `buf`.
pub fn find_entry_in_block(
    name: &str,
    buf: &mut Vec<u8>,
    block_size: u32,
    delete: bool,
    find_is_empty: bool,
    remaining_size: &mut u32,
) -> (r: Result<(Option<i64>, bool), HalFsIOErr>)
    requires
        !(scan_block(old(buf)@, block_size as int, name@, find_is_empty, 0, 0, *old(remaining_size) as int) is Stuck),
        delete ==> match scan_block(old(buf)@, block_size as int, name@, find_is_empty, 0, 0, *old(remaining_size) as int) {
            BlockScan::Found { at, prev, .. } => deletion_fits(old(buf)@, at, prev),
            _ => true,
        },
    ensures
        match scan_block(old(buf)@, block_size as int, name@, find_is_empty, 0, 0, *old(remaining_size) as int) {
            BlockScan::Unparsable => r matches Err(HalFsIOErr::DeserializationErr(_)),
            BlockScan::Found { inode, terminated, at, prev, remaining } => {
                &&& r matches Ok((Some(i), t)) && i == inode && t == terminated
                &&& *final(remaining_size) == remaining
                &&& final(buf)@ == if delete { block_after_delete(old(buf)@, at, prev) } else { old(buf)@ }
            },
            BlockScan::Missing { terminated, remaining } => {
                &&& r matches Ok((None, t)) && t == terminated
                &&& *final(remaining_size) == remaining
                &&& final(buf)@ == old(buf)@
            },
            BlockScan::Stuck => false,
        },
{
    let ghost s = buf@;
    let ghost bs = block_size as int;
    let ghost rem0 = *remaining_size as int;
    let name_s = String::from_str(name);
    let mut progr: u32 = 0;
    let mut last_entry_idx: usize = 0;
    loop
        invariant
            s == buf@,
            s == old(buf)@,
            rem0 == *old(remaining_size) as int,
            bs == block_size as int,
            name_s@ == name@,
            last_entry_idx <= progr,
            scan_block(s, bs, name@, find_is_empty, progr as int, last_entry_idx as int, *remaining_size as int)
                == scan_block(s, bs, name@, find_is_empty, 0, 0, rem0),
            !(scan_block(s, bs, name@, find_is_empty, 0, 0, rem0) is Stuck),
            delete ==> match scan_block(s, bs, name@, find_is_empty, 0, 0, rem0) {
                BlockScan::Found { at, prev, .. } => deletion_fits(s, at, prev),
                _ => true,
            },
        decreases (if progr < block_size { block_size - progr } else { 0 }),
    {
        if progr >= block_size {
            assert(scan_block(s, bs, name@, find_is_empty, progr as int, last_entry_idx as int, *remaining_size as int) == BlockScan::Missing { terminated: false, remaining: *remaining_size as int });
            return Ok((None, false));
        }
        if progr as usize > buf.len() {
            assert(scan_block(s, bs, name@, find_is_empty, progr as int, last_entry_idx as int, *remaining_size as int) is Stuck);
            return Ok((None, false));
        }
        let rest = vstd::slice::slice_subrange(buf.as_slice(), progr as usize, buf.len());
        proof {
            assert(rest@ =~= s.subrange(progr as int, s.len() as int));
            if rest@.len() >= 8 {
                assert(rest@[4] == s[progr + 4]);
                assert(rest@[5] == s[progr + 5]);
                assert(rest@[6] == s[progr + 6]);
            }
        }
        let (entry, bytes_read) = match DirEntry::deserialize(rest) {
            Ok(v) => v,
            Err(e) => {
                assert(!entry_parses(s, progr as int));
                assert(scan_block(s, bs, name@, find_is_empty, progr as int, last_entry_idx as int, *remaining_size as int) is Unparsable);
                return Err(HalFsIOErr::DeserializationErr(e));
            },
        };
        proof {
            assert(entry_parses(s, progr as int));
            assert(entry.name@ =~= entry_name_at(s, progr as int));
        }
        let ghost cur = scan_block(s, bs, name@, find_is_empty, progr as int, last_entry_idx as int, *remaining_size as int);
        assert(bytes_read == le16(s, progr + 4));
        assert(!(cur is Stuck));
        let this_entry_idx = progr as usize;
        progr += bytes_read as u32;
        *remaining_size -= bytes_read as u32;
        let is_terminated = *remaining_size == 0;

        // skip the special entries "." and ".." when searching
        if is_single(&entry.name, '.') || is_dot_dot(&entry.name) {
            if is_terminated {
                return Ok((None, true));
            }
            assert(bytes_read > 0);
            last_entry_idx = this_entry_idx;
            continue;
        }

        // we don't check padding entries here
        if entry.inode != 0 && name_s == entry.name && !find_is_empty {
            if delete {
                if this_entry_idx == last_entry_idx {
                    // the first entry of the block becomes an unused entry
                    proof {
                        lemma_utf8_len(entry.name@);
                    }
                    let reclen = entry.record_length();
                    write_le(buf, 0, 4, 0);
                    write_le(buf, 4, 2, reclen as u128);
                    write_le(buf, 6, 1, 0);
                } else {
                    let this_rec_len = read_u16_le(buf.as_slice(), this_entry_idx + 4);
                    let last_rec_len = read_u16_le(buf.as_slice(), last_entry_idx + 4);
                    write_le(buf, last_entry_idx + 4, 2, (last_rec_len + this_rec_len) as u128);
                }
            }
            return Ok((Some(entry.inode as i64), is_terminated));
        }

        if is_terminated {
            return Ok((None, false));
        }
        assert(bytes_read > 0);
        last_entry_idx = this_entry_idx;
    }
}

/// The outcome of looking through a directory block for room for a new entry.
pub enum InsertScan {
    /// The entry at `at` has room after its name for `need` more bytes.
    Fits { at: int },
    /// An entry's record runs past the block.
    Corrupted,
    /// No entry has room.
    Full,
    /// The scan cannot finish: a head lies past the block, a sum over- or underflows, or
    /// an entry does not advance.
    Stuck,
}

/// Scans the entries of the block `s` (of nominal size `bs`) from offset `p` for one whose
/// record is longer than its name needs by at least `need` bytes.  Offsets are compared as
/// `u16`, as the scan does.
pub open spec fn insert_scan(s: Seq<u8>, bs: u32, need: int, p: int) -> InsertScan
    decreases (if s.len() > p { s.len() - p } else { 0 }),
{
    if p < 0 || p >= s.len() {
        InsertScan::Full
    } else if p + 8 > s.len() {
        InsertScan::Stuck
    } else {
        let rl = le16(s, p + 4);
        let minr = spec_record_length(s[p + 6] as int);
        if rl + (p as u16) > u16::MAX {
            InsertScan::Stuck
        } else if rl + (p as u16) > (bs as u16) {
            InsertScan::Corrupted
        } else if rl < minr {
            InsertScan::Stuck
        } else if rl - minr >= need {
            InsertScan::Fits { at: p }
        } else if rl == 0 {
            InsertScan::Stuck
        } else {
            insert_scan(s, bs, need, p + rl)
        }
    }
}

/// The block `s` after an entry is placed behind the entry at `at`: that entry's record is
/// cut to what its name needs, and the new entry is written where the cut record ends.
pub open spec fn block_after_insert(s: Seq<u8>, at: int, inode: u32, rec_len: u16, file_type: u8, name: Seq<u8>) -> Seq<u8> {
    let minr = spec_record_length(s[at + 6] as int);
    let shortened = put_le(s, at + 4, 2, minr);
    let off = at + minr;
    shortened.take(off) + spec_entry_bytes(inode, rec_len, file_type, name) + shortened.skip(off + 8 + name.len())
}

/// An entry placed behind the entry at `at` is what a scan that comes to `at` finds next:
/// the cut record leads to it, and its name and inode read back as written.
pub proof fn lemma_insert_then_find(
    s: Seq<u8>,
    bs: int,
    at: int,
    prev: int,
    remaining: int,
    inode: u32,
    rec_len: u16,
    file_type: u8,
    name: Seq<u8>,
)
    requires
        0 <= at,
        at + 8 <= s.len(),
        at + le16(s, at + 4) <= s.len(),
        at + le16(s, at + 4) <= u32::MAX,
        rec_len == le16(s, at + 4) - spec_record_length(s[at + 6] as int),
        at + spec_record_length(s[at + 6] as int) + 8 + name.len() <= s.len(),
        name.len() <= 255,
        at + spec_record_length(s[at + 6] as int) < bs,
        spec_record_length(s[at + 6] as int) < remaining,
        spec_record_length(s[at + 6] as int) + rec_len <= remaining,
        inode != 0,
        latin1(name) != seq!['.'] && latin1(name) != seq!['.', '.'],
        !(le32(s, at) != 0 && entry_name_at(s, at) == latin1(name)),
    ensures
        ({
            let minr = spec_record_length(s[at + 6] as int);
            let left = remaining - minr - rec_len;
            scan_block(block_after_insert(s, at, inode, rec_len, file_type, name), bs, latin1(name), false, at, prev, remaining)
                == (BlockScan::Found { inode, terminated: left == 0, at: at + minr, prev: at, remaining: left })
        }),
{
    let minr = spec_record_length(s[at + 6] as int);
    let off = at + minr;
    let shortened = put_le(s, at + 4, 2, minr);
    let b = spec_entry_bytes(inode, rec_len, file_type, name);
    let s2 = block_after_insert(s, at, inode, rec_len, file_type, name);
    lemma_entry_bytes_read_back(inode, rec_len, file_type, name);
    lemma_pow256();
    assert(s2.len() == s.len());
    assert forall|i: int| 0 <= i < off && !(at + 4 <= i < at + 6) implies s2[i] == s[i] by {
        assert(s2[i] == shortened[i]);
    }
    assert forall|i: int| 0 <= i < b.len() implies s2[off + i] == b[i] by {
        assert(s2[off + i] == (shortened.take(off) + b)[off + i]);
    }
    // The cut record at `at`.
    assert(s2.subrange(at + 4, at + 6) =~= le_bytes(minr, 2));
    crate::utils::bytes::lemma_le_bytes_decode(s2, at + 4, 2, minr);
    lemma_le_fixed(s2, at + 4);
    assert(le16(s2, at + 4) == minr);
    assert(le32(s2, at) == le32(s, at));
    assert(s2[at + 6] == s[at + 6]);
    assert(entry_name_at(s2, at) =~= entry_name_at(s, at));
    // The new entry at `off`.
    assert(le32(s2, off) == le32(b, 0));
    assert(le16(s2, off + 4) == le16(b, 4));
    assert(s2[off + 6] == b[6]);
    assert(s2.subrange(off + 8, off + 8 + name.len()) =~= b.subrange(8, 8 + name.len() as int));
    assert(entry_name_at(s2, off) =~= latin1(name));
    assert(entry_parses(s2, at));
    assert(entry_parses(s2, off));
    let left = remaining - minr - rec_len;
    assert(scan_block(s2, bs, latin1(name), false, off, at, remaining - minr)
        == (BlockScan::Found { inode, terminated: left == 0, at: off, prev: at, remaining: left }));
}

/// Whether the scan of `s` for `name` from offset `p` passes on to the entry at `at`, where
/// it arrives with `prev_at` as the entry before and `rem_at` of the size left: every
/// entry it passes parses, keeps its name inside its record, does not match, and leaves
/// size over.
pub open spec fn scan_reaches(
    s: Seq<u8>,
    bs: int,
    name: Seq<char>,
    find_is_empty: bool,
    p: int,
    prev: int,
    remaining: int,
    at: int,
    prev_at: int,
    rem_at: int,
) -> bool
    decreases (if bs > p {
        bs - p
    } else {
        0
    }),
{
    if p == at {
        prev == prev_at && remaining == rem_at
    } else if p > at || p >= bs || p > s.len() || !entry_parses(s, p) {
        false
    } else {
        let rl = le16(s, p + 4);
        let nm = entry_name_at(s, p);
        &&& rl > 0
        &&& p + rl <= u32::MAX
        &&& rl < remaining
        &&& p + 8 + s[p + 6] <= p + rl
        &&& !(nm != seq!['.'] && nm != seq!['.', '.'] && le32(s, p) != 0 && nm == name && !find_is_empty)
        &&& scan_reaches(s, bs, name, find_is_empty, p + rl, p, remaining - rl, at, prev_at, rem_at)
    }
}

/// A scan that passes on to an entry ends as the scan from that entry does.
proof fn lemma_scan_reaches_outcome(
    s: Seq<u8>,
    bs: int,
    name: Seq<char>,
    find_is_empty: bool,
    p: int,
    prev: int,
    remaining: int,
    at: int,
    prev_at: int,
    rem_at: int,
)
    requires
        scan_reaches(s, bs, name, find_is_empty, p, prev, remaining, at, prev_at, rem_at),
    ensures
        scan_block(s, bs, name, find_is_empty, p, prev, remaining) == scan_block(s, bs, name, find_is_empty, at, prev_at, rem_at),
    decreases (if bs > p {
        bs - p
    } else {
        0
    }),
{
    if p != at {
        let rl = le16(s, p + 4);
        lemma_scan_reaches_outcome(s, bs, name, find_is_empty, p + rl, p, remaining - rl, at, prev_at, rem_at);
    }
}

/// The path of a scan up to an entry reads no byte at or after it, so it is the same in a
/// block that differs only from there on.
proof fn lemma_scan_reaches_frame(
    s: Seq<u8>,
    s2: Seq<u8>,
    bs: int,
    name: Seq<char>,
    find_is_empty: bool,
    p: int,
    prev: int,
    remaining: int,
    at: int,
    prev_at: int,
    rem_at: int,
)
    requires
        scan_reaches(s, bs, name, find_is_empty, p, prev, remaining, at, prev_at, rem_at),
        s2.len() == s.len(),
        forall|i: int| 0 <= i < at ==> s2[i] == s[i],
    ensures
        scan_reaches(s2, bs, name, find_is_empty, p, prev, remaining, at, prev_at, rem_at),
    decreases (if bs > p {
        bs - p
    } else {
        0
    }),
{
    if p != at {
        let rl = le16(s, p + 4);
        lemma_scan_reaches_le(s, bs, name, find_is_empty, p + rl, p, remaining - rl, at, prev_at, rem_at);
        assert(s2[p + 4] == s[p + 4] && s2[p + 5] == s[p + 5] && s2[p + 6] == s[p + 6]);
        assert(le32(s2, p) == le32(s, p));
        assert(entry_name_at(s2, p) =~= entry_name_at(s, p));
        lemma_scan_reaches_frame(s, s2, bs, name, find_is_empty, p + rl, p, remaining - rl, at, prev_at, rem_at);
    }
}

/// A scan that passes on to `at` starts at or before it.
proof fn lemma_scan_reaches_le(
    s: Seq<u8>,
    bs: int,
    name: Seq<char>,
    find_is_empty: bool,
    p: int,
    prev: int,
    remaining: int,
    at: int,
    prev_at: int,
    rem_at: int,
)
    requires
        scan_reaches(s, bs, name, find_is_empty, p, prev, remaining, at, prev_at, rem_at),
    ensures
        p <= at,
{
}

/// A name placed into a directory block is what scanning the block for it finds, as long
/// as the scan passes on to the entry it was placed behind (no entry before matches, the
/// directory size is not used up, the entries passed are whole): the entry placed is found
/// with its inode.
pub proof fn lemma_insert_then_find_in_block(
    s: Seq<u8>,
    bs: int,
    remaining: int,
    at: int,
    prev_at: int,
    rem_at: int,
    inode: u32,
    rec_len: u16,
    file_type: u8,
    name: Seq<u8>,
)
    requires
        scan_reaches(s, bs, latin1(name), false, 0, 0, remaining, at, prev_at, rem_at),
        0 <= at,
        at + 8 <= s.len(),
        at + le16(s, at + 4) <= s.len(),
        at + le16(s, at + 4) <= u32::MAX,
        rec_len == le16(s, at + 4) - spec_record_length(s[at + 6] as int),
        at + spec_record_length(s[at + 6] as int) + 8 + name.len() <= s.len(),
        name.len() <= 255,
        at + spec_record_length(s[at + 6] as int) < bs,
        spec_record_length(s[at + 6] as int) < rem_at,
        spec_record_length(s[at + 6] as int) + rec_len <= rem_at,
        inode != 0,
        latin1(name) != seq!['.'] && latin1(name) != seq!['.', '.'],
        !(le32(s, at) != 0 && entry_name_at(s, at) == latin1(name)),
    ensures
        ({
            let minr = spec_record_length(s[at + 6] as int);
            let left = rem_at - minr - rec_len;
            scan_block(block_after_insert(s, at, inode, rec_len, file_type, name), bs, latin1(name), false, 0, 0, remaining)
                == (BlockScan::Found { inode, terminated: left == 0, at: at + minr, prev: at, remaining: left })
        }),
{
    let s2 = block_after_insert(s, at, inode, rec_len, file_type, name);
    let minr = spec_record_length(s[at + 6] as int);
    let shortened = put_le(s, at + 4, 2, minr);
    assert(s2.len() == s.len());
    assert forall|i: int| 0 <= i < at implies s2[i] == s[i] by {
        assert(s2[i] == shortened[i]);
    }
    lemma_scan_reaches_frame(s, s2, bs, latin1(name), false, 0, 0, remaining, at, prev_at, rem_at);
    lemma_scan_reaches_outcome(s2, bs, latin1(name), false, 0, 0, remaining, at, prev_at, rem_at);
    lemma_insert_then_find(s, bs, at, prev_at, rem_at, inode, rec_len, file_type, name);
}

/// How looking through a directory block for room ends, as far as a caller must know
/// before inserting: whether it cannot finish, and where the new entry would go.
#[derive(Debug, Clone, Copy, PartialEq, Eq, Structural)]
pub enum InsertShape {
    /// The look cannot finish.
    Stuck,
    /// The entry at `at` has room; the new entry would start at `off`.
    Fits { at: usize, off: usize },
    /// The block has no room, or is corrupted.
    Other,
}

/// How looking through the block `buf` for room for `needed` more bytes ends: the same walk
/// as the insertion, without changing anything.
pub fn insert_shape(buf: &[u8], block_size: u32, needed: u16) -> (r: InsertShape)
    requires
        buf@.len() + 65536 <= usize::MAX,
    ensures
        match insert_scan(buf@, block_size, needed as int, 0) {
            InsertScan::Stuck => r == InsertShape::Stuck,
            InsertScan::Fits { at } => r == (InsertShape::Fits {
                at: at as usize,
                off: (at + spec_record_length(buf@[at + 6] as int)) as usize,
            }),
            _ => r == InsertShape::Other,
        },
{
    let ghost s = buf@;
    let mut p: usize = 0;
    while p < buf.len()
        invariant
            s == buf@,
            s.len() + 65536 <= usize::MAX,
            insert_scan(s, block_size, needed as int, p as int) == insert_scan(s, block_size, needed as int, 0),
        decreases (if buf@.len() > p { buf@.len() - p } else { 0 }),
    {
        if p + 8 > buf.len() {
            return InsertShape::Stuck;
        }
        let rec_len = read_u16_le(buf, p + 4);
        let name_len = buf[p + 6];
        let min_reclen: u16 = ((8 + name_len as u16 + 3) / 4) * 4;
        if rec_len as u32 + (p as u16) as u32 > u16::MAX as u32 {
            return InsertShape::Stuck;
        }
        if rec_len + p as u16 > block_size as u16 {
            return InsertShape::Other;
        }
        if rec_len < min_reclen {
            return InsertShape::Stuck;
        }
        if rec_len - min_reclen >= needed {
            return InsertShape::Fits { at: p, off: p + min_reclen as usize };
        }
        if rec_len == 0 {
            return InsertShape::Stuck;
        }
        p += rec_len as usize;
    }
    InsertShape::Other
}

/// Looks through one directory block `buf` for an entry with room for `entry` after its
/// name.  The first such entry is shortened to what its name needs, and `entry`, given the
/// rest of the record, is written right after it; `Ok(true)` then says it was placed.
/// `Ok(false)` says the block has no room, and an entry whose record runs past the block
/// makes the block corrupted.
pub fn insert_entry_in_block(entry: &mut DirEntry, buf: &mut Vec<u8>, block_size: u32) -> (r: Result<bool, HalFsIOErr>)
    requires
        old(entry).name_bytes().len() <= 255,
        old(buf).len() + 65536 <= usize::MAX,
        !(insert_scan(old(buf)@, block_size, spec_record_length(old(entry).name_bytes().len() as int), 0) is Stuck),
        match insert_scan(old(buf)@, block_size, spec_record_length(old(entry).name_bytes().len() as int), 0) {
            InsertScan::Fits { at } => {
                let off = at + spec_record_length(old(buf)@[at + 6] as int);
                off + 8 <= old(buf)@.len() ==> off + 8 + old(entry).name_bytes().len() <= old(buf)@.len()
            },
            _ => true,
        },
    ensures
        final(entry).name@ == old(entry).name@,
        final(entry).inode == old(entry).inode,
        final(entry).file_type == old(entry).file_type,
        match insert_scan(old(buf)@, block_size, spec_record_length(old(entry).name_bytes().len() as int), 0) {
            InsertScan::Full => r == Ok::<bool, HalFsIOErr>(false) && final(buf)@ == old(buf)@ && final(entry).rec_len == old(entry).rec_len,
            InsertScan::Corrupted => r matches Err(HalFsIOErr::Corrupted) && final(buf)@ == old(buf)@,
            InsertScan::Fits { at } => {
                let minr = spec_record_length(old(buf)@[at + 6] as int);
                let shortened = put_le(old(buf)@, at + 4, 2, minr);
                let off = at + minr;
                &&& final(entry).rec_len == le16(old(buf)@, at + 4) - minr
                &&& if off + 8 > old(buf)@.len() {
                    r matches Err(HalFsIOErr::SerializationErr(DvSerErr::BufferTooSmall)) && final(buf)@ == shortened
                } else {
                    r == Ok::<bool, HalFsIOErr>(true) && final(buf)@ == block_after_insert(
                        old(buf)@,
                        at,
                        final(entry).inode,
                        final(entry).rec_len,
                        final(entry).file_type,
                        final(entry).name_bytes(),
                    )
                }
            },
            InsertScan::Stuck => false,
        },
{
    let ghost s = buf@;
    let ghost need = spec_record_length(entry.name_bytes().len() as int);
    proof {
        lemma_utf8_len(entry.name@);
    }
    let needed = entry.record_length();
    let mut progr: usize = 0;
    while progr < buf.len()
        invariant
            s == buf@,
            s == old(buf)@,
            need == needed,
            need == spec_record_length(entry.name_bytes().len() as int),
            entry.name_bytes().len() <= 255,
            *entry == *old(entry),
            insert_scan(s, block_size, need, progr as int) == insert_scan(s, block_size, need, 0),
            !(insert_scan(s, block_size, need, 0) is Stuck),
            match insert_scan(s, block_size, need, 0) {
                InsertScan::Fits { at } => {
                    let off = at + spec_record_length(s[at + 6] as int);
                    off + 8 <= s.len() ==> off + 8 + entry.name_bytes().len() <= s.len()
                },
                _ => true,
            },
            buf.len() + 65536 <= usize::MAX,
        decreases (if buf@.len() > progr { buf@.len() - progr } else { 0 }),
    {
        if progr + 8 > buf.len() {
            assert(insert_scan(s, block_size, need, progr as int) is Stuck);
            return Ok(false);
        }
        let rec_len = read_u16_le(buf.as_slice(), progr + 4);
        let name_len = buf[progr + 6];
        let min_reclen: u16 = ((8 + name_len as u16 + 3) / 4) * 4;
        if rec_len as u32 + (progr as u16) as u32 > u16::MAX as u32 {
            return Ok(false);
        }
        if rec_len + progr as u16 > block_size as u16 {
            return Err(HalFsIOErr::Corrupted);
        }
        if rec_len < min_reclen {
            return Ok(false);
        }
        if rec_len - min_reclen >= needed {
            assert(insert_scan(s, block_size, need, progr as int) == InsertScan::Fits { at: progr as int });
            entry.rec_len = rec_len - min_reclen;
            write_le(buf, progr + 4, 2, min_reclen as u128);
            let new_reclen = min_reclen as usize;
            assert(buf@ == put_le(s, progr + 4, 2, spec_record_length(s[progr + 6] as int)));
            let ghost shortened = buf@;
            let res = entry.serialize(buf, progr + new_reclen);
            proof {
                let off = progr + spec_record_length(s[progr + 6] as int);
                assert(off == progr + new_reclen);
                if off + 8 > s.len() {
                    assert(res == Err::<usize, DvSerErr>(DvSerErr::BufferTooSmall));
                } else {
                    assert(res is Ok);
                }
            }
            return match res {
                Ok(_) => Ok(true),
                Err(e) => Err(HalFsIOErr::SerializationErr(e)),
            };
        }
        if rec_len == 0 {
            return Ok(false);
        }
        progr += rec_len as usize;
    }
    assert(insert_scan(s, block_size, need, progr as int) is Full);
    Ok(false)
}

/// Starts a new directory block in `buf` with `entry` alone, its record the whole block:
/// the block is zeroed and the entry written at its start.
pub fn init_dir_block(entry: &mut DirEntry, buf: &mut Vec<u8>, block_size: u32) -> (r: Result<(), HalFsIOErr>)
    requires
        old(entry).name_bytes().len() <= 255,
        8 <= old(buf)@.len() ==> 8 + old(entry).name_bytes().len() <= old(buf)@.len(),
    ensures
        final(entry).name@ == old(entry).name@,
        final(entry).inode == old(entry).inode,
        final(entry).file_type == old(entry).file_type,
        final(entry).rec_len == block_size as u16,
        old(buf)@.len() < 8 ==> r matches Err(HalFsIOErr::SerializationErr(DvSerErr::BufferTooSmall)),
        old(buf)@.len() >= 8 ==> r is Ok && final(buf)@ == spec_entry_bytes(
            final(entry).inode,
            final(entry).rec_len,
            final(entry).file_type,
            final(entry).name_bytes(),
        ) + Seq::new((old(buf)@.len() - 8 - final(entry).name_bytes().len()) as nat, |i: int| 0u8),
{
    entry.rec_len = block_size as u16;
    let mut i: usize = 0;
    let ghost n = buf@.len();
    while i < buf.len()
        invariant
            buf@.len() == n,
            n == old(buf)@.len(),
            i <= n,
            forall|k: int| 0 <= k < i ==> #[trigger] buf@[k] == 0u8,
        decreases n - i,
    {
        buf.set(i, 0);
        i = i + 1;
    }
    let ghost zeros = buf@;
    assert(zeros =~= Seq::new(n as nat, |i: int| 0u8));
    match entry.serialize(buf, 0) {
        Ok(_) => {
            proof {
                let m: int = 8 + entry.name_bytes().len() as int;
                assert(zeros.skip(m) =~= Seq::new((n - m) as nat, |i: int| 0u8));
                assert(zeros.take(0) =~= Seq::<u8>::empty());
                assert(buf@ =~= spec_entry_bytes(entry.inode, entry.rec_len, entry.file_type, entry.name_bytes())
                    + Seq::new((n - m) as nat, |i: int| 0u8));
            }
            Ok(())
        },
        Err(e) => Err(HalFsIOErr::SerializationErr(e)),
    }
}

} // verus!
