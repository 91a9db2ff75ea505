//! The parallel ATA driver's decisions: what identification reports, which sector a
//! request names, whether it is in range, and the register bytes and data words it moves.
use vstd::prelude::*;
use crate::hal::storage::IoErr;
use crate::utils::binary_test;

verus! {

pub const PATA_PRIMARY_BASE: u16 = 0x1F0;
pub const PATA_SECONDARY_BASE: u16 = 0x170;

/// Register offsets from a channel's base port.
pub const DATA: u16 = 0;
pub const ERROR: u16 = 1;
pub const FEATURE: u16 = 1;
pub const SECTOR_COUNT: u16 = 2;
pub const LBA_LOW: u16 = 3;
pub const LBA_MID: u16 = 4;
pub const LBA_HIGH: u16 = 5;
pub const DRIVE: u16 = 6;
pub const COMMAND: u16 = 7;
pub const STATUS: u16 = 7;

/// Commands.
pub const READ_SECTORS: u8 = 0x20;
pub const READ_SECTORS_EXT: u8 = 0x24;
pub const WRITE_SECTORS: u8 = 0x30;
pub const WRITE_SECTORS_EXT: u8 = 0x34;
pub const START_IDENTIFY: u8 = 0xA0;
pub const IDENTITY: u8 = 0xEC;
pub const LBA28: u8 = 0xE0;
pub const LBA48: u8 = 0x40;
pub const FLUSH_CACHE: u8 = 0xE7;

/// Why identification failed.
#[derive(Debug, Clone, Copy, PartialEq, Eq, Structural)]
pub enum PataIdentErr {
    DeviceNonExist,
    DeviceNotAta,
    Error,
}

/// What one poll of identification saw.
#[derive(Debug, Clone, Copy, PartialEq, Eq, Structural)]
pub enum IdentPoll {
    /// The drive reports data ready.
    Ready,
    /// Keep polling.
    Wait,
    /// Identification failed.
    Failed(PataIdentErr),
}

/// A PATA drive as identification describes it, on the channel at `port`.
#[derive(Debug, Clone, Copy)]
pub struct PataDevice {
    pub identified: bool,
    pub lba48_supported: bool,
    pub lba28_sector_count: u32,
    pub lba48_sector_count: u64,
    pub sectors_per_track: u16,
    pub port: u16,
}

/// The status right after the identify command: a zero status means no drive.
pub fn identify_status(status: u8) -> (r: Result<(), PataIdentErr>)
    ensures
        status == 0 <==> r == Err::<(), PataIdentErr>(PataIdentErr::DeviceNonExist),
        status != 0 ==> r is Ok,
{
    if status == 0 {
        return Err(PataIdentErr::DeviceNonExist);
    }
    Ok(())
}

/// One poll of identification: nonzero signature bytes mean the drive is not ATA; then the
/// error bit (0) fails, and the data-request bit (3) means ready.
pub fn identify_poll(lba_mid: u8, lba_high: u8, status: u8) -> (r: IdentPoll)
    ensures
        (lba_mid != 0 || lba_high != 0) ==> r == IdentPoll::Failed(PataIdentErr::DeviceNotAta),
        (lba_mid == 0 && lba_high == 0 && status & 1 == 1) ==> r == IdentPoll::Failed(PataIdentErr::Error),
        (lba_mid == 0 && lba_high == 0 && status & 1 != 1 && status & 8 == 8) ==> r == IdentPoll::Ready,
        (lba_mid == 0 && lba_high == 0 && status & 1 != 1 && status & 8 != 8) ==> r == IdentPoll::Wait,
{
    if lba_mid != 0 || lba_high != 0 {
        return IdentPoll::Failed(PataIdentErr::DeviceNotAta);
    }
    if (status & 0b00000001) == 0b00000001 {
        return IdentPoll::Failed(PataIdentErr::Error);
    }
    if (status & 0b00001000) == 0b00001000 {
        return IdentPoll::Ready;
    }
    IdentPoll::Wait
}

impl PataDevice {
    /// A drive on the channel at `base_port`, not yet identified.
    pub fn new(base_port: u16) -> (d: Self)
        ensures
            !d.identified && !d.lba48_supported,
            d.lba28_sector_count == 0 && d.lba48_sector_count == 0,
            d.sectors_per_track == 1,
            d.port == base_port,
    {
        PataDevice {
            identified: false,
            lba48_supported: false,
            lba28_sector_count: 0,
            lba48_sector_count: 0,
            sectors_per_track: 1,
            port: base_port,
        }
    }

    /// Takes in the 256 identification words: 48-bit addressing where bit 10 of word 83
    /// is set, the sectors per track from word 6, the 28-bit sector count from words 60-61
    /// and the 48-bit one from words 100-103, low word first.
    pub fn read_identify_buffer(&mut self, buf: &[u16; 256])
        ensures
            final(self).identified,
            final(self).lba48_supported == (old(self).lba48_supported || (buf@[83] as u64 >> 10u64) % 2 == 1),
            final(self).sectors_per_track == buf@[6],
            final(self).lba28_sector_count == buf@[61] as int * 0x1_0000 + buf@[60] as int,
            final(self).lba48_sector_count == buf@[103] as int * 0x1_0000_0000_0000 + buf@[102] as int * 0x1_0000_0000
                + buf@[101] as int * 0x1_0000 + buf@[100] as int,
            final(self).port == old(self).port,
    {
        self.identified = true;
        if binary_test(buf[83] as u64, 10) {
            self.lba48_supported = true;
        }
        self.sectors_per_track = buf[6];
        let w60 = buf[60] as u32;
        let w61 = buf[61] as u32;
        self.lba28_sector_count = (w61 << 16u32) | w60;
        assert((w61 << 16u32) | w60 == w61 * 0x1_0000 + w60) by (bit_vector)
            requires
                w60 < 0x1_0000,
                w61 < 0x1_0000,
        ;
        let w100 = buf[100] as u64;
        let w101 = buf[101] as u64;
        let w102 = buf[102] as u64;
        let w103 = buf[103] as u64;
        self.lba48_sector_count = (w103 << 48u64) | (w102 << 32u64) | (w101 << 16u64) | w100;
        assert((w103 << 48u64) | (w102 << 32u64) | (w101 << 16u64) | w100 == w103 * 0x1_0000_0000_0000 + w102
            * 0x1_0000_0000 + w101 * 0x1_0000 + w100) by (bit_vector)
            requires
                w100 < 0x1_0000,
                w101 < 0x1_0000,
                w102 < 0x1_0000,
                w103 < 0x1_0000,
        ;
    }

    /// The drive's sector count: the 48-bit one where supported, the 28-bit one otherwise.
    pub open spec fn spec_sector_count(&self) -> u64 {
        if self.lba48_supported { self.lba48_sector_count } else { self.lba28_sector_count as u64 }
    }

    /// The drive's sector count: the 48-bit one where supported, the 28-bit one otherwise.
    pub fn sector_count(&self) -> (r: u64)
        ensures
            r == self.spec_sector_count(),
    {
        if self.lba48_supported {
            self.lba48_sector_count
        } else {
            self.lba28_sector_count as u64
        }
    }

    /// The sector a request names: a non-negative index as it is; a negative one counted
    /// back from a sector count, which this driver takes from the 28-bit count where 48-bit
    /// addressing is supported and from the 48-bit count otherwise.
    pub fn get_lba(&self, index: i64) -> (r: u64)
        requires
            index > i64::MIN,
            index < 0 && self.lba48_supported ==> self.lba28_sector_count >= (-index) as u32,
            index < 0 && !self.lba48_supported ==> self.lba48_sector_count >= -index,
        ensures
            index >= 0 ==> r == index,
            index < 0 && self.lba48_supported ==> r == self.lba28_sector_count - (-index) as u32,
            index < 0 && !self.lba48_supported ==> r == self.lba48_sector_count + index,
    {
        if index < 0 {
            let a = (0 - index) as u64;
            if self.lba48_supported {
                (self.lba28_sector_count - a as u32) as u64
            } else {
                self.lba48_sector_count - a
            }
        } else {
            index as u64
        }
    }

    /// Whether `count` sectors from `lba` lie on the drive.
    pub fn verify_lba(&self, lba: u64, count: u16) -> (r: Result<(), IoErr>)
        requires
            lba + count <= u64::MAX,
        ensures
            r is Ok <==> lba + count <= self.spec_sector_count(),
            r matches Err(e) ==> e == IoErr::SectorOutOfRange,
    {
        if self.lba48_supported {
            if lba + count as u64 > self.lba48_sector_count {
                return Err(IoErr::SectorOutOfRange);
            }
        } else {
            if lba + count as u64 > self.lba28_sector_count as u64 {
                return Err(IoErr::SectorOutOfRange);
            }
        }
        Ok(())
    }

    /// The checks before a transfer: the drive must be identified, and the sectors must lie
    /// on it; the sector comes back.
    pub fn io_init(&self, index: i64, count: u16) -> (r: Result<u64, IoErr>)
        requires
            index > i64::MIN,
            index < 0 && self.lba48_supported ==> self.lba28_sector_count >= (-index) as u32,
            index < 0 && !self.lba48_supported ==> self.lba48_sector_count >= -index,
            (if index >= 0 { index as int } else if self.lba48_supported { self.lba28_sector_count - (-index) as u32 } else { self.lba48_sector_count + index }) + count <= u64::MAX,
        ensures
            !self.identified ==> r == Err::<u64, IoErr>(IoErr::Unavailable),
            self.identified ==> {
                let lba = if index >= 0 { index as int } else if self.lba48_supported { self.lba28_sector_count - (-index) as u32 } else { self.lba48_sector_count + index };
                &&& (r is Ok <==> lba + count <= self.spec_sector_count())
                &&& (r matches Ok(l) ==> l == lba)
                &&& (r matches Err(e) ==> e == IoErr::SectorOutOfRange)
            },
    {
        if !self.identified {
            return Err(IoErr::Unavailable);
        }
        let lba = self.get_lba(index);
        match self.verify_lba(lba, count) {
            Ok(()) => Ok(lba),
            Err(e) => Err(e),
        }
    }
}

/// The register writes that set up a 48-bit transfer, as (offset, byte) in order: the
/// drive select, then the high bytes of count and address, then the low ones.
pub fn lba48_registers(count: u16, lba: u64) -> (w: Vec<(u16, u8)>)
    ensures
        w@ == seq![(DRIVE, LBA48), (SECTOR_COUNT, (count / 0x100) as u8),
            (LBA_LOW, ((lba / 0x100_0000) % 0x100) as u8), (LBA_MID, ((lba / 0x1_0000_0000) % 0x100) as u8),
            (LBA_HIGH, ((lba / 0x100_0000_0000) % 0x100) as u8), (SECTOR_COUNT, (count % 0x100) as u8),
            (LBA_LOW, (lba % 0x100) as u8), (LBA_MID, ((lba / 0x100) % 0x100) as u8),
            (LBA_HIGH, ((lba / 0x1_0000) % 0x100) as u8)],
{
    let mut w: Vec<(u16, u8)> = Vec::new();
    proof {
        assert((count >> 8u16) & 0xFF == count / 0x100
            && count & 0xFF == count % 0x100
            && (lba >> 24u64) & 0xFF == (lba / 0x100_0000) % 0x100
            && (lba >> 32u64) & 0xFF == (lba / 0x1_0000_0000) % 0x100
            && (lba >> 40u64) & 0xFF == (lba / 0x100_0000_0000) % 0x100
            && lba & 0xFF == lba % 0x100
            && (lba >> 8u64) & 0xFF == (lba / 0x100) % 0x100
            && (lba >> 16u64) & 0xFF == (lba / 0x1_0000) % 0x100) by (bit_vector);
    }
    w.push((DRIVE, LBA48));
    w.push((SECTOR_COUNT, ((count >> 8u16) & 0xFF) as u8));
    w.push((LBA_LOW, ((lba >> 24u64) & 0xFF) as u8));
    w.push((LBA_MID, ((lba >> 32u64) & 0xFF) as u8));
    w.push((LBA_HIGH, ((lba >> 40u64) & 0xFF) as u8));
    w.push((SECTOR_COUNT, (count & 0xFF) as u8));
    w.push((LBA_LOW, (lba & 0xFF) as u8));
    w.push((LBA_MID, ((lba >> 8u64) & 0xFF) as u8));
    w.push((LBA_HIGH, ((lba >> 16u64) & 0xFF) as u8));
    assert(w@ =~= seq![(DRIVE, LBA48), (SECTOR_COUNT, (count / 0x100) as u8),
            (LBA_LOW, ((lba / 0x100_0000) % 0x100) as u8), (LBA_MID, ((lba / 0x1_0000_0000) % 0x100) as u8),
            (LBA_HIGH, ((lba / 0x100_0000_0000) % 0x100) as u8), (SECTOR_COUNT, (count % 0x100) as u8),
            (LBA_LOW, (lba % 0x100) as u8), (LBA_MID, ((lba / 0x100) % 0x100) as u8),
            (LBA_HIGH, ((lba / 0x1_0000) % 0x100) as u8)]);
    w
}

/// The register writes that set up a 28-bit transfer, as this driver makes them: the drive
/// byte is the 28-bit mode bits or'ed with the address's top bits or'ed with `0xFF`, then
/// the count's low byte, the address's low byte, and its next two bytes both to the
/// middle register.
pub fn lba28_registers(count: u16, lba: u64) -> (w: Vec<(u16, u8)>)
    ensures
        w@ == seq![(DRIVE, 0xFFu8), (SECTOR_COUNT, (count % 0x100) as u8), (LBA_LOW, (lba % 0x100) as u8),
            (LBA_MID, ((lba / 0x100) % 0x100) as u8), (LBA_MID, ((lba / 0x1_0000) % 0x100) as u8)],
{
    let mut w: Vec<(u16, u8)> = Vec::new();
    let drive = LBA28 | ((lba >> 24u64) | 0xFF) as u8;
    proof {
        assert(((lba >> 24u64) | 0xFF) as u8 == 0xFFu8
            && 0xE0u8 | 0xFFu8 == 0xFFu8
            && count & 0xFF == count % 0x100
            && lba & 0xFF == lba % 0x100
            && (lba >> 8u64) & 0xFF == (lba / 0x100) % 0x100
            && (lba >> 16u64) & 0xFF == (lba / 0x1_0000) % 0x100) by (bit_vector);
    }
    w.push((DRIVE, drive));
    w.push((SECTOR_COUNT, (count & 0xFF) as u8));
    w.push((LBA_LOW, (lba & 0xFF) as u8));
    w.push((LBA_MID, ((lba >> 8u64) & 0xFF) as u8));
    w.push((LBA_MID, ((lba >> 16u64) & 0xFF) as u8));
    assert(w@ =~= seq![(DRIVE, 0xFFu8), (SECTOR_COUNT, (count % 0x100) as u8), (LBA_LOW, (lba % 0x100) as u8),
            (LBA_MID, ((lba / 0x100) % 0x100) as u8), (LBA_MID, ((lba / 0x1_0000) % 0x100) as u8)]);
    w
}

/// Stores the 256 data words of sector `sector` into `result`, each low byte first.
pub fn store_sector_words(result: &mut Vec<u8>, sector: usize, words: &[u16; 256])
    requires
        sector * 512 + 512 <= old(result).len(),
    ensures
        final(result)@.len() == old(result)@.len(),
        forall|k: int| 0 <= k < 256 ==> #[trigger] final(result)@[sector * 512 + 2 * k] == words@[k] % 0x100
            && final(result)@[sector * 512 + 2 * k + 1] == words@[k] / 0x100,
        forall|j: int| 0 <= j < old(result)@.len() && !(sector * 512 <= j < sector * 512 + 512) ==> #[trigger] final(result)@[j]
            == old(result)@[j],
{
    let offset = sector * 512;
    let mut i: usize = 0;
    while i < 256
        invariant
            offset == sector * 512,
            offset + 512 <= result@.len(),
            result@.len() == old(result)@.len(),
            i <= 256,
            forall|j: int| offset <= j < offset + 2 * i ==> #[trigger] result@[j] == if (j - offset) % 2 == 0 {
                words@[(j - offset) / 2] % 0x100
            } else {
                words@[(j - offset) / 2] / 0x100
            },
            forall|j: int| 0 <= j < old(result)@.len() && !(offset <= j < offset + 2 * i) ==> #[trigger] result@[j] == old(result)@[j],
        decreases 256 - i,
    {
        let word = words[i];
        let base = offset + i * 2;
        assert(word & 0xFF == word % 0x100 && (word >> 8u16) & 0xFF == word / 0x100) by (bit_vector);
        result.set(base, (word & 0xFF) as u8);
        result.set(base + 1, ((word >> 8u16) & 0xFF) as u8);
        proof {
            assert((base - offset) / 2 == i && (base - offset) % 2 == 0);
            assert((base + 1 - offset) / 2 == i && (base + 1 - offset) % 2 == 1);
        }
        i = i + 1;
    }
    assert forall|k: int| 0 <= k < 256 implies #[trigger] result@[sector * 512 + 2 * k] == words@[k] % 0x100
        && result@[sector * 512 + 2 * k + 1] == words@[k] / 0x100 by {
        assert(result@[offset + 2 * k] == words@[k] % 0x100);
        assert(result@[offset + 2 * k + 1] == words@[k] / 0x100);
    }
}

/// The data word that carries bytes `2k` and `2k + 1` of sector `sector` of `input`, the
/// later byte high.
pub fn sector_word(input: &[u8], sector: usize, k: usize) -> (w: u16)
    requires
        k < 256,
        sector * 512 + 512 <= input.len(),
    ensures
        w == input@[sector * 512 + 2 * k + 1] * 0x100 + input@[sector * 512 + 2 * k],
{
    let hi = input[sector * 512 + (k * 2) + 1] as u16;
    let lo = input[sector * 512 + k * 2] as u16;
    assert((hi << 8u16) | lo == hi * 0x100 + lo) by (bit_vector)
        requires
            hi < 0x100,
            lo < 0x100,
    ;
    (hi << 8u16) | lo
}

/// Whether a buffer of `len` bytes holds `count` sectors.
pub fn buffer_fits(len: usize, count: u16) -> (r: Result<(), IoErr>)
    ensures
        r is Ok <==> len >= count * 512,
        r matches Err(e) ==> e == IoErr::InputTooSmall,
{
    if len < count as usize * 512 {
        return Err(IoErr::InputTooSmall);
    }
    Ok(())
}

/// The future that waits for a PATA channel's interrupt.
pub struct WaitIOFuture {
    pub port: u16,
    pub is_done: bool,
}

impl WaitIOFuture {
    /// A future for the channel at `port`, not done.
    pub fn new(port: u16) -> (f: Self)
        ensures
            f.port == port,
            !f.is_done,
    {
        WaitIOFuture { port, is_done: false }
    }
}

} // verus!
