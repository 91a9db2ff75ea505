//! Command headers, command tables and physical region descriptors, and the commands the
//! SATA driver builds from them.
use vstd::prelude::*;
use crate::drivers::ata::sata::fis::{h2d_flags, AtaCommand, FisRegH2D, DEVICE_LBA_MODE, FORCE_UNIT_FLUSH};

verus! {

/// One slot of the command list: how to find and run the slot's command table.
#[derive(Debug, Clone, Copy)]
pub struct CommandHeader {
    pub flags: u16,
    /// number of entries
    pub physical_region_descriptor_table_length: u16,
    pub physical_region_descriptor_bytes_count: u32,
    pub cmd_table_base_addr_low: u32,
    pub cmd_table_base_addr_high: u32,
    pub reserved: [u32; 4],
}

impl Default for CommandHeader {
    /// The all-zero header.
    fn default() -> (h: Self)
        ensures
            h.flags == 0 && h.physical_region_descriptor_table_length == 0,
            h.physical_region_descriptor_bytes_count == 0,
            h.cmd_table_base_addr_low == 0 && h.cmd_table_base_addr_high == 0,
            h.reserved@ == seq![0u32, 0u32, 0u32, 0u32],
    {
        let h = CommandHeader {
            flags: 0,
            physical_region_descriptor_table_length: 0,
            physical_region_descriptor_bytes_count: 0,
            cmd_table_base_addr_low: 0,
            cmd_table_base_addr_high: 0,
            reserved: [0; 4],
        };
        assert(h.reserved@ =~= seq![0u32, 0u32, 0u32, 0u32]);
        h
    }
}

/// One physical region: where a transfer's data lies and how long it is.
#[derive(Debug, Clone, Copy, PartialEq, Eq, Structural)]
pub struct PrdtEntry {
    // has to be 2 bytes aligned
    pub data_base_low: u32,
    pub data_base_high: u32,
    pub _reserved: u32,
    pub flags: u32,
}

impl Default for PrdtEntry {
    /// The all-zero region.
    fn default() -> (e: Self)
        ensures
            e.data_base_low == 0 && e.data_base_high == 0 && e._reserved == 0 && e.flags == 0,
    {
        PrdtEntry { data_base_low: 0, data_base_high: 0, _reserved: 0, flags: 0 }
    }
}

/// A command table: the command FIS and the regions of its data.
/// the structure of a command table of 0x200 bytes will be:
/// CFIS - 0x40 bytes
/// ACMD - 0x10 bytes
/// reserved - 0x30 bytes
/// prdt - 24 entries, each 16 bytes
#[derive(Debug, Clone, Copy)]
pub struct CommandTable {
    pub cmd_fis: FisRegH2D,
    pub _padding: [u8; 32],
    pub _padding1: u64,
    pub _padding2: u32,
    pub _ata_cmd_area: [u8; 16],
    pub _reserved: [u8; 0x30],
    pub prdt_table: [PrdtEntry; 24],
}

/// The flags of a command header: the command FIS length in double words (bits 0-4),
/// ATAPI (5), write (6), prefetchable (7), reset (8), BIST (9), clear busy on R_OK (10)
/// and the port multiplier (12-15).
pub open spec fn spec_header_flags(fis_len: u16, atapi: bool, write: bool, prefetch: bool, reset: bool, bist: bool, clear_busy: bool, pm: u16) -> u16 {
    (fis_len | (if atapi { 0x20u16 } else { 0 }) | (if write { 0x40u16 } else { 0 }) | (if prefetch { 0x80u16 } else { 0 })
        | (if reset { 0x100u16 } else { 0 }) | (if bist { 0x200u16 } else { 0 }) | (if clear_busy { 0x400u16 } else { 0 })
        | (pm << 12u16)) as u16
}

/// Packs the flags of a command header, as `spec_header_flags` lays them out.
pub fn command_header_flags(fis_len: u16, atapi: bool, write: bool, prefetch: bool, reset: bool, bist: bool, clear_busy: bool, pm: u16) -> (f: u16)
    requires
        fis_len < 32,
        pm < 16,
    ensures
        f == spec_header_flags(fis_len, atapi, write, prefetch, reset, bist, clear_busy, pm),
        f & 0x1F == fis_len,
        (f & 0x40 != 0) == write,
        (f & 0x20 != 0) == atapi,
{
    let f = fis_len | (if atapi { 0x20u16 } else { 0 }) | (if write { 0x40u16 } else { 0 }) | (if prefetch { 0x80u16 } else { 0 })
        | (if reset { 0x100u16 } else { 0 }) | (if bist { 0x200u16 } else { 0 }) | (if clear_busy { 0x400u16 } else { 0 })
        | (pm << 12u16);
    assert(f & 0x1F == fis_len && ((f & 0x40 != 0) == write) && ((f & 0x20 != 0) == atapi)) by (bit_vector)
        requires
            fis_len < 32,
            pm < 16,
            f == fis_len | (if atapi { 0x20u16 } else { 0 }) | (if write { 0x40u16 } else { 0 }) | (if prefetch { 0x80u16 } else { 0 })
                | (if reset { 0x100u16 } else { 0 }) | (if bist { 0x200u16 } else { 0 }) | (if clear_busy { 0x400u16 } else { 0 })
                | (pm << 12u16),
    ;
    f
}

/// The flags of a physical region: the byte count less one in bits 0-21, and bit 31 to
/// interrupt when the region is done.
pub fn prdt_flags(byte_count: u32, interrupt: bool) -> (f: u32)
    requires
        byte_count < 0x40_0000,
    ensures
        f & 0x3F_FFFF == byte_count,
        (f & 0x8000_0000 != 0) == interrupt,
        f & 0x7FC0_0000 == 0,
{
    let f = byte_count | (if interrupt { 0x8000_0000u32 } else { 0 });
    assert(f & 0x3F_FFFF == byte_count && ((f & 0x8000_0000 != 0) == interrupt) && f & 0x7FC0_0000 == 0) by (bit_vector)
        requires
            byte_count < 0x40_0000,
            f == byte_count | (if interrupt { 0x8000_0000u32 } else { 0u32 }),
    ;
    f
}

/// The length of a host-to-device register FIS in double words.
pub const H2D_FIS_DWORDS: u16 = 5;

/// Byte `k` (counted from the least significant) of `v`.
pub open spec fn byte_k(v: u64, k: int) -> u8 {
    ((v / vstd::arithmetic::power2::pow2((8 * k) as nat) as u64) % 256) as u8
}

/// A command with what the slot's header, table FIS and first region hold.
#[derive(Debug, Clone, Copy)]
pub struct BuiltCommand {
    pub header: CommandHeader,
    pub fis: FisRegH2D,
    pub prdt: PrdtEntry,
}

/// The low and high halves of a 64-bit address.
pub fn split_addr(a: u64) -> (r: (u32, u32))
    ensures
        r.0 == a % 0x1_0000_0000,
        r.1 == a / 0x1_0000_0000,
{
    let lo = (a & 0xFFFF_FFFF) as u32;
    let hi = (a >> 32u64) as u32;
    assert(a & 0xFFFF_FFFF == a % 0x1_0000_0000 && a >> 32u64 == a / 0x1_0000_0000) by (bit_vector);
    (lo, hi)
}

/// The command that reads (or, with `write`, writes) `count` sectors at `lba` through
/// the buffer at physical address `buf_phys`, its table at `table_phys`: a 48-bit DMA
/// command in LBA mode (writes forcing unit access) with the address and count split into
/// bytes, one region of `count * 512` bytes, and a header naming the table.
pub fn build_rw_command(lba: u64, count: u16, write: bool, buf_phys: u64, table_phys: u64) -> (c: BuiltCommand)
    requires
        count > 0,
        count as int * 512 <= 0x40_0000,
    ensures
        c.fis.fis_type == 0x27,
        c.fis.command == if write { AtaCommand::WriteDmaExt.spec_code() } else { AtaCommand::ReadDmaExt.spec_code() },
        c.fis.flags & 0x80 != 0 && c.fis.flags & 0x0F == 0,
        c.fis.lba0 == lba % 0x100 && c.fis.lba1 == (lba / 0x100) % 0x100 && c.fis.lba2 == (lba / 0x1_0000) % 0x100,
        c.fis.lba3 == (lba / 0x100_0000) % 0x100 && c.fis.lba4 == (lba / 0x1_0000_0000) % 0x100,
        c.fis.lba5 == (lba / 0x100_0000_0000) % 0x100,
        c.fis.count_low == count % 0x100 && c.fis.count_high == count / 0x100,
        c.fis.device == if write { (DEVICE_LBA_MODE | FORCE_UNIT_FLUSH) as u8 } else { DEVICE_LBA_MODE },
        c.fis.feature_low == 0 && c.fis.feature_high == 0 && c.fis.icc == 0 && c.fis.control == 0,
        c.prdt.data_base_low == buf_phys % 0x1_0000_0000 && c.prdt.data_base_high == buf_phys / 0x1_0000_0000,
        c.prdt.flags & 0x3F_FFFF == count * 512 - 1 && c.prdt.flags & 0x8000_0000 == 0,
        c.header.flags == spec_header_flags(H2D_FIS_DWORDS, false, write, false, false, false, false, 0),
        c.header.physical_region_descriptor_table_length == 1,
        c.header.physical_region_descriptor_bytes_count == 0,
        c.header.cmd_table_base_addr_low == table_phys % 0x1_0000_0000,
        c.header.cmd_table_base_addr_high == table_phys / 0x1_0000_0000,
{
    let mut fis = FisRegH2D::default();
    fis.command = if write { AtaCommand::WriteDmaExt.code() } else { AtaCommand::ReadDmaExt.code() };
    fis.flags = h2d_flags(true, 0);
    fis.lba0 = (lba & 0xFF) as u8;
    fis.lba1 = ((lba >> 8u64) & 0xFF) as u8;
    fis.lba2 = ((lba >> 16u64) & 0xFF) as u8;
    fis.lba3 = ((lba >> 24u64) & 0xFF) as u8;
    fis.lba4 = ((lba >> 32u64) & 0xFF) as u8;
    fis.lba5 = ((lba >> 40u64) & 0xFF) as u8;
    proof {
        assert(lba & 0xFF == lba % 0x100
            && (lba >> 8u64) & 0xFF == (lba / 0x100) % 0x100
            && (lba >> 16u64) & 0xFF == (lba / 0x1_0000) % 0x100
            && (lba >> 24u64) & 0xFF == (lba / 0x100_0000) % 0x100
            && (lba >> 32u64) & 0xFF == (lba / 0x1_0000_0000) % 0x100
            && (lba >> 40u64) & 0xFF == (lba / 0x100_0000_0000) % 0x100) by (bit_vector);
    }
    fis.count_low = (count & 0xFF) as u8;
    fis.count_high = (count >> 8u16) as u8;
    proof {
        assert(count & 0xFF == count % 0x100 && count >> 8u16 == count / 0x100) by (bit_vector);
    }
    fis.device = if write { DEVICE_LBA_MODE | FORCE_UNIT_FLUSH } else { DEVICE_LBA_MODE };
    let (lo, hi) = split_addr(buf_phys);
    let pf = prdt_flags(count as u32 * 512 - 1, false);
    let prdt = PrdtEntry { data_base_low: lo, data_base_high: hi, _reserved: 0, flags: pf };
    let hf = command_header_flags(H2D_FIS_DWORDS, false, write, false, false, false, false, 0);
    let (tlo, thi) = split_addr(table_phys);
    let header = CommandHeader {
        flags: hf,
        physical_region_descriptor_table_length: 1,
        physical_region_descriptor_bytes_count: 0,
        cmd_table_base_addr_low: tlo,
        cmd_table_base_addr_high: thi,
        reserved: [0; 4],
    };
    BuiltCommand { header, fis, prdt }
}

/// The identify command: one region of a sector for the drive's identification data, in
/// the buffer at `buf_phys`, its table at `table_phys`.
pub fn build_identify_command(buf_phys: u64, table_phys: u64) -> (c: BuiltCommand)
    ensures
        c.fis.fis_type == 0x27,
        c.fis.command == AtaCommand::Identify.spec_code(),
        c.fis.flags & 0x80 != 0 && c.fis.flags & 0x0F == 0,
        c.fis.lba0 == 0 && c.fis.lba1 == 0 && c.fis.lba2 == 0 && c.fis.lba3 == 0 && c.fis.lba4 == 0 && c.fis.lba5 == 0,
        c.fis.count_low == 0 && c.fis.count_high == 0 && c.fis.device == 0,
        c.prdt.data_base_low == buf_phys % 0x1_0000_0000 && c.prdt.data_base_high == buf_phys / 0x1_0000_0000,
        c.prdt.flags & 0x3F_FFFF == 511 && c.prdt.flags & 0x8000_0000 == 0,
        c.header.flags == spec_header_flags(H2D_FIS_DWORDS, false, false, false, false, false, false, 0),
        c.header.physical_region_descriptor_table_length == 1,
        c.header.physical_region_descriptor_bytes_count == 0,
        c.header.cmd_table_base_addr_low == table_phys % 0x1_0000_0000,
        c.header.cmd_table_base_addr_high == table_phys / 0x1_0000_0000,
{
    let mut fis = FisRegH2D::default();
    fis.command = AtaCommand::Identify.code();
    fis.flags = h2d_flags(true, 0);
    let (lo, hi) = split_addr(buf_phys);
    let pf = prdt_flags(511, false);
    let prdt = PrdtEntry { data_base_low: lo, data_base_high: hi, _reserved: 0, flags: pf };
    let hf = command_header_flags(H2D_FIS_DWORDS, false, false, false, false, false, false, 0);
    let (tlo, thi) = split_addr(table_phys);
    let header = CommandHeader {
        flags: hf,
        physical_region_descriptor_table_length: 1,
        physical_region_descriptor_bytes_count: 0,
        cmd_table_base_addr_low: tlo,
        cmd_table_base_addr_high: thi,
        reserved: [0; 4],
    };
    BuiltCommand { header, fis, prdt }
}

/// The flush command: no data, the header's flags five (the FIS length alone), its table
/// at `table_phys`.
pub fn build_flush_command(table_phys: u64) -> (c: BuiltCommand)
    ensures
        c.fis.fis_type == 0x27,
        c.fis.command == AtaCommand::FlushCache.spec_code(),
        c.fis.flags & 0x80 != 0 && c.fis.flags & 0x0F == 0,
        c.fis.device == DEVICE_LBA_MODE,
        c.header.flags == 5,
        c.header.physical_region_descriptor_table_length == 0,
        c.header.physical_region_descriptor_bytes_count == 0,
        c.header.cmd_table_base_addr_low == table_phys % 0x1_0000_0000,
        c.header.cmd_table_base_addr_high == table_phys / 0x1_0000_0000,
        c.prdt == (PrdtEntry { data_base_low: 0, data_base_high: 0, _reserved: 0, flags: 0 }),
{
    let mut fis = FisRegH2D::default();
    fis.command = AtaCommand::FlushCache.code();
    fis.flags = h2d_flags(true, 0);
    fis.device = DEVICE_LBA_MODE;
    let (tlo, thi) = split_addr(table_phys);
    let header = CommandHeader {
        flags: 5,
        physical_region_descriptor_table_length: 0,
        physical_region_descriptor_bytes_count: 0,
        cmd_table_base_addr_low: tlo,
        cmd_table_base_addr_high: thi,
        reserved: [0; 4],
    };
    BuiltCommand { header, fis, prdt: PrdtEntry::default() }
}

} // verus!
