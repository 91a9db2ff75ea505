//! Frame information structures: the messages between the AHCI controller and a drive.
use vstd::prelude::*;

verus! {

/// The kinds of FIS.
#[derive(Debug, Clone, Copy, PartialEq, Eq, Structural)]
pub enum FisType {
    /// Register FIS - host to device
    RegH2D,
    /// Register FIS - device to host
    RegD2H,
    /// DMA activate FIS - device to host
    DmaAct,
    /// DMA setup FIS - bidirectional
    DmaSetup,
    /// Data FIS - bidirectional
    Data,
    /// BIST activate FIS - bidirectional
    Bist,
    /// PIO setup FIS - device to host
    PioSetup,
    /// Set device bits FIS - device to host
    DevBits,
}

impl FisType {
    /// The type byte that starts a FIS of this kind.
    pub open spec fn spec_code(&self) -> u8 {
        match self {
            FisType::RegH2D => 0x27,
            FisType::RegD2H => 0x34,
            FisType::DmaAct => 0x39,
            FisType::DmaSetup => 0x41,
            FisType::Data => 0x46,
            FisType::Bist => 0x58,
            FisType::PioSetup => 0x5F,
            FisType::DevBits => 0xA1,
        }
    }

    /// The type byte that starts a FIS of this kind.
    pub fn code(&self) -> (c: u8)
        ensures
            c == self.spec_code(),
    {
        match self {
            FisType::RegH2D => 0x27,
            FisType::RegD2H => 0x34,
            FisType::DmaAct => 0x39,
            FisType::DmaSetup => 0x41,
            FisType::Data => 0x46,
            FisType::Bist => 0x58,
            FisType::PioSetup => 0x5F,
            FisType::DevBits => 0xA1,
        }
    }

    /// The kind of FIS that the type byte `c` names, if any.
    pub fn from_code(c: u8) -> (t: Option<FisType>)
        ensures
            t matches Some(k) ==> k.spec_code() == c,
            t is None ==> forall|k: FisType| k.spec_code() != c,
    {
        match c {
            0x27 => Some(FisType::RegH2D),
            0x34 => Some(FisType::RegD2H),
            0x39 => Some(FisType::DmaAct),
            0x41 => Some(FisType::DmaSetup),
            0x46 => Some(FisType::Data),
            0x58 => Some(FisType::Bist),
            0x5F => Some(FisType::PioSetup),
            0xA1 => Some(FisType::DevBits),
            _ => None,
        }
    }
}

/// The ATA commands the drivers issue.
#[derive(Debug, Clone, Copy, PartialEq, Eq, Structural)]
pub enum AtaCommand {
    /// Read sectors using DMA (48-bit LBA)
    ReadDmaExt,
    /// Write sectors using DMA (48-bit LBA)
    WriteDmaExt,
    /// Read sectors using DMA (28-bit LBA)
    ReadDma,
    /// Write sectors using DMA (28-bit LBA)
    WriteDma,
    /// Retrieve 512 bytes of device identification data
    Identify,
    /// Flush the drive's internal write cache to physical media
    FlushCache,
    /// Flush the drive's internal write cache (48-bit LBA version)
    FlushCacheExt,
}

impl AtaCommand {
    /// The command's opcode.
    pub open spec fn spec_code(&self) -> u8 {
        match self {
            AtaCommand::ReadDmaExt => 0x25,
            AtaCommand::WriteDmaExt => 0x35,
            AtaCommand::ReadDma => 0xC8,
            AtaCommand::WriteDma => 0xCA,
            AtaCommand::Identify => 0xEC,
            AtaCommand::FlushCache => 0xE7,
            AtaCommand::FlushCacheExt => 0xEA,
        }
    }

    /// The command's opcode.
    pub fn code(&self) -> (c: u8)
        ensures
            c == self.spec_code(),
    {
        match self {
            AtaCommand::ReadDmaExt => 0x25,
            AtaCommand::WriteDmaExt => 0x35,
            AtaCommand::ReadDma => 0xC8,
            AtaCommand::WriteDma => 0xCA,
            AtaCommand::Identify => 0xEC,
            AtaCommand::FlushCache => 0xE7,
            AtaCommand::FlushCacheExt => 0xEA,
        }
    }
}

/// Device register bit 6: the address is a logical block address.
pub const DEVICE_LBA_MODE: u8 = 0x40;
/// Device register bit 7 as write commands set it: force unit access.
pub const FORCE_UNIT_FLUSH: u8 = 0x80;

/// The flags byte of a host-to-device register FIS: the port multiplier in bits 0-3, and
/// bit 7 set for a command, clear for a control.
pub fn h2d_flags(is_command: bool, port_multiplier: u8) -> (f: u8)
    requires
        port_multiplier < 16,
    ensures
        f & 0x0F == port_multiplier,
        (f & 0x80 != 0) == is_command,
        f & 0x70 == 0,
{
    let f: u8 = (if is_command { 0x80u8 } else { 0u8 }) | port_multiplier;
    assert(((if is_command { 0x80u8 } else { 0u8 }) | port_multiplier) & 0x0F == port_multiplier) by (bit_vector)
        requires
            port_multiplier < 16,
    ;
    assert((((if is_command { 0x80u8 } else { 0u8 }) | port_multiplier) & 0x80 != 0) == is_command) by (bit_vector)
        requires
            port_multiplier < 16,
    ;
    assert(((if is_command { 0x80u8 } else { 0u8 }) | port_multiplier) & 0x70 == 0) by (bit_vector)
        requires
            port_multiplier < 16,
    ;
    f
}

/// A host-to-device register FIS: a command with its address and count.
#[derive(Debug, Clone, Copy)]
pub struct FisRegH2D {
    /// Always 0x27 for this type
    pub fis_type: u8,
    /// flags
    pub flags: u8,
    /// The ATA Command
    pub command: u8,
    /// Feature register low byte
    pub feature_low: u8,
    /// LBA bits 0-7
    pub lba0: u8,
    /// LBA bits 8-15
    pub lba1: u8,
    /// LBA bits 16-23
    pub lba2: u8,
    /// Device register (bit 6 = 1 for LBA mode)
    pub device: u8,
    /// LBA bits 24-31
    pub lba3: u8,
    /// LBA bits 32-39
    pub lba4: u8,
    /// LBA bits 40-47
    pub lba5: u8,
    /// Feature register high byte
    pub feature_high: u8,
    /// Sector count low byte (0-7)
    pub count_low: u8,
    /// Sector count high byte (8-15)
    pub count_high: u8,
    /// Isochronous command completion
    pub icc: u8,
    /// Control register
    pub control: u8,
    /// Reserved field to maintain 20-byte FIS size
    pub reserved: [u8; 4],
}

impl Default for FisRegH2D {
    /// The FIS with its type byte set and every other byte zero.
    fn default() -> (f: Self)
        ensures
            f.fis_type == 0x27,
            f.flags == 0 && f.command == 0 && f.feature_low == 0 && f.feature_high == 0,
            f.lba0 == 0 && f.lba1 == 0 && f.lba2 == 0 && f.lba3 == 0 && f.lba4 == 0 && f.lba5 == 0,
            f.device == 0 && f.count_low == 0 && f.count_high == 0 && f.icc == 0 && f.control == 0,
            f.reserved@ == seq![0u8, 0u8, 0u8, 0u8],
    {
        let f = FisRegH2D {
            fis_type: 0x27,
            flags: 0,
            command: 0,
            feature_low: 0,
            lba0: 0,
            lba1: 0,
            lba2: 0,
            device: 0,
            lba3: 0,
            lba4: 0,
            lba5: 0,
            feature_high: 0,
            count_low: 0,
            count_high: 0,
            icc: 0,
            control: 0,
            reserved: [0; 4],
        };
        assert(f.reserved@ =~= seq![0u8, 0u8, 0u8, 0u8]);
        f
    }
}

impl FisRegH2D {
    /// The FIS's twenty bytes in order.
    pub open spec fn spec_bytes(&self) -> Seq<u8> {
        seq![self.fis_type, self.flags, self.command, self.feature_low, self.lba0, self.lba1, self.lba2,
            self.device, self.lba3, self.lba4, self.lba5, self.feature_high, self.count_low, self.count_high,
            self.icc, self.control] + self.reserved@
    }

    /// The FIS's twenty bytes in order.
    pub fn to_bytes(&self) -> (b: Vec<u8>)
        ensures
            b@ == self.spec_bytes(),
    {
        let mut b: Vec<u8> = Vec::new();
        b.push(self.fis_type);
        b.push(self.flags);
        b.push(self.command);
        b.push(self.feature_low);
        b.push(self.lba0);
        b.push(self.lba1);
        b.push(self.lba2);
        b.push(self.device);
        b.push(self.lba3);
        b.push(self.lba4);
        b.push(self.lba5);
        b.push(self.feature_high);
        b.push(self.count_low);
        b.push(self.count_high);
        b.push(self.icc);
        b.push(self.control);
        b.push(self.reserved[0]);
        b.push(self.reserved[1]);
        b.push(self.reserved[2]);
        b.push(self.reserved[3]);
        assert(b@ =~= self.spec_bytes());
        b
    }

    /// The 48-bit address the FIS carries.
    pub open spec fn spec_lba(&self) -> int {
        self.lba0 + 256 * (self.lba1 + 256 * (self.lba2 + 256 * (self.lba3 + 256 * (self.lba4 + 256
            * self.lba5 as int))))
    }

    /// The sector count the FIS carries.
    pub open spec fn spec_count(&self) -> int {
        self.count_low + 256 * self.count_high
    }
}

/// A device-to-host register FIS: the drive's status after a command.
#[derive(Debug, Clone, Copy)]
pub struct FisRegD2H {
    /// FIS_TYPE_REG_D2H (0x34)
    pub fis_type: u8,
    /// Flags including Port Multiplier and Interrupt bit
    pub flags: u8,
    /// Status register (e.g., bit 0 is error, bit 7 is busy)
    pub status: u8,
    /// Error register (contains specific error code if status bit 0 is set)
    pub error: u8,
    /// LBA bits 0-7
    pub lba0: u8,
    /// LBA bits 8-15
    pub lba1: u8,
    /// LBA bits 16-23
    pub lba2: u8,
    /// Device register
    pub device: u8,
    /// LBA bits 24-31
    pub lba3: u8,
    /// LBA bits 32-39
    pub lba4: u8,
    /// LBA bits 40-47
    pub lba5: u8,
    /// Reserved
    pub rsv2: u8,
    /// Sector count low byte (0-7)
    pub countl: u8,
    /// Sector count high byte (8-15)
    pub counth: u8,
    /// Reserved
    pub rsv3: [u8; 2],
    /// Reserved
    pub rsv4: [u8; 4],
}

impl FisRegD2H {
    /// The sector count: the high byte above the low byte.
    pub fn sector_count(&self) -> (c: u16)
        ensures
            c == self.counth * 256 + self.countl,
    {
        let h = self.counth as u16;
        let l = self.countl as u16;
        assert((h << 8u16) | l == h * 256 + l) by (bit_vector)
            requires
                h < 256,
                l < 256,
        ;
        (h << 8) | l
    }
}

/// A data FIS: its payload follows the header.
#[derive(Debug, Clone, Copy)]
pub struct FisData {
    /// FIS_TYPE_DATA (0x46)
    pub fis_type: u8,
    /// Port multiplier and reserved bits
    pub flags: u8,
    /// Reserved
    pub rsv1: [u8; 2],
    /// Payload (Variable length).
    pub data: [u32; 1],
}

/// A PIO setup FIS.
#[derive(Debug, Clone, Copy)]
pub struct FisPioSetup {
    /// FIS_TYPE_PIO_SETUP (0x5F)
    pub fis_type: u8,
    pub flags: u8,
    pub status: u8,
    pub error: u8,
    pub lba0: u8,
    pub lba1: u8,
    pub lba2: u8,
    pub device: u8,
    pub lba3: u8,
    pub lba4: u8,
    pub lba5: u8,
    pub rsv2: u8,
    pub countl: u8,
    pub counth: u8,
    pub rsv3: u8,
    /// New value of status register
    pub e_status: u8,
    /// Transfer count
    pub tc: u16,
    pub rsv4: [u8; 2],
}

/// A DMA setup FIS.
#[derive(Debug, Clone, Copy)]
pub struct FisDmaSetup {
    /// FIS_TYPE_DMA_SETUP (0x41)
    pub fis_type: u8,
    pub flags: u8,
    pub rsved: [u8; 2],
    /// DMA Buffer Identifier
    pub dma_buffer_id: u64,
    pub rsvd: u32,
    /// Byte offset into buffer
    pub dma_buf_offset: u32,
    /// Number of bytes to transfer
    pub transfer_count: u32,
    pub resvd: u32,
}

/// A set-device-bits FIS.
#[derive(Debug, Clone, Copy)]
pub struct FisSetDevBits {
    /// FIS_TYPE_DEV_BITS (0xA1)
    pub fis_type: u8,
    /// Port multiplier and Interrupt/Notification flags
    pub flags: u8,
    /// The lower 8 bits of the Status register (e.g., Error bit, Busy bit)
    pub status: u8,
    /// The Error register
    pub error: u8,
    /// 32-bit SActive mask (Used for NCQ command completion)
    pub s_active: u32,
}

/// The area where the controller puts the FISes a port receives.
#[derive(Debug, Clone, Copy)]
pub struct ReceivedFisArea {
    /// Offset 0x00: DMA Setup FIS (28 bytes)
    pub dsfis: FisDmaSetup,
    /// Padding to reach 0x20
    pub reserved0: [u8; 4],
    /// Offset 0x20: PIO Setup FIS (20 bytes)
    pub psfis: FisPioSetup,
    /// Padding to reach 0x40
    pub reserved1: [u8; 12],
    /// Offset 0x40: Register D2H FIS (20 bytes)
    pub rfis: FisRegD2H,
    /// Padding to reach 0x58
    pub reserved2: [u8; 4],
    /// Offset 0x58: Set Device Bits FIS (8 bytes)
    pub sdbfis: FisSetDevBits,
    /// Offset 0x60: Unknown FIS (64 bytes)
    pub ufis: [u8; 64],
    /// Offset 0xA0: Reserved space to round out the 256 bytes
    pub reserved3: [u8; 96],
}

} // verus!
