//! The AHCI host controller: where its registers lie, how it is switched on, and which of
//! its ports hold drives.
use vstd::prelude::*;
use crate::drivers::ata::sata::task::{ahci_interrupt_handler_by_idx, port_pending};

verus! {

/// Offset of the first port's registers from the controller's base.
pub const HBA_PORT_PORTS_OFFSET: u64 = 0x100;
/// Size of one port's registers.
pub const HBA_PORT_SIZE: u64 = 0x80;

/// The physical base of the controller's registers from its fifth and fourth base address
/// registers: the fifth with its flag bits cleared, and the fourth as the upper half where
/// the fifth says the address is 64 bits wide.
pub fn hba_phys_base(bar5: u32, bar4: u32) -> (r: u64)
    ensures
        r == (bar5 & 0xFFFF_FFF0) as int + if bar5 & 0b0100 != 0 { bar4 as int * 0x1_0000_0000 } else { 0 },
{
    let mut base = (bar5 & 0xFFFF_FFF0) as u64;
    if bar5 & 0b0100 != 0 {
        let upper = bar4 as u64;
        let low = base;
        assert(low < 0x1_0000_0000);
        assert((upper << 32u64) == upper * 0x1_0000_0000 && low | (upper << 32u64) == low + upper * 0x1_0000_0000) by (bit_vector)
            requires
                upper < 0x1_0000_0000,
                low < 0x1_0000_0000,
        ;
        base = base | (upper << 32u64);
    }
    base
}

/// The global host control value that switches AHCI mode and interrupts on: bits 31 and 1
/// set, the others kept.
pub fn enabled_ghc(ghc: u32) -> (r: u32)
    ensures
        r == ghc | 0x8000_0002,
{
    let mut r = ghc;
    r = r & !(1u32 << 31u32);
    r = r | (1u32 << 31u32);
    r = r & !(1u32 << 1u32);
    r = r | (1u32 << 1u32);
    assert((((ghc & !(1u32 << 31u32)) | (1u32 << 31u32)) & !(1u32 << 1u32)) | (1u32 << 1u32) == ghc | 0x8000_0002) by (bit_vector);
    r
}

/// Whether the controller addresses 64 bits, as this driver needs: bit 31 of its
/// capabilities.
pub fn supports_64bit(cap: u32) -> (b: bool)
    ensures
        b == (cap & 0x8000_0000 != 0),
{
    assert(1u32 << 31u32 == 0x8000_0000u32) by (bit_vector);
    cap & (1u32 << 31u32) != 0
}

/// The number of command slots of each port: one more than bits 8 to 12 of the
/// capabilities.
pub fn command_slot_count(cap: u32) -> (r: u64)
    ensures
        r == 1 + (cap / 0x100) % 32,
        1 <= r <= 32,
{
    assert((cap >> 8u32) & 0b11111 == (cap / 0x100) % 32) by (bit_vector);
    1 + ((cap >> 8u32) & 0b11111) as u64
}

/// The ports the controller implements: each set bit of `pi`, in order.
pub fn implemented_ports(pi: u32) -> (ports: Vec<usize>)
    ensures
        forall|k: int| 0 <= k < ports@.len() ==> ports@[k] < 32 && port_pending(pi, ports@[k] as int),
        forall|i: int| 0 <= i < 32 && #[trigger] port_pending(pi, i) ==> ports@.contains(i as usize),
        forall|k: int, l: int| 0 <= k < l < ports@.len() ==> ports@[k] < ports@[l],
{
    ahci_interrupt_handler_by_idx(pi)
}

/// The base of the registers of port `i` of the controller whose registers lie at `base`.
pub fn port_base(base: u64, i: u64) -> (r: u64)
    requires
        i < 32,
        base + HBA_PORT_PORTS_OFFSET + 32 * HBA_PORT_SIZE <= u64::MAX,
    ensures
        r == base + HBA_PORT_PORTS_OFFSET + i * HBA_PORT_SIZE,
{
    base + HBA_PORT_PORTS_OFFSET + i * HBA_PORT_SIZE
}

} // verus!
