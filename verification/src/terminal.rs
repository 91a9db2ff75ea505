//! The serial debug port: its set-up and when it can take the next byte.
use vstd::prelude::*;

verus! {

/// The first serial port's data register.
pub const COM1: u16 = 0x3F8;

/// Writes text to the serial port.
pub struct SerialWriter {}

/// The register writes that set the serial port up, in order: interrupts off, the divisor
/// latch on, a divisor of 3 (38400 baud), 8 bits with no parity and one stop bit, the FIFOs
/// on and cleared with a 14-byte threshold, and the modem lines with interrupts on.
pub fn serial_init_writes() -> (w: Vec<(u16, u8)>)
    ensures
        w@ == seq![(0x3F9u16, 0x00u8), (0x3FBu16, 0x80u8), (0x3F8u16, 0x03u8), (0x3F9u16, 0x00u8), (0x3FBu16, 0x03u8),
            (0x3FAu16, 0xC7u8), (0x3FCu16, 0x0Bu8)],
{
    let mut w: Vec<(u16, u8)> = Vec::new();
    w.push((0x3F9, 0x00));
    w.push((0x3FB, 0x80));
    w.push((0x3F8, 0x03));
    w.push((0x3F9, 0x00));
    w.push((0x3FB, 0x03));
    w.push((0x3FA, 0xC7));
    w.push((0x3FC, 0x0B));
    assert(w@ =~= seq![(0x3F9u16, 0x00u8), (0x3FBu16, 0x80u8), (0x3F8u16, 0x03u8), (0x3F9u16, 0x00u8), (0x3FBu16, 0x03u8),
            (0x3FAu16, 0xC7u8), (0x3FCu16, 0x0Bu8)]);
    w
}

/// Whether the transmitter can take a byte: bit 5 of the line status.
pub fn is_transmit_empty(line_status: u8) -> (b: bool)
    ensures
        b == (line_status & 0x20 != 0),
{
    (line_status & 0x20) != 0
}

} // verus!
