//! A port's registers as the driver reads them, and the decisions taken from them.
use vstd::prelude::*;
use crate::hal::storage::HalBlockDevice;

verus! {

/// Offset of the received-FIS area in a port's DMA area.
pub const RECEIVED_FIS_AREA_OFFSET: u64 = 0x400;
/// Offset of the first command table in a port's DMA area.
pub const CMD_TABLES_OFFSET: u64 = 0x500;
/// Size of one command table.
pub const CMD_TABLE_SIZE: u64 = 0x200;
/// Size of one command header.
pub const CMD_HEADER_SIZE: usize = 32;

/// Command-and-status bit 0: start processing the command list.
pub const START: u32 = 0x1;
/// Command-and-status bit 15: the command list is running.
pub const COMMAND_LIST_RUNNING: u32 = 0x8000;
/// Command-and-status bit 4: FIS receive enable.
pub const FIS_RECEIVE_ENABLE: u32 = 0x10;
/// Command-and-status bit 14: FIS receive running.
pub const FIS_RECEIVE_RUNNING: u32 = 0x4000;

/// Device detection: no device.
pub const DET_NOT_PRESENT: u32 = 0x0;
/// Device detection: device, no communication.
pub const DET_PRESENT_NO_PHY: u32 = 0x1;
/// Device detection: device and communication.
pub const DET_PRESENT_WITH_PHY: u32 = 0x3;
/// Device detection: offline.
pub const DET_OFFLINE: u32 = 0x4;
/// Power management: no device.
pub const IPM_NOT_PRESENT: u32 = 0x0;
/// Power management: active.
pub const IPM_ACTIVE: u32 = 0x1;

/// The signature of an ATAPI device.
pub const ATAPI_SIG: u32 = 0xEB140101;
/// The signature of a SATA drive.
pub const SATA_SIG: u32 = 0x00000101;

/// The time the driver waits for a port to change state.
pub struct TimeOut {}

/// The device-detection field (bits 0-3) of a SATA status value.
pub open spec fn spec_det(status: u32) -> u32 {
    status & 0xF
}

/// The power-management field (bits 8-11) of a SATA status value.
pub open spec fn spec_ipm(status: u32) -> u32 {
    (status >> 8u32) & 0xF
}

/// The device-detection field of a SATA status value.
pub fn device_detection(status: u32) -> (r: u32)
    ensures
        r == spec_det(status),
        r < 16,
{
    assert(status & 0xF < 16) by (bit_vector);
    status & 0xF
}

/// The power-management field of a SATA status value.
pub fn interface_power_management(status: u32) -> (r: u32)
    ensures
        r == spec_ipm(status),
        r < 16,
{
    assert((status >> 8u32) & 0xF < 16) by (bit_vector);
    (status >> 8u32) & 0xF
}

/// Whether a port can be driven: its device has the SATA signature (not ATAPI) and is
/// present with communication established.
pub fn usable_port(signature: u32, sata_status: u32) -> (b: bool)
    ensures
        b == (signature == SATA_SIG && spec_det(sata_status) != DET_NOT_PRESENT && spec_det(sata_status)
            != DET_PRESENT_NO_PHY),
{
    if signature == ATAPI_SIG {
        return false;
    }
    if signature != SATA_SIG {
        return false;
    }
    let det = device_detection(sata_status);
    if det == DET_NOT_PRESENT || det == DET_PRESENT_NO_PHY {
        return false;
    }
    true
}

/// Whether the port's command engine is stopped: none of start, command list running,
/// FIS receive enable and FIS receive running is set.
pub fn is_idle(cmd_status: u32) -> (b: bool)
    ensures
        b == (cmd_status & (START | COMMAND_LIST_RUNNING | FIS_RECEIVE_ENABLE | FIS_RECEIVE_RUNNING) == 0),
{
    cmd_status & (START | COMMAND_LIST_RUNNING | FIS_RECEIVE_ENABLE | FIS_RECEIVE_RUNNING) == 0
}

/// The command-and-status value that stops the port: start and FIS receive enable
/// cleared, every other bit kept.
pub fn stopped_cmd(cmd_status: u32) -> (r: u32)
    ensures
        r == cmd_status & !(START | FIS_RECEIVE_ENABLE),
        r & START == 0 && r & FIS_RECEIVE_ENABLE == 0,
{
    let r = cmd_status & !(START | FIS_RECEIVE_ENABLE);
    assert(r & START == 0 && r & FIS_RECEIVE_ENABLE == 0) by (bit_vector)
        requires
            r == cmd_status & !(0x1u32 | 0x10u32),
    ;
    r
}

/// Whether stopping has finished: neither the command list nor FIS receive runs.
pub fn engine_stopped(cmd_status: u32) -> (b: bool)
    ensures
        b == (cmd_status & (COMMAND_LIST_RUNNING | FIS_RECEIVE_RUNNING) == 0),
{
    cmd_status & (COMMAND_LIST_RUNNING | FIS_RECEIVE_RUNNING) == 0
}

/// What bringing a port up needs first, from its SATA status: a COMRESET where it is
/// offline or reports no power state, and a wake-up where it is not active.
pub fn init_needs(sata_status: u32) -> (r: (bool, bool))
    ensures
        r.0 == (spec_det(sata_status) == DET_OFFLINE || spec_ipm(sata_status) == IPM_NOT_PRESENT),
        r.1 == (spec_ipm(sata_status) != IPM_ACTIVE),
{
    let det = device_detection(sata_status);
    let ipm = interface_power_management(sata_status);
    (det == DET_OFFLINE || ipm == IPM_NOT_PRESENT, ipm != IPM_ACTIVE)
}

/// The SATA control value with its device-detection initialisation field (bits 0-3) set to
/// `det`.
pub fn with_det_init(control: u32, det: u32) -> (r: u32)
    requires
        det < 16,
    ensures
        r == (control & !0xFu32) | det,
        r & 0xF == det,
        r & !0xFu32 == control & !0xFu32,
{
    let r = (control & !0xFu32) | det;
    assert(r & 0xF == det && r & !0xFu32 == control & !0xFu32) by (bit_vector)
        requires
            det < 16,
            r == (control & !0xFu32) | det,
    ;
    r
}

/// The command-and-status value with its interface communication control field (bits
/// 28-31) set to `icc`.
pub fn with_icc(cmd_status: u32, icc: u32) -> (r: u32)
    requires
        icc < 16,
    ensures
        r == (cmd_status & 0x0FFF_FFFF) | (icc << 28u32),
        r >> 28u32 == icc,
        r & 0x0FFF_FFFF == cmd_status & 0x0FFF_FFFF,
{
    let r = (cmd_status & 0x0FFF_FFFF) | (icc << 28u32);
    assert(r >> 28u32 == icc && r & 0x0FFF_FFFF == cmd_status & 0x0FFF_FFFF) by (bit_vector)
        requires
            icc < 16,
            r == (cmd_status & 0x0FFF_FFFF) | (icc << 28u32),
    ;
    r
}

/// Whether the drive is ready after a reset: neither busy (bit 7) nor requesting data
/// (bit 3) in the task file data.
pub fn task_file_ready(tfd: u32) -> (b: bool)
    ensures
        b == (tfd & 0x88 == 0),
{
    tfd & 0x88 == 0
}

/// The interrupts the driver enables: task file errors (bit 30) and descriptors
/// processed (bit 5).
pub fn enabled_interrupts() -> (r: u32)
    ensures
        r == 0x4000_0020,
{
    0x4000_0020
}

/// The device-detection initialisation value that requests a COMRESET.
pub const DET_COMRESET: u32 = 0x1;
/// The device-detection initialisation value that requests nothing.
pub const DET_NO_ACTION: u32 = 0x0;
/// The interface communication control value that makes the link active.
pub const ICC_ACTIVE: u32 = 0x1;
/// How long bringing a port up waits for each change of state, in milliseconds.
pub const PORT_INIT_TIMEOUT_MS: u64 = 1000;

/// Where bringing a port up stands.  A phase that waits remembers when the wait began;
/// the phases of the COMRESET remember whether the link must be woken afterwards, as the
/// status read at the start said.
#[derive(Debug, Clone, Copy, PartialEq, Eq, Structural)]
pub enum PortInitPhase {
    /// Nothing done yet.
    Start,
    /// Interrupts are off; the status decides what comes next.
    Status,
    /// The engine was stopped for a COMRESET; the control register is to request it.
    ComresetControl { wake: bool },
    /// Waiting for the device to come up with communication after the COMRESET.
    WaitPhy { wake: bool, start: u64 },
    /// The device is up and the engine stopped; the COMRESET request is to be withdrawn.
    ComresetRelease { wake: bool },
    /// The link is to be woken.
    Wake,
    /// Waiting for the link to become active.
    WaitActive { start: u64 },
    /// The link is active and the engine stopped; the control register is to request
    /// nothing.
    WakeRelease,
    /// The engine is to be stopped unless it is idle already.
    ResetCheck,
    /// Waiting for the command list and FIS receive to stop.
    WaitStopped { start: u64 },
    /// The error and interrupt-status registers are to be cleared.
    ClearErrors,
    /// Waiting for the drive to be neither busy nor requesting data.
    WaitReady { start: u64 },
    /// FIS receive is to be enabled.
    EnableFis,
    /// Waiting for FIS receive to run; `cmd` is the value written to enable it.
    WaitFisRunning { cmd: u32 },
    /// Waiting for the command list to run.
    WaitListRunning,
    /// Finished: brought up, or timed out.
    Done { ok: bool },
}

/// What the driver does for one step of bringing a port up.
#[derive(Debug, Clone, Copy, PartialEq, Eq, Structural)]
pub enum PortInitAction {
    /// Write zero to the interrupt-enable register.
    DisableInterrupts,
    /// Write this value to the command-and-status register.
    WriteCommand(u32),
    /// Write this value to the SATA control register.
    WriteControl(u32),
    /// Write the command-list base and the received-FIS base (each as its low and high
    /// halves).
    SetAddresses { command_list: u64, fis: u64 },
    /// Write all ones to the SATA error register and zero to the interrupt-status register.
    ClearErrors,
    /// Read the registers again and take the next step.
    Poll,
    /// Stop: the port is up (identify the drive and enable its interrupts next), or a wait
    /// timed out.
    Finish(bool),
}

/// The milliseconds from `start` to `now` (none where the clock reads earlier).
pub open spec fn elapsed_ms(now: u64, start: u64) -> int {
    if now >= start {
        now - start
    } else {
        0
    }
}

/// The command-and-status value that stops the engine.
pub open spec fn spec_stopped_cmd(cmd: u32) -> u32 {
    cmd & !(START | FIS_RECEIVE_ENABLE)
}

/// The SATA control value with device-detection initialisation `det`.
pub open spec fn spec_with_det_init(control: u32, det: u32) -> u32 {
    (control & !0xFu32) | det
}

/// Where the idle engine goes on: the command list at the start of the DMA area, the
/// received FIS at its offset after it (the address taken modulo 2^64).
pub open spec fn set_addresses_step(dma_paddr: u64) -> (PortInitPhase, PortInitAction) {
    (PortInitPhase::ClearErrors, PortInitAction::SetAddresses {
        command_list: dma_paddr,
        fis: dma_paddr.wrapping_add(RECEIVED_FIS_AREA_OFFSET),
    })
}

/// The step of stopping the engine before the addresses are set: nothing to stop where
/// it is idle.
pub open spec fn reset_check_step(cmd: u32, now_ms: u64, dma_paddr: u64) -> (PortInitPhase, PortInitAction) {
    if cmd & (START | COMMAND_LIST_RUNNING | FIS_RECEIVE_ENABLE | FIS_RECEIVE_RUNNING) == 0 {
        set_addresses_step(dma_paddr)
    } else {
        (PortInitPhase::WaitStopped { start: now_ms }, PortInitAction::WriteCommand(spec_stopped_cmd(cmd)))
    }
}

/// One step of bringing a port up, in the driver's order: interrupts off; where the status
/// read then shows the port offline or without a power state, stop the engine, request a
/// COMRESET and wait up to a second for the device to come up, then stop the engine and
/// withdraw the request; where that status shows the link not active, wake it and wait up
/// to a second for it to become active, then stop the engine and request nothing; stop the
/// engine unless it is idle, waiting up to a second; set the command-list and FIS
/// addresses; clear the error and interrupt-status registers; wait up to a second for the
/// drive to be ready; enable FIS receive and wait for it to run; start the command list and
/// wait for it to run.  The registers are those read before the step: `ssts` SATA status,
/// `sctl` SATA control, `cmd` command and status, `tfd` task file data.
pub open spec fn spec_port_init_step(
    phase: PortInitPhase,
    ssts: u32,
    sctl: u32,
    cmd: u32,
    tfd: u32,
    now_ms: u64,
    dma_paddr: u64,
) -> (PortInitPhase, PortInitAction) {
    match phase {
        PortInitPhase::Start => (PortInitPhase::Status, PortInitAction::DisableInterrupts),
        PortInitPhase::Status => {
            let comreset = spec_det(ssts) == DET_OFFLINE || spec_ipm(ssts) == IPM_NOT_PRESENT;
            let wake = spec_ipm(ssts) != IPM_ACTIVE;
            if comreset {
                (PortInitPhase::ComresetControl { wake }, PortInitAction::WriteCommand(spec_stopped_cmd(cmd)))
            } else if wake {
                (PortInitPhase::WaitActive { start: now_ms }, PortInitAction::WriteCommand(
                    (cmd & 0x0FFF_FFFF) | (ICC_ACTIVE << 28u32),
                ))
            } else {
                reset_check_step(cmd, now_ms, dma_paddr)
            }
        },
        PortInitPhase::ComresetControl { wake } => (
            PortInitPhase::WaitPhy { wake, start: now_ms },
            PortInitAction::WriteControl(spec_with_det_init(sctl, DET_COMRESET)),
        ),
        PortInitPhase::WaitPhy { wake, start } => {
            if spec_det(ssts) == DET_PRESENT_WITH_PHY {
                (PortInitPhase::ComresetRelease { wake }, PortInitAction::WriteCommand(spec_stopped_cmd(cmd)))
            } else if elapsed_ms(now_ms, start) >= PORT_INIT_TIMEOUT_MS {
                (PortInitPhase::Done { ok: false }, PortInitAction::Finish(false))
            } else {
                (phase, PortInitAction::Poll)
            }
        },
        PortInitPhase::ComresetRelease { wake } => (
            if wake {
                PortInitPhase::Wake
            } else {
                PortInitPhase::ResetCheck
            },
            PortInitAction::WriteControl(spec_with_det_init(sctl, DET_NO_ACTION)),
        ),
        PortInitPhase::Wake => (PortInitPhase::WaitActive { start: now_ms }, PortInitAction::WriteCommand(
            (cmd & 0x0FFF_FFFF) | (ICC_ACTIVE << 28u32),
        )),
        PortInitPhase::WaitActive { start } => {
            if spec_ipm(ssts) == IPM_ACTIVE {
                (PortInitPhase::WakeRelease, PortInitAction::WriteCommand(spec_stopped_cmd(cmd)))
            } else if elapsed_ms(now_ms, start) >= PORT_INIT_TIMEOUT_MS {
                (PortInitPhase::Done { ok: false }, PortInitAction::Finish(false))
            } else {
                (phase, PortInitAction::Poll)
            }
        },
        PortInitPhase::WakeRelease => (
            PortInitPhase::ResetCheck,
            PortInitAction::WriteControl(spec_with_det_init(sctl, DET_NO_ACTION)),
        ),
        PortInitPhase::ResetCheck => reset_check_step(cmd, now_ms, dma_paddr),
        PortInitPhase::WaitStopped { start } => {
            if elapsed_ms(now_ms, start) > PORT_INIT_TIMEOUT_MS {
                (PortInitPhase::Done { ok: false }, PortInitAction::Finish(false))
            } else if cmd & (COMMAND_LIST_RUNNING | FIS_RECEIVE_RUNNING) == 0 {
                set_addresses_step(dma_paddr)
            } else {
                (phase, PortInitAction::Poll)
            }
        },
        PortInitPhase::ClearErrors => (PortInitPhase::WaitReady { start: now_ms }, PortInitAction::ClearErrors),
        PortInitPhase::WaitReady { start } => {
            if tfd & 0x88 == 0 {
                (PortInitPhase::EnableFis, PortInitAction::Poll)
            } else if elapsed_ms(now_ms, start) > PORT_INIT_TIMEOUT_MS {
                (PortInitPhase::Done { ok: false }, PortInitAction::Finish(false))
            } else {
                (phase, PortInitAction::Poll)
            }
        },
        PortInitPhase::EnableFis => (
            PortInitPhase::WaitFisRunning { cmd: cmd | FIS_RECEIVE_ENABLE },
            PortInitAction::WriteCommand(cmd | FIS_RECEIVE_ENABLE),
        ),
        PortInitPhase::WaitFisRunning { cmd: written } => {
            if cmd & FIS_RECEIVE_RUNNING != 0 {
                (PortInitPhase::WaitListRunning, PortInitAction::WriteCommand(written | START))
            } else {
                (phase, PortInitAction::Poll)
            }
        },
        PortInitPhase::WaitListRunning => {
            if cmd & COMMAND_LIST_RUNNING != 0 {
                (PortInitPhase::Done { ok: true }, PortInitAction::Finish(true))
            } else {
                (phase, PortInitAction::Poll)
            }
        },
        PortInitPhase::Done { ok } => (phase, PortInitAction::Finish(ok)),
    }
}

/// The milliseconds from `start` to `now` (none where the clock reads earlier).
fn elapsed(now_ms: u64, start: u64) -> (r: u64)
    ensures
        r == elapsed_ms(now_ms, start),
{
    if now_ms >= start {
        now_ms - start
    } else {
        0
    }
}

/// The step after the engine turned out idle or stopped: set the addresses.
fn set_addresses(dma_paddr: u64) -> (r: (PortInitPhase, PortInitAction))
    ensures
        r == set_addresses_step(dma_paddr),
{
    (PortInitPhase::ClearErrors, PortInitAction::SetAddresses {
        command_list: dma_paddr,
        fis: dma_paddr.wrapping_add(RECEIVED_FIS_AREA_OFFSET),
    })
}

/// The step of stopping the engine before the addresses are set.
fn reset_check(cmd: u32, now_ms: u64, dma_paddr: u64) -> (r: (PortInitPhase, PortInitAction))
    ensures
        r == reset_check_step(cmd, now_ms, dma_paddr),
{
    if is_idle(cmd) {
        set_addresses(dma_paddr)
    } else {
        (PortInitPhase::WaitStopped { start: now_ms }, PortInitAction::WriteCommand(stopped_cmd(cmd)))
    }
}

/// One step of bringing a port up: from the phase and the registers read before it, the
/// next phase and what the driver does now.
pub fn port_init_step(
    phase: PortInitPhase,
    ssts: u32,
    sctl: u32,
    cmd: u32,
    tfd: u32,
    now_ms: u64,
    dma_paddr: u64,
) -> (r: (PortInitPhase, PortInitAction))
    ensures
        r == spec_port_init_step(phase, ssts, sctl, cmd, tfd, now_ms, dma_paddr),
{
    match phase {
        PortInitPhase::Start => (PortInitPhase::Status, PortInitAction::DisableInterrupts),
        PortInitPhase::Status => {
            let (comreset, wake) = init_needs(ssts);
            if comreset {
                (PortInitPhase::ComresetControl { wake }, PortInitAction::WriteCommand(stopped_cmd(cmd)))
            } else if wake {
                (PortInitPhase::WaitActive { start: now_ms }, PortInitAction::WriteCommand(with_icc(cmd, ICC_ACTIVE)))
            } else {
                reset_check(cmd, now_ms, dma_paddr)
            }
        },
        PortInitPhase::ComresetControl { wake } => (
            PortInitPhase::WaitPhy { wake, start: now_ms },
            PortInitAction::WriteControl(with_det_init(sctl, DET_COMRESET)),
        ),
        PortInitPhase::WaitPhy { wake, start } => {
            if device_detection(ssts) == DET_PRESENT_WITH_PHY {
                (PortInitPhase::ComresetRelease { wake }, PortInitAction::WriteCommand(stopped_cmd(cmd)))
            } else if elapsed(now_ms, start) >= PORT_INIT_TIMEOUT_MS {
                (PortInitPhase::Done { ok: false }, PortInitAction::Finish(false))
            } else {
                (phase, PortInitAction::Poll)
            }
        },
        PortInitPhase::ComresetRelease { wake } => {
            let next = if wake {
                PortInitPhase::Wake
            } else {
                PortInitPhase::ResetCheck
            };
            (next, PortInitAction::WriteControl(with_det_init(sctl, DET_NO_ACTION)))
        },
        PortInitPhase::Wake => (PortInitPhase::WaitActive { start: now_ms }, PortInitAction::WriteCommand(
            with_icc(cmd, ICC_ACTIVE),
        )),
        PortInitPhase::WaitActive { start } => {
            if interface_power_management(ssts) == IPM_ACTIVE {
                (PortInitPhase::WakeRelease, PortInitAction::WriteCommand(stopped_cmd(cmd)))
            } else if elapsed(now_ms, start) >= PORT_INIT_TIMEOUT_MS {
                (PortInitPhase::Done { ok: false }, PortInitAction::Finish(false))
            } else {
                (phase, PortInitAction::Poll)
            }
        },
        PortInitPhase::WakeRelease => (
            PortInitPhase::ResetCheck,
            PortInitAction::WriteControl(with_det_init(sctl, DET_NO_ACTION)),
        ),
        PortInitPhase::ResetCheck => reset_check(cmd, now_ms, dma_paddr),
        PortInitPhase::WaitStopped { start } => {
            if elapsed(now_ms, start) > PORT_INIT_TIMEOUT_MS {
                (PortInitPhase::Done { ok: false }, PortInitAction::Finish(false))
            } else if engine_stopped(cmd) {
                set_addresses(dma_paddr)
            } else {
                (phase, PortInitAction::Poll)
            }
        },
        PortInitPhase::ClearErrors => (PortInitPhase::WaitReady { start: now_ms }, PortInitAction::ClearErrors),
        PortInitPhase::WaitReady { start } => {
            if task_file_ready(tfd) {
                (PortInitPhase::EnableFis, PortInitAction::Poll)
            } else if elapsed(now_ms, start) > PORT_INIT_TIMEOUT_MS {
                (PortInitPhase::Done { ok: false }, PortInitAction::Finish(false))
            } else {
                (phase, PortInitAction::Poll)
            }
        },
        PortInitPhase::EnableFis => (
            PortInitPhase::WaitFisRunning { cmd: cmd | FIS_RECEIVE_ENABLE },
            PortInitAction::WriteCommand(cmd | FIS_RECEIVE_ENABLE),
        ),
        PortInitPhase::WaitFisRunning { cmd: written } => {
            if cmd & FIS_RECEIVE_RUNNING != 0 {
                (PortInitPhase::WaitListRunning, PortInitAction::WriteCommand(written | START))
            } else {
                (phase, PortInitAction::Poll)
            }
        },
        PortInitPhase::WaitListRunning => {
            if cmd & COMMAND_LIST_RUNNING != 0 {
                (PortInitPhase::Done { ok: true }, PortInitAction::Finish(true))
            } else {
                (phase, PortInitAction::Poll)
            }
        },
        PortInitPhase::Done { ok } => (phase, PortInitAction::Finish(ok)),
    }
}

/// Where command table `n` lies in a port's DMA area.
pub fn nth_command_table_offset(n: u64) -> (r: u64)
    requires
        n * CMD_TABLE_SIZE + CMD_TABLES_OFFSET <= u64::MAX,
    ensures
        r == CMD_TABLES_OFFSET + n * CMD_TABLE_SIZE,
{
    CMD_TABLES_OFFSET + n * CMD_TABLE_SIZE
}

/// Where the command header of slot `n` lies in a port's DMA area.
pub fn command_header_offset(n: usize) -> (r: usize)
    requires
        n * CMD_HEADER_SIZE <= usize::MAX,
    ensures
        r == n * CMD_HEADER_SIZE,
{
    n * CMD_HEADER_SIZE
}

/// Whether the drive supports 48-bit addresses: bit 10 of the second supported command
/// set word.
pub fn lba48_supported(command_set_supported2: u16) -> (b: bool)
    ensures
        b == (command_set_supported2 & 0x400 != 0),
{
    command_set_supported2 & 0x400 != 0
}

/// The sector a request names: a non-negative address as it is; a negative one counted
/// back from the drive's end, so that -1 is the last sector.
pub fn effective_lba(lba: i64, lba48_sectors: u64) -> (r: u64)
    requires
        lba < 0 ==> -lba <= lba48_sectors,
    ensures
        lba >= 0 ==> r == lba,
        lba < 0 ==> r == lba48_sectors + lba,
{
    if lba < 0 {
        let back: u64 = (-(lba + 1)) as u64 + 1;
        lba48_sectors - back
    } else {
        lba as u64
    }
}

/// The sectors a buffer of `len` bytes holds, taken modulo 2^16 as the command field does.
pub fn sector_count_of(len: usize) -> (r: u16)
    ensures
        r == (len / 512) as u16,
{
    (len / 512) as u16
}

/// Whether a command slot is finished: its bit in the command issue register is clear.
pub fn slot_done(command_issue: u32, slot: u32) -> (b: bool)
    requires
        slot < 32,
    ensures
        b == (command_issue & (1u32 << slot) == 0),
{
    command_issue & (1u32 << slot) == 0
}

/// The command issue value that runs slot `slot`.
pub fn issue_bit(slot: u32) -> (r: u32)
    requires
        slot < 32,
    ensures
        r == 1u32 << slot,
{
    1u32 << slot
}

} // verus!

verus! {

/// What the task file data says after the identify command completed.
#[derive(Debug, Clone, Copy, PartialEq, Eq, Structural)]
pub enum IdentifyStatus {
    /// The error bit (0) is set.
    DriveError,
    /// Busy (bit 7) or still requesting data (bit 3).
    StillBusy,
    /// The data is there.
    Done,
}

/// Classifies the task file data read after identification.
pub fn identify_status(tfd: u32) -> (r: IdentifyStatus)
    ensures
        tfd & 0x01 != 0 ==> r == IdentifyStatus::DriveError,
        tfd & 0x01 == 0 && (tfd & 0x80 != 0 || tfd & 0x08 != 0) ==> r == IdentifyStatus::StillBusy,
        tfd & 0x01 == 0 && tfd & 0x80 == 0 && tfd & 0x08 == 0 ==> r == IdentifyStatus::Done,
{
    if (tfd & 0x01) != 0 {
        return IdentifyStatus::DriveError;
    }
    if (tfd & 0x80) != 0 || (tfd & 0x08) != 0 {
        return IdentifyStatus::StillBusy;
    }
    IdentifyStatus::Done
}

/// A SATA drive on a port: its controller and port, its DMA area, and what identification
/// reported.
#[derive(Debug, Clone, Copy)]
pub struct AhciSata {
    pub dma_20kb_buffer_paddr: u64,
    pub max_cmd_slots: u64,
    pub sectors_per_track: u16,
    pub sector_count: u64,
    pub hba_idx: usize,
    pub ports_idx: usize,
}

impl AhciSata {
    /// A drive whose DMA area lies at `paddr`, not yet identified.
    pub fn new(paddr: u64, max_cmd_slots: u64, hba_idx: usize, ports_idx: usize) -> (s: Self)
        ensures
            s.dma_20kb_buffer_paddr == paddr,
            s.max_cmd_slots == max_cmd_slots,
            s.sectors_per_track == 0 && s.sector_count == 0,
            s.hba_idx == hba_idx && s.ports_idx == ports_idx,
    {
        AhciSata { dma_20kb_buffer_paddr: paddr, max_cmd_slots, sectors_per_track: 0, sector_count: 0, hba_idx, ports_idx }
    }

    /// Takes in the identification words: the sectors per track from word 6 and the
    /// sector count from the 48-bit count in words 100-103, low word first.
    pub fn apply_identify(&mut self, words: &[u16; 256])
        ensures
            final(self).sectors_per_track == words@[6],
            final(self).sector_count == words@[103] as int * 0x1_0000_0000_0000 + words@[102] as int * 0x1_0000_0000
                + words@[101] as int * 0x1_0000 + words@[100] as int,
            final(self).dma_20kb_buffer_paddr == old(self).dma_20kb_buffer_paddr,
            final(self).max_cmd_slots == old(self).max_cmd_slots,
    {
        self.sectors_per_track = words[6];
        let w100 = words[100] as u64;
        let w101 = words[101] as u64;
        let w102 = words[102] as u64;
        let w103 = words[103] as u64;
        self.sector_count = (w103 << 48u64) | (w102 << 32u64) | (w101 << 16u64) | w100;
        assert((w103 << 48u64) | (w102 << 32u64) | (w101 << 16u64) | w100 == w103 * 0x1_0000_0000_0000 + w102
            * 0x1_0000_0000 + w101 * 0x1_0000 + w100) by (bit_vector)
            requires
                w100 < 0x1_0000,
                w101 < 0x1_0000,
                w102 < 0x1_0000,
                w103 < 0x1_0000,
        ;
    }

    /// The physical address of command table `n` of this drive's DMA area.
    pub fn command_table_paddr(&self, n: u64) -> (r: u64)
        requires
            self.dma_20kb_buffer_paddr + CMD_TABLES_OFFSET + n * CMD_TABLE_SIZE <= u64::MAX,
        ensures
            r == self.dma_20kb_buffer_paddr + CMD_TABLES_OFFSET + n * CMD_TABLE_SIZE,
    {
        self.dma_20kb_buffer_paddr + nth_command_table_offset(n)
    }

    /// The physical address of the received-FIS area of this drive's DMA area.
    pub fn received_fis_paddr(&self) -> (r: u64)
        requires
            self.dma_20kb_buffer_paddr + RECEIVED_FIS_AREA_OFFSET <= u64::MAX,
        ensures
            r == self.dma_20kb_buffer_paddr + RECEIVED_FIS_AREA_OFFSET,
    {
        self.dma_20kb_buffer_paddr + RECEIVED_FIS_AREA_OFFSET
    }
}

impl HalBlockDevice for AhciSata {
    /// The sector count that identification reported.
    fn sector_count(&mut self) -> (r: u64)
        ensures
            r == old(self).sector_count,
            *final(self) == *old(self),
    {
        self.sector_count
    }

    /// The sectors per track that identification reported.
    fn sectors_per_track(&mut self) -> (r: u16)
        ensures
            r == old(self).sectors_per_track,
            *final(self) == *old(self),
    {
        self.sectors_per_track
    }
}

} // verus!
