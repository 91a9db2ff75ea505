//! Storage devices as the rest of the kernel sees them.
use vstd::prelude::*;
use crate::hal::buffer::Buffer;
use crate::drivers::ata::sata::task::AhciErr;

verus! {

pub const PRIMARY: usize = 0;
pub const SECONDARY: usize = 1;

pub const SECTOR_SIZE: usize = 512;

/// Errors of a device's own I/O path.
#[derive(Debug, Clone, Copy, PartialEq, Eq, Structural)]
pub enum IoErr {
    /// The device is unavailable
    Unavailable,
    /// The device is unimplemented
    Unimplemented,
    /// Sector is out of range
    SectorOutOfRange,
    /// The initialization timed out
    InitTimeout,
    /// The IO process timed out
    IOTimeout,
    /// The cache flush process timed out
    FlushCacheTimeout,
    /// Input buffer is too small
    InputTooSmall,
}

impl IoErr {
    /// The message that describes the error.
    pub fn message(&self) -> (m: &'static str)
        ensures
            *self == IoErr::Unavailable ==> m@ == "The device is unavailable"@,
            *self == IoErr::Unimplemented ==> m@ == "The device is unimplemented"@,
            *self == IoErr::SectorOutOfRange ==> m@ == "Sector is out of range"@,
            *self == IoErr::InitTimeout ==> m@ == "The initialization timed out"@,
            *self == IoErr::IOTimeout ==> m@ == "The IO process timed out"@,
            *self == IoErr::FlushCacheTimeout ==> m@ == "The cache flush process timed out"@,
            *self == IoErr::InputTooSmall ==> m@ == "Input buffer is too small"@,
    {
        match self {
            IoErr::Unavailable => "The device is unavailable",
            IoErr::Unimplemented => "The device is unimplemented",
            IoErr::SectorOutOfRange => "Sector is out of range",
            IoErr::InitTimeout => "The initialization timed out",
            IoErr::IOTimeout => "The IO process timed out",
            IoErr::FlushCacheTimeout => "The cache flush process timed out",
            IoErr::InputTooSmall => "Input buffer is too small",
        }
    }
}

/// The geometry that a device reports.
#[derive(Debug, Clone, Copy, PartialEq, Eq, Structural)]
pub struct HalIdentifyData {
    pub sector_count: u64,
    pub sectors_per_track: u16,
}

/// The position of a device in the device table.
#[derive(Debug, Clone, Copy, PartialEq, Eq, Structural)]
pub struct StorageDeviceIdx(pub usize);

/// Why a storage operation failed.
#[derive(Debug, Clone)]
pub enum HalStorageOperationErr {
    /// Drive didn't respond
    DriveDidntRespond,
    /// Drive responded with an error
    DriveErr(String),
    /// Drive doesn't have enough space
    NoEnoughSpace,
    /// Internal error at a place, with a message
    Internal(u32, u32, String),
}

/// A request to a storage device; the answer goes to the waiter that `cell` names.
#[derive(Debug, Clone, Copy, PartialEq, Eq, Structural)]
pub enum HalStorageOperation {
    Read { buffer: Buffer, lba: i64, cell: u64 },
    Write { buffer: Buffer, lba: i64, cell: u64 },
    Flush { cell: u64 },
    Identify { cell: u64 },
}

/// A block device: a drive that reports its geometry.
pub trait HalBlockDevice {
    /// The number of sectors of the drive.
    fn sector_count(&mut self) -> u64;

    /// The number of sectors per track of the drive.
    fn sectors_per_track(&mut self) -> u16;
}

/// The PCI class code of mass storage controllers.
pub const PCI_CLASS_MASS_STORAGE: u8 = 0x01;
/// The PCI subclass of SATA controllers.
pub const PCI_SUBCLASS_SATA: u8 = 0x06;
/// The PCI programming interface of AHCI controllers.
pub const PCI_PROG_IF_AHCI: u8 = 0x01;

/// A PCI function as the bus scan reports it: its class codes and its address.
#[derive(Debug, Clone, Copy, PartialEq, Eq, Structural)]
pub struct PciFunction {
    pub class: u8,
    pub subclass: u8,
    pub prog_if: u8,
    pub address: u64,
}

/// Whether `f` is an AHCI SATA controller.
pub open spec fn is_ahci(f: PciFunction) -> bool {
    f.class == PCI_CLASS_MASS_STORAGE && f.subclass == PCI_SUBCLASS_SATA && f.prog_if == PCI_PROG_IF_AHCI
}

/// The addresses of the AHCI controllers among `functions`, in order.
pub open spec fn ahci_addresses(functions: Seq<PciFunction>) -> Seq<u64> {
    functions.filter(|f: PciFunction| is_ahci(f)).map_values(|f: PciFunction| f.address)
}

/// How many AHCI controllers the driver takes; one found after that many is skipped.
pub const MAX_AHCI_CONTROLLERS: usize = 8;

/// The first `MAX_AHCI_CONTROLLERS` of `addrs`, or all of them where there are fewer.
pub open spec fn first_controllers(addrs: Seq<u64>) -> Seq<u64> {
    if addrs.len() <= MAX_AHCI_CONTROLLERS {
        addrs
    } else {
        addrs.take(MAX_AHCI_CONTROLLERS as int)
    }
}

/// The controllers that hold storage devices: the addresses of the AHCI SATA controllers
/// among the PCI functions found, in the order found, up to the eighth; one found after
/// eight is skipped.  Each one's drives become storage devices numbered from zero in that
/// order.
pub fn identify_storage_devices(functions: &Vec<PciFunction>) -> (hbas: Vec<u64>)
    ensures
        hbas@ == first_controllers(ahci_addresses(functions@)),
        hbas@.len() <= MAX_AHCI_CONTROLLERS,
{
    let mut hbas: Vec<u64> = Vec::new();
    let mut k: usize = 0;
    while k < functions.len()
        invariant
            k <= functions@.len(),
            hbas@ == first_controllers(ahci_addresses(functions@.take(k as int))),
        decreases functions@.len() - k,
    {
        let f = functions[k];
        let ghost before = functions@.take(k as int).filter(|f: PciFunction| is_ahci(f));
        proof {
            assert(functions@.take(k + 1) =~= functions@.take(k as int).push(f));
            functions@.take(k as int).lemma_filter_push(f, |f: PciFunction| is_ahci(f));
        }
        if f.class == PCI_CLASS_MASS_STORAGE && f.subclass == PCI_SUBCLASS_SATA && f.prog_if == PCI_PROG_IF_AHCI {
            let ghost all = before.map_values(|f: PciFunction| f.address);
            proof {
                assert(before.push(f).map_values(|f: PciFunction| f.address) =~= all.push(f.address));
            }
            if hbas.len() < MAX_AHCI_CONTROLLERS {
                hbas.push(f.address);
                proof {
                    assert(all.len() <= MAX_AHCI_CONTROLLERS);
                    assert(all.push(f.address).len() <= MAX_AHCI_CONTROLLERS ==> first_controllers(all.push(f.address))
                        == all.push(f.address));
                    if all.push(f.address).len() > MAX_AHCI_CONTROLLERS {
                        assert(all.push(f.address).take(MAX_AHCI_CONTROLLERS as int) =~= all.push(f.address));
                    }
                }
            } else {
                proof {
                    if all.len() <= MAX_AHCI_CONTROLLERS {
                        assert(all.len() == MAX_AHCI_CONTROLLERS);
                        assert(all.push(f.address).take(MAX_AHCI_CONTROLLERS as int) =~= all);
                    } else {
                        assert(all.push(f.address).take(MAX_AHCI_CONTROLLERS as int) =~= all.take(
                            MAX_AHCI_CONTROLLERS as int,
                        ));
                    }
                }
            }
        }
        k = k + 1;
    }
    assert(functions@.take(functions@.len() as int) =~= functions@);
    hbas
}

impl HalStorageOperation {
    /// The answer that finishing this operation gives its waiter, by its cell: `Ok` without
    /// an error, else the drive's error as text.  An identification gets no answer here.
    pub fn finish_answer(&self, err: Option<AhciErr>) -> (r: Option<(u64, Result<(), HalStorageOperationErr>)>)
        ensures
            self is Identify ==> r is None,
            !(self is Identify) ==> (r matches Some((c, a)) && c == self.cell() && match err {
                None => a is Ok,
                Some(e) => a matches Err(HalStorageOperationErr::DriveErr(m)) && (e is ATA ==> m@ == "0"@) && (e is Internal
                    ==> m@ == "Internal drive error"@),
            }),
    {
        let cell = match self {
            HalStorageOperation::Read { cell, .. } => *cell,
            HalStorageOperation::Write { cell, .. } => *cell,
            HalStorageOperation::Flush { cell } => *cell,
            HalStorageOperation::Identify { .. } => {
                return None;
            },
        };
        match err {
            Some(e) => Some((cell, Err(HalStorageOperationErr::DriveErr(e.message())))),
            None => Some((cell, Ok(()))),
        }
    }

    /// The waiter of the operation.
    pub open spec fn cell(&self) -> u64 {
        match self {
            HalStorageOperation::Read { cell, .. } => *cell,
            HalStorageOperation::Write { cell, .. } => *cell,
            HalStorageOperation::Flush { cell } => *cell,
            HalStorageOperation::Identify { cell } => *cell,
        }
    }
}

} // verus!
