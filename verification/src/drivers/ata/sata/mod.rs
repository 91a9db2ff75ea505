//! The AHCI SATA driver's decisions: which ports are usable, how commands are laid out in
//! a port's DMA area, and what an interrupt finishes.
pub mod command;
pub mod fis;
pub mod hba;
pub mod port;
pub mod task;
