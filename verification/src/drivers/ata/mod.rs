pub mod pata;
pub mod sata;
