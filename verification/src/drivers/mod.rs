pub mod ata;
pub mod fs;
