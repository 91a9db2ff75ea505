pub mod drivers;
pub mod ejcineque;
pub mod hal;
pub mod serialize;
pub mod terminal;
pub mod time;
pub mod utils;
