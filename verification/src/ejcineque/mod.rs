pub mod executor;
pub mod pools;
pub mod race;
