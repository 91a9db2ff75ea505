pub mod buffer;
pub mod fs;
pub mod gpt;
pub mod path;
pub mod vfs;
pub mod storage;
