pub mod ext2;
