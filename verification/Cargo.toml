[package]
name = "dvida_kernel"
version = "0.1.0"
edition = "2021"
publish = false

[dependencies]
x86_64 = { version = "=0.15.5", default-features = false, features = ["instructions"] }
spin = "=0.9.9"
thiserror = "=2.0.21"
linked_list_allocator = "=0.10.6"
