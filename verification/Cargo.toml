[package]
name = "oxy_kernel"
version = "0.1.0"
edition = "2021"
publish = false

[dependencies]
x86_64 = { version = "0.14", default-features = false, features = ["instructions"] }
bootloader_api = "0.11"
linked_list_allocator = "0.10"
log = "0.4"
thiserror = "1"
clap = { version = "4", features = ["derive"] }
