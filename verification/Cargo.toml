[package]
name = "wos_os_n71"
version = "0.1.0"
edition = "2021"
publish = false

[dependencies]
crossbeam-queue = "*"
pc-keyboard = "*"
conquer-once = { version = "*", default-features = false }
linked_list_allocator = { version = "*", default-features = false }
x86_64 = { version = "*", default-features = false, features = ["instructions"] }
bootloader = { version = "0.9", features = ["map_physical_memory"] }
futures-util = { version = "*", default-features = false, features = ["alloc"] }
