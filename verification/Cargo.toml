[package]
name = "coroutine_os"
version = "0.1.0"
edition = "2021"
publish = false

[dependencies]
bit_field = "0.10"
xmas-elf = "0.7"
spin = "0.7"
lazy_static = { version = "1.4", features = ["spin_no_std"] }
bitflags = "1.2"
woke = "*"
futures = { version = "0.3", default-features = false, features = ["alloc"] }
buddy_system_allocator = "*"
riscv = "*"
