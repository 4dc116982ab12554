[package]
name = "kernel_kit"
version = "0.1.0"
edition = "2021"
publish = false

[dependencies]
smoltcp = "0.12"
hashbrown = "*"
num-align = "*"
spin = "*"
thiserror = "2"
log = "0.4"
buddy_system_allocator = "*"
tock-registers = "*"
