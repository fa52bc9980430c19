[package]
name = "rkernel"
version = "0.1.0"
edition = "2021"
publish = false

[dependencies]
bit_field = "=0.10.3"
x86_64 = { version = "=0.15.5", default-features = false, features = ["instructions"] }
lazy_static = "=1.5.1"
spin = "=0.9.9"
multiboot2 = "=0.23.1"
ps2-mouse = "=0.1.4"
ryu = "=1.0.23"
vga = "=0.2.9"
