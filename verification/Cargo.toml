[package]
name = "pagefault"
version = "0.1.0"
edition = "2021"
publish = false

[dependencies]
align_ext = "*"
bitflags = "*"
log = "*"
ostd = "*"
owo-colors = "*"
riscv = "*"
spin = "*"
