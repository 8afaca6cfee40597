[package]
name = "uhyve_vm"
version = "0.1.0"
edition = "2021"
publish = false

[dependencies]
byteorder = "1"
chan = "0.1"
chan-signal = "0.3"
elf = "0.0.10"
libc = "0.2"
memmap = "0.7"
nix = "0.11"
