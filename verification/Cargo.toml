[package]
name = "process_core"
version = "0.1.0"
edition = "2021"
publish = false

[dependencies]
kernel-elf-parser = "*"
memory_addr = "*"

[dev-dependencies]
xmas-elf = "*"
axerrno = "*"
syscalls = "*"
