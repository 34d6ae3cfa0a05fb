[package]
name = "simple_hv"
version = "0.1.0"
edition = "2021"
publish = false

[dependencies]
axallocator = "=0.2.0"
axhal = "=0.3.0-preview.3"
axlog = "=0.3.0-preview.3"
axmm = "=0.3.0-preview.3"
axtask = "=0.3.0-preview.3"
buddy_system_allocator = "=0.13.0"
riscv = "=0.16.1"
rlsf = "=0.2.3"
tock-registers = "=0.10.1"
