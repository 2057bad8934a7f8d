[package]
name = "axplat_riscv64_common"
version = "0.1.0"
edition = "2021"
publish = false

[dependencies]
axcpu = "*"
axplat = { version = "*", features = ["irq"] }
kspin = "*"
lazyinit = "*"
log = "*"
ns16550a = "*"
plic = "*"
riscv = "*"
riscv_goldfish = "*"
sbi-rt = "*"
uart_16550 = "*"
