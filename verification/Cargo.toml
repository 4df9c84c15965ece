[package]
name = "netprobe"
version = "0.1.0"
edition = "2021"
publish = false

[dependencies]
alloc-cortex-m = "*"
byteorder = "=1.5.0"
cortex-m = "*"
cortex-m-rt = "*"
cortex-m-semihosting = "*"
font8x8 = "*"
managed = "=0.7.2"
smoltcp = "=0.6.0"
stm32f7 = "*"
