[package]
name = "doubloon"
version = "0.1.0"
edition = "2021"
publish = false

[dependencies]
heapless = "=0.8.0"
lsm303agr = { version = "=1.1.0", features = ["async"] }
i3g4250d = "=0.3.0"
nalgebra = { version = "=0.35.0", default-features = false }
fusion-ahrs = "=1.0.1"
embassy-stm32 = { version = "=0.6.0", features = ["stm32f303vc", "time-driver-any"] }
embassy-executor = "=0.9.1"
embassy-sync = "=0.8.0"
embassy-time = "=0.5.1"
embassy-embedded-hal = "=0.6.0"
defmt = "=1.2.0"
defmt-rtt = "=1.3.1"
panic-probe = "=1.0.0"
panic-halt = "=1.0.0"
static_cell = "=2.1.1"
