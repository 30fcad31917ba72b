[package]
name = "bedside_clock"
version = "0.1.0"
edition = "2021"
publish = false

[dependencies]
cortex-m = "=0.7.10"
cortex-m-rt = "=0.6.15"
defmt = "=0.2.3"
embedded-hal = "=0.2.7"
micromath = "=1.1.1"
mpu6050 = "=0.1.6"
nalgebra = { version = "=0.31.4", default-features = false }
panic-probe = "=0.2.1"
postcard = "=0.7.3"
serde = { version = "=1.0.229", default-features = false, features = ["derive"] }
stm32f4xx-hal = { version = "=0.9.0", features = ["stm32f401", "rt", "sdio"] }
