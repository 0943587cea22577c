[package]
name = "stm32_quad"
version = "0.1.0"
edition = "2021"
publish = false

[dependencies]
hex = "0.4"
serde = { version = "1", default-features = false, features = ["derive"] }
postcard = "1"
heapless = "0.7"
nalgebra = "0.31"
mpu6050 = "0.1"
nb = "1"
embedded-hal = "0.2"
bluetooth-serial-port = "0.6"
