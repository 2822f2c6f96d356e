[package]
name = "mpu6500_driver"
version = "0.1.0"
edition = "2021"
publish = false

[dependencies]
embedded-hal = "=1.0.0"
libm = "=0.2.16"
embassy-futures = "=0.1.2"
embassy-sync = "=0.8.0"
embassy-time = "=0.5.1"
embassy-executor = "=0.9.1"
embassy-stm32 = { version = "=0.6.0", features = ["stm32h723zg", "time-driver-any", "exti"] }
