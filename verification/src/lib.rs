//! A verified driver for the MPU-6500 accelerometer and gyroscope on an I2C
//! bus, with the decisions of the board programs that go with it.
pub mod blink;
pub mod calibration;
pub mod decode;
pub mod driver;
pub mod probe;
pub mod thermistor;
pub mod traffic;

pub use driver::{Error, Mpu6500};
