# mpu6500_driver

A driver for the MPU-6500 accelerometer and gyroscope on an `embedded_hal`
I2C bus, verified with Verus, together with the decisions of the board
programs that use it.

- `src/driver.rs`: the driver. Its contracts speak of a ghost record of every
  bus transaction it issues and what came back, so that identification,
  wake-up, calibration and readings are specified exactly in terms of the
  device's answers.
- `src/calibration.rs`: sample sums, offsets (truncated means, with one g
  added on the accelerometer's Z) and corrected readings.
- `src/decode.rs`: big-endian 16-bit register decoding.
- `src/traffic.rs`, `src/blink.rs`, `src/probe.rs`, `src/thermistor.rs`: the
  state machines and integer logic of the traffic light, the button blinker,
  the bus probes and the thermistor reader.
- `app/`: the embassy programs for the STM32H723 board, which do the I/O and
  the floating point and call the library for everything else.

Bus errors reach the caller as `Error::I2c(kind)`, where `kind` is the
`embedded_hal::i2c::ErrorKind` that the bus's own error reports through
`embedded_hal::i2c::Error::kind`. The driver cannot hand back the bus's own
error type: Verus cannot name the associated `Error` type of the `I2c` trait
without a declaration of embedded-hal's `ErrorType` trait, which this crate
does not make. Errors that a HAL maps to `ErrorKind::Other` (for embassy, a
timeout, a CRC error or a zero-length transfer) all arrive as `Other`.
