use embedded_hal::i2c::{ErrorKind, ErrorType, I2c, NoAcknowledgeSource, Operation};
use mpu6500_driver::driver::{ACCEL_XOUT_H, ADDRESS, GYRO_XOUT_H, PWR_MGMT_1, WHOAMI_REG};
use mpu6500_driver::{Error, Mpu6500};

#[derive(Debug, Clone, Copy, PartialEq)]
struct MockError(ErrorKind);

impl embedded_hal::i2c::Error for MockError {
    fn kind(&self) -> ErrorKind {
        self.0
    }
}

/// A sensor on a simulated bus: answers register reads, records every write,
/// and fails the transaction with index `fail_at`, if any.
struct MockBus {
    whoami: u8,
    accel: [u8; 6],
    gyro: [u8; 6],
    writes: Vec<(u8, Vec<u8>)>,
    transactions: usize,
    fail_at: Option<usize>,
    fail_kind: ErrorKind,
}

impl MockBus {
    fn new(whoami: u8, accel: [u8; 6], gyro: [u8; 6]) -> Self {
        MockBus { whoami, accel, gyro, writes: Vec::new(), transactions: 0, fail_at: None, fail_kind: ErrorKind::NoAcknowledge(NoAcknowledgeSource::Address) }
    }
}

impl ErrorType for MockBus {
    type Error = MockError;
}

impl I2c for MockBus {
    fn transaction(&mut self, address: u8, operations: &mut [Operation<'_>]) -> Result<(), MockError> {
        let index = self.transactions;
        self.transactions += 1;
        if self.fail_at == Some(index) {
            return Err(MockError(self.fail_kind));
        }
        assert_eq!(address, ADDRESS);
        let mut register = 0u8;
        for op in operations.iter_mut() {
            match op {
                Operation::Write(bytes) => {
                    register = bytes[0];
                    self.writes.push((address, bytes.to_vec()));
                }
                Operation::Read(buf) => {
                    let source: Vec<u8> = match register {
                        r if r == WHOAMI_REG => vec![self.whoami],
                        r if r == ACCEL_XOUT_H => self.accel.to_vec(),
                        r if r == GYRO_XOUT_H => self.gyro.to_vec(),
                        _ => vec![0; buf.len()],
                    };
                    buf.copy_from_slice(&source[..buf.len()]);
                }
            }
        }
        Ok(())
    }
}

fn be(v: [i16; 3]) -> [u8; 6] {
    let x = v[0].to_be_bytes();
    let y = v[1].to_be_bytes();
    let z = v[2].to_be_bytes();
    [x[0], x[1], y[0], y[1], z[0], z[1]]
}

#[test]
fn init_accepts_mpu6500_and_wakes_it() {
    let bus = MockBus::new(0x70, [0; 6], [0; 6]);
    let mut sensor = Mpu6500::new(bus);
    assert!(sensor.init().is_ok());
}

#[test]
fn init_rejects_other_device() {
    let bus = MockBus::new(0x71, [0; 6], [0; 6]);
    let mut sensor = Mpu6500::new(bus);
    assert!(matches!(sensor.init(), Err(Error::InvalidDevice)));
}

#[test]
fn init_reports_bus_error_on_identification() {
    let mut bus = MockBus::new(0x70, [0; 6], [0; 6]);
    bus.fail_at = Some(0);
    let mut sensor = Mpu6500::new(bus);
    assert!(matches!(
        sensor.init(),
        Err(Error::I2c(ErrorKind::NoAcknowledge(NoAcknowledgeSource::Address)))
    ));
}

#[test]
fn init_reports_bus_error_on_wake_up() {
    let mut bus = MockBus::new(0x70, [0; 6], [0; 6]);
    bus.fail_at = Some(1);
    let mut sensor = Mpu6500::new(bus);
    assert!(matches!(sensor.init(), Err(Error::I2c(_))));
}

#[test]
fn readings_before_calibration_are_raw() {
    let bus = MockBus::new(0x70, be([100, -200, 16384]), be([-5, 7, 32767]));
    let mut sensor = Mpu6500::new(bus);
    assert_eq!(sensor.read_accel_counts().unwrap(), (100, -200, 16384));
    assert_eq!(sensor.read_gyro_counts().unwrap(), (-5, 7, 32767));
}

#[test]
fn still_sensor_calibrates_to_level() {
    let bus = MockBus::new(0x70, be([120, -340, -16000]), be([13, -7, 2]));
    let mut sensor = Mpu6500::new(bus);
    sensor.init().unwrap();
    sensor.calibrate(1000).unwrap();
    assert_eq!(sensor.offsets().accel_offset(), (120, -340, -16000 + 16384));
    assert_eq!(sensor.offsets().gyro_offset(), (13, -7, 2));
    assert_eq!(sensor.read_gyro_counts().unwrap(), (0, 0, 0));
    assert_eq!(sensor.read_accel_counts().unwrap(), (0, 0, -16384));
}

#[test]
fn calibration_uses_extreme_readings_without_overflow() {
    let bus = MockBus::new(0x70, be([-32768, 32767, -32768]), be([32767, -32768, 0]));
    let mut sensor = Mpu6500::new(bus);
    sensor.calibrate(65536).unwrap();
    assert_eq!(sensor.offsets().accel_offset(), (-32768, 32767, -32768 + 16384));
    assert_eq!(sensor.offsets().gyro_offset(), (32767, -32768, 0));
}

#[test]
fn calibration_with_negative_samples_reads_nothing() {
    let bus = MockBus::new(0x70, be([1000, 1000, 1000]), be([9, 9, 9]));
    let mut sensor = Mpu6500::new(bus);
    sensor.calibrate(-5).unwrap();
    assert_eq!(sensor.offsets().accel_offset(), (0, 0, 16384));
    assert_eq!(sensor.offsets().gyro_offset(), (0, 0, 0));
}

#[test]
fn failed_calibration_keeps_offsets() {
    let mut bus = MockBus::new(0x70, be([10, 20, 30]), be([1, 2, 3]));
    bus.fail_at = Some(5);
    let mut sensor = Mpu6500::new(bus);
    sensor.calibrate(1).unwrap();
    assert_eq!(sensor.offsets().gyro_offset(), (1, 2, 3));
    assert!(matches!(sensor.calibrate(10), Err(Error::I2c(_))));
    assert_eq!(sensor.offsets().accel_offset(), (10, 20, 30 + 16384));
    assert_eq!(sensor.offsets().gyro_offset(), (1, 2, 3));
}

#[test]
fn read_reports_bus_error() {
    let mut bus = MockBus::new(0x70, [0; 6], [0; 6]);
    bus.fail_at = Some(0);
    let mut sensor = Mpu6500::new(bus);
    assert!(matches!(sensor.read_accel_counts(), Err(Error::I2c(ErrorKind::NoAcknowledge(_)))));
    assert_eq!(sensor.read_gyro_counts().unwrap(), (0, 0, 0));
}

#[test]
fn init_writes_wake_up_to_power_register() {
    // The mock records the bytes it is sent; this checks them through a second
    // bus that shares nothing but the recording.
    let mut bus = MockBus::new(0x70, [0; 6], [0; 6]);
    {
        let mut sensor = Mpu6500::new(&mut bus);
        sensor.init().unwrap();
    }
    assert_eq!(bus.writes, vec![(ADDRESS, vec![WHOAMI_REG]), (ADDRESS, vec![PWR_MGMT_1, 0x00])]);
}

#[test]
fn reads_address_their_registers() {
    let mut bus = MockBus::new(0x70, [0; 6], [0; 6]);
    {
        let mut sensor = Mpu6500::new(&mut bus);
        sensor.read_accel_counts().unwrap();
        sensor.read_gyro_counts().unwrap();
        sensor.calibrate(2).unwrap();
    }
    let registers: Vec<u8> = bus.writes.iter().map(|(_, w)| w[0]).collect();
    assert_eq!(
        registers,
        vec![ACCEL_XOUT_H, GYRO_XOUT_H, ACCEL_XOUT_H, GYRO_XOUT_H, ACCEL_XOUT_H, GYRO_XOUT_H]
    );
}

#[test]
fn calibration_on_a_borrowed_bus_hands_offsets_back() {
    let mut bus = MockBus::new(0x70, be([300, -300, -16384]), be([-2, 4, -6]));
    let offsets = {
        let mut sensor = Mpu6500::new(&mut bus);
        sensor.calibrate(1000).unwrap();
        *sensor.offsets()
    };
    assert_eq!(bus.transactions, 2000);
    assert_eq!(offsets.accel_offset(), (300, -300, 0));
    assert_eq!(offsets.gyro_offset(), (-2, 4, -6));
    assert_eq!(offsets.correct_accel((300, -300, -16384)), (0, 0, -16384));
    assert_eq!(offsets.correct_gyro((-2, 4, -6)), (0, 0, 0));
}

#[test]
fn bus_error_kinds_pass_through() {
    let mut bus = MockBus::new(0x70, [0; 6], [0; 6]);
    bus.fail_at = Some(1);
    bus.fail_kind = ErrorKind::Overrun;
    let mut sensor = Mpu6500::new(bus);
    assert!(matches!(sensor.init(), Err(Error::I2c(ErrorKind::Overrun))));

    let mut bus = MockBus::new(0x70, [0; 6], [0; 6]);
    bus.fail_at = Some(3);
    bus.fail_kind = ErrorKind::ArbitrationLoss;
    let mut sensor = Mpu6500::new(bus);
    assert!(matches!(sensor.calibrate(5), Err(Error::I2c(ErrorKind::ArbitrationLoss))));
    assert!(matches!(sensor.read_gyro_counts(), Ok((0, 0, 0))));

    let mut bus = MockBus::new(0x70, [0; 6], [0; 6]);
    bus.fail_at = Some(0);
    bus.fail_kind = ErrorKind::Bus;
    let mut sensor = Mpu6500::new(bus);
    assert!(matches!(sensor.read_gyro_counts(), Err(Error::I2c(ErrorKind::Bus))));
}
