use mpu6500_driver::blink::{after_event, blink_delay_ms, toggled_speed, LoopEvent};
use mpu6500_driver::calibration::{div_toward_zero, Calibration, SampleSums, MAX_SAMPLES};
use mpu6500_driver::decode::{decode_be_i16, decode_triple};
use mpu6500_driver::probe::{identity_confirmed, WhoamiTally, SCAN_END, SCAN_FIRST};
use mpu6500_driver::thermistor::{mean_reading, reading_in_range, ADC_MAX};
use mpu6500_driver::traffic::{step, LampAction, State};

#[test]
fn decode_matches_from_be_bytes_everywhere() {
    for hi in 0..=255u8 {
        for lo in 0..=255u8 {
            assert_eq!(decode_be_i16(hi, lo), i16::from_be_bytes([hi, lo]));
        }
    }
}

#[test]
fn decode_triple_reads_x_y_z() {
    assert_eq!(decode_triple(&[0x40, 0x00, 0xC0, 0x00, 0x7F, 0xFF]), (16384, -16384, 32767));
    assert_eq!(decode_triple(&[0x80, 0x00, 0xFF, 0xFF, 0x00, 0x01]), (-32768, -1, 1));
}

#[test]
fn division_rounds_toward_zero() {
    for x in [-7i32, -6, -1, 0, 1, 6, 7, i32::MIN, i32::MAX] {
        for d in [-3i32, -2, -1, 1, 2, 3, 1000] {
            if x == i32::MIN && d == -1 {
                continue;
            }
            assert_eq!(div_toward_zero(x, d), x / d);
        }
    }
    assert_eq!(div_toward_zero(-3, 2), -1);
}

#[test]
fn sums_and_offsets() {
    let mut sums = SampleSums::new();
    sums.add((1, -2, 3), (-4, 5, -6));
    sums.add((2, -3, 4), (-5, 6, -8));
    assert_eq!(sums.count(), 2);
    let c = sums.offsets(2);
    // (1+2)/2 = 1, (-2-3)/2 = -2 (toward zero), (3+4)/2 + 16384
    assert_eq!(c.accel_offset(), (1, -2, 3 + 16384));
    assert_eq!(c.gyro_offset(), (-4, 5, -7));
    assert_eq!(c.correct_accel((1, 1, 1)), (0, 3, 1 - 16387));
    assert_eq!(c.correct_gyro((-4, 5, -7)), (0, 0, 0));
    assert_eq!(MAX_SAMPLES, 65536);
}

#[test]
fn zero_calibration_corrects_nothing() {
    let c = Calibration::zero();
    assert_eq!(c.correct_accel((-32768, 0, 32767)), (-32768, 0, 32767));
    assert_eq!(c.correct_gyro((5, -5, 0)), (5, -5, 0));
}

#[test]
fn traffic_light_cycles_through_four_phases() {
    let mut s = State::Green;
    let mut actions = Vec::new();
    for _ in 0..8 {
        let (action, next) = step(s);
        actions.push(action);
        s = next;
    }
    assert_eq!(s, State::Green);
    assert_eq!(
        &actions[..4],
        &[LampAction::GreenOn, LampAction::YellowOn, LampAction::RedOn, LampAction::AllOff]
    );
    assert_eq!(&actions[..4], &actions[4..]);
}

#[test]
fn blinker_counts_only_elapsed_periods() {
    assert_eq!(blink_delay_ms(true), 300);
    assert_eq!(blink_delay_ms(false), 1000);
    assert!(toggled_speed(false));
    assert!(!toggled_speed(toggled_speed(false)));
    let events = [
        LoopEvent::DelayElapsed,
        LoopEvent::ButtonPressed,
        LoopEvent::DelayElapsed,
        LoopEvent::DelayElapsed,
        LoopEvent::ButtonPressed,
    ];
    let (mut led, mut counter) = (false, 0u32);
    for e in events {
        let (l, c) = after_event(led, counter, e);
        led = l;
        counter = c;
    }
    assert_eq!(counter, 3);
    assert!(led);
}

#[test]
fn tally_counts_confirmations_and_errors() {
    let mut t = WhoamiTally::new();
    let ok: Result<(), ()> = Ok(());
    let err: Result<(), ()> = Err(());
    t.record(&ok, 0x70);
    t.record(&ok, 0x71);
    t.record(&err, 0x70);
    t.record(&ok, 0x70);
    assert_eq!(t, WhoamiTally { success: 2, errors: 2 });
    assert!(identity_confirmed(&ok, 0x70));
    assert!(!identity_confirmed(&err, 0x70));
    assert_eq!((SCAN_FIRST, SCAN_END), (0x08, 0x78));
}

#[test]
fn thermistor_mean_and_range() {
    assert_eq!(mean_reading(&[10, 20, 30, 40, 50, 60, 70, 80, 90, 105]), 55);
    assert_eq!(mean_reading(&[65535; 10]), 65535);
    assert_eq!(mean_reading(&[7]), 7);
    assert!(!reading_in_range(0));
    assert!(!reading_in_range(ADC_MAX));
    assert!(reading_in_range(1));
    assert!(reading_in_range(32768));
}
