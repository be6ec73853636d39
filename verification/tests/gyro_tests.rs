use doubloon::gyro::{
    apply_gyro_offsets, calibration_signal, offsets_fit, get_spi_error_text, Axes16, GyroCalibration, SpiError,
    CAL_SAMPLE_SIZE,
};
use doubloon::CalibrationState;

fn axes(x: i16, y: i16, z: i16) -> Axes16 {
    Axes16 { x, y, z }
}

#[test]
fn spi_error_texts() {
    assert_eq!(get_spi_error_text(&SpiError::Framing), "SPI invalid framing");
    assert_eq!(get_spi_error_text(&SpiError::Crc), "SPI CRC check error. Is CRC even enabled?");
    assert_eq!(get_spi_error_text(&SpiError::ModeFault), "SPI mode faulty");
    assert_eq!(get_spi_error_text(&SpiError::Overrun), "SPI overrun");
}

#[test]
fn new_calibration_is_empty_with_zero_offsets() {
    let cal = GyroCalibration::new();
    assert_eq!(cal.recorded(), 0);
    assert!(!cal.is_complete());
    assert_eq!(cal.offsets(), axes(0, 0, 0));
}

#[test]
fn steady_gyro_calibrates_to_its_reading_and_corrects_to_zero() {
    let steady = axes(-12, 37, 5);
    let mut cal = GyroCalibration::new();
    while !cal.is_complete() {
        assert_eq!(cal.calibration_step(&Ok(steady)), Ok(()));
    }
    assert_eq!(cal.recorded(), CAL_SAMPLE_SIZE);
    let offsets = cal.offsets();
    assert_eq!(offsets, steady);
    assert_eq!(apply_gyro_offsets(&steady, &offsets), axes(0, 0, 0));
}

#[test]
fn offsets_divide_by_full_sample_size_rounding_toward_zero() {
    let mut cal = GyroCalibration::new();
    cal.record_sample(&axes(1500, -1500, 999));
    // 1500 / 1000 -> 1, -1500 / 1000 -> -1 (toward zero), 999 / 1000 -> 0
    assert_eq!(cal.offsets(), axes(1, -1, 0));
    cal.record_sample(&axes(600, -600, 1));
    // 2100 / 1000 -> 2, -2100 / 1000 -> -2, 1000 / 1000 -> 1
    assert_eq!(cal.offsets(), axes(2, -2, 1));
    assert_eq!(cal.recorded(), 2);
}

#[test]
fn extreme_readings_do_not_overflow() {
    let mut cal = GyroCalibration::new();
    for _ in 0..CAL_SAMPLE_SIZE {
        cal.record_sample(&axes(i16::MIN, i16::MAX, -1));
    }
    assert!(cal.is_complete());
    assert_eq!(cal.offsets(), axes(i16::MIN, i16::MAX, -1));
}

#[test]
fn mixed_readings_average() {
    let mut cal = GyroCalibration::new();
    for i in 0..CAL_SAMPLE_SIZE {
        let v: i16 = if i % 2 == 0 { 10 } else { 3 };
        cal.record_sample(&axes(v, -v, 0));
    }
    // sum 6500 -> 6; -6500 -> -6
    assert_eq!(cal.offsets(), axes(6, -6, 0));
}

#[test]
fn failed_read_aborts_calibration_and_records_nothing() {
    let mut cal = GyroCalibration::new();
    assert_eq!(cal.calibration_step(&Ok(axes(4000, 0, 0))), Ok(()));
    let r = cal.calibration_step(&Err(SpiError::Overrun));
    assert_eq!(r, Err("ERROR while calibrating gyro! Could not read gyro data."));
    assert_eq!(cal.recorded(), 1);
    assert_eq!(cal.offsets(), axes(4, 0, 0));
}

#[test]
fn signal_follows_calibration_outcome() {
    assert_eq!(calibration_signal(&Ok(axes(1, 2, 3))), CalibrationState::Start);
    assert_eq!(calibration_signal(&Err("ERROR while calibrating gyro! Could not read gyro data.")), CalibrationState::Stop);
}

#[test]
fn offsets_are_subtracted_axis_by_axis() {
    assert_eq!(apply_gyro_offsets(&axes(100, -50, 7), &axes(3, -4, 7)), axes(97, -46, 0));
    assert_eq!(apply_gyro_offsets(&axes(i16::MIN, i16::MAX, 0), &axes(0, 0, i16::MIN + 1)), axes(i16::MIN, i16::MAX, i16::MAX));
}

#[test]
fn offsets_fit_detects_i16_overflow() {
    assert!(offsets_fit(&axes(100, -50, 7), &axes(3, -4, 7)));
    assert!(!offsets_fit(&axes(i16::MIN, 0, 0), &axes(1, 0, 0)));
    assert!(!offsets_fit(&axes(0, i16::MAX, 0), &axes(0, -1, 0)));
    assert!(offsets_fit(&axes(0, 0, -1), &axes(0, 0, i16::MAX)));
    assert!(!offsets_fit(&axes(0, 0, 0), &axes(0, 0, i16::MIN)));
}
