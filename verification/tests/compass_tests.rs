use doubloon::compass::{
    axis_bounds, get_lsm303agr_error_text, magnetometer_plan, AxisBounds, CalibrationNote,
    Lsm303agrError, MagCalibration, MagSample, MagnetometerPlan, NUM_SAMPLES,
};
use doubloon::gyro::{calibration_signal, Axes16};
use doubloon::CalibrationState;

fn sample(x_nt: i32, y_nt: i32, z_nt: i32) -> MagSample {
    MagSample { x_nt, y_nt, z_nt }
}

#[test]
fn lsm303agr_error_texts() {
    assert_eq!(get_lsm303agr_error_text(&Lsm303agrError::Comm), "I2C communication error.");
    assert_eq!(get_lsm303agr_error_text(&Lsm303agrError::InvalidInputData), "Invalid input data.");
}

#[test]
fn axis_bounds_of_slices() {
    assert_eq!(axis_bounds(&[]), None);
    assert_eq!(axis_bounds(&[7]), Some(AxisBounds { min: 7, max: 7 }));
    assert_eq!(axis_bounds(&[3, -9, 12, 0, 12, -9]), Some(AxisBounds { min: -9, max: 12 }));
    assert_eq!(axis_bounds(&[i32::MAX, i32::MIN]), Some(AxisBounds { min: i32::MIN, max: i32::MAX }));
}

#[test]
fn bounds_need_a_sample() {
    let cal = MagCalibration::new();
    assert_eq!(cal.bounds(), None);
}

#[test]
fn recorded_readings_give_bounds() {
    let mut cal = MagCalibration::new();
    let all = CalibrationNote::Recorded { x_pushed: true, y_pushed: true, z_pushed: true };
    assert_eq!(cal.record(&Ok(sample(20_000, -5_000, 41_000))), all);
    assert_eq!(cal.record(&Ok(sample(-18_000, 6_000, 39_500))), all);
    assert_eq!(cal.record(&Ok(sample(1_000, 250, 40_000))), all);
    let b = cal.bounds().unwrap();
    assert_eq!(b.x, AxisBounds { min: -18_000, max: 20_000 });
    assert_eq!(b.y, AxisBounds { min: -5_000, max: 6_000 });
    assert_eq!(b.z, AxisBounds { min: 39_500, max: 41_000 });
}

#[test]
fn failed_read_is_reported_and_changes_nothing() {
    let mut cal = MagCalibration::new();
    assert_eq!(
        cal.record(&Err(Lsm303agrError::Comm)),
        CalibrationNote::ReadFailed("I2C communication error.")
    );
    assert_eq!(cal.bounds(), None);
    cal.record(&Ok(sample(1, 2, 3)));
    assert_eq!(
        cal.record(&Err(Lsm303agrError::InvalidInputData)),
        CalibrationNote::ReadFailed("Invalid input data.")
    );
    let b = cal.bounds().unwrap();
    assert_eq!(b.x, AxisBounds { min: 1, max: 1 });
}

#[test]
fn full_run_keeps_every_reading_and_refuses_one_more() {
    let mut cal = MagCalibration::new();
    for i in 0..NUM_SAMPLES {
        let v = i as i32;
        let note = cal.record(&Ok(sample(v, -v, v * 2)));
        assert_eq!(note, CalibrationNote::Recorded { x_pushed: true, y_pushed: true, z_pushed: true });
    }
    let note = cal.record(&Ok(sample(5_000, -5_000, 5_000)));
    assert_eq!(note, CalibrationNote::Recorded { x_pushed: false, y_pushed: false, z_pushed: false });
    let b = cal.bounds().unwrap();
    assert_eq!(b.x, AxisBounds { min: 0, max: 999 });
    assert_eq!(b.y, AxisBounds { min: -999, max: 0 });
    assert_eq!(b.z, AxisBounds { min: 0, max: 1998 });
}

#[test]
fn plan_follows_signal() {
    assert_eq!(magnetometer_plan(&CalibrationState::Start), MagnetometerPlan::Calibrate);
    assert_eq!(magnetometer_plan(&CalibrationState::Stop), MagnetometerPlan::Uncalibrated);
}

#[test]
fn magnetometer_calibrates_only_after_gyro_calibration_succeeds() {
    let ok: Result<Axes16, &'static str> = Ok(Axes16 { x: 0, y: 0, z: 0 });
    let failed: Result<Axes16, &'static str> = Err("ERROR while calibrating gyro! Could not read gyro data.");
    assert_eq!(magnetometer_plan(&calibration_signal(&ok)), MagnetometerPlan::Calibrate);
    assert_eq!(magnetometer_plan(&calibration_signal(&failed)), MagnetometerPlan::Uncalibrated);
}
