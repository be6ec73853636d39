//! Sensor-side logic of a small attitude estimator: gyroscope offset
//! calibration, magnetometer calibration bounds, and the hand-off between the
//! two calibration tasks.
use vstd::prelude::*;

pub mod compass;
pub mod gyro;
pub mod sample_buffer;

verus! {

/// What the gyroscope task tells the magnetometer task once its own
/// calibration is over.
#[derive(Clone, Copy, Debug, PartialEq, Eq, Structural)]
pub enum CalibrationState {
    Start,
    Stop,
}

/// Law: the magnetometer task calibrates exactly when the gyroscope task's
/// calibration succeeded.
pub proof fn lemma_magnetometer_calibrates_iff_gyro_calibrated(result: Result<gyro::Axes16, &'static str>)
    ensures
        (compass::plan_for(gyro::signal_after_calibration(result)) == compass::MagnetometerPlan::Calibrate)
            <==> result is Ok,
{
}

} // verus!
