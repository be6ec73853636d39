//! The magnetometer: calibration over a series of samples, and the texts of
//! the driver's errors.
use vstd::prelude::*;

use crate::sample_buffer::{buffer_slice, empty_buffer, held_samples, push_sample};
use crate::CalibrationState;

verus! {

/// Number of readings the magnetometer calibration takes, and the capacity of
/// each axis' sample buffer.
pub const NUM_SAMPLES: usize = 1000;

/// The errors of the magnetometer/accelerometer driver.
#[derive(Clone, Copy, Debug, PartialEq, Eq, Structural)]
pub enum Lsm303agrError {
    /// I2C communication error.
    Comm,
    /// Invalid input data provided.
    InvalidInputData,
}

/// The message logged for each driver error.
pub open spec fn lsm303agr_error_message(err: Lsm303agrError) -> Seq<char> {
    match err {
        Lsm303agrError::Comm => "I2C communication error."@,
        Lsm303agrError::InvalidInputData => "Invalid input data."@,
    }
}

/// Human-readable text of a driver error.
pub fn get_lsm303agr_error_text(err: &Lsm303agrError) -> (text: &'static str)
    ensures
        text@ == lsm303agr_error_message(*err),
        *err == Lsm303agrError::Comm ==> text@ == "I2C communication error."@,
        *err == Lsm303agrError::InvalidInputData ==> text@ == "Invalid input data."@,
{
    match err {
        Lsm303agrError::Comm => "I2C communication error.",
        Lsm303agrError::InvalidInputData => "Invalid input data.",
    }
}

/// One magnetometer reading, in nanotesla per axis.
#[derive(Clone, Copy, Debug, PartialEq, Eq, Structural)]
pub struct MagSample {
    pub x_nt: i32,
    pub y_nt: i32,
    pub z_nt: i32,
}

/// The least and the greatest sample of one axis.
#[derive(Clone, Copy, Debug, PartialEq, Eq, Structural)]
pub struct AxisBounds {
    pub min: i32,
    pub max: i32,
}

/// The bounds of the three axes.
#[derive(Clone, Copy, Debug, PartialEq, Eq, Structural)]
pub struct MagBounds {
    pub x: AxisBounds,
    pub y: AxisBounds,
    pub z: AxisBounds,
}

/// `m` is a sample of `s` and no sample of `s` is below it.
pub open spec fn is_least(s: Seq<i32>, m: i32) -> bool {
    &&& s.contains(m)
    &&& forall|i: int| 0 <= i < s.len() ==> m <= #[trigger] s[i]
}

/// `m` is a sample of `s` and no sample of `s` is above it.
pub open spec fn is_greatest(s: Seq<i32>, m: i32) -> bool {
    &&& s.contains(m)
    &&& forall|i: int| 0 <= i < s.len() ==> #[trigger] s[i] <= m
}

/// `b` holds the least and the greatest sample of `s`.
pub open spec fn bounds_of(s: Seq<i32>, b: AxisBounds) -> bool {
    is_least(s, b.min) && is_greatest(s, b.max)
}

/// Law: on every axis the least sample never exceeds the greatest.
pub proof fn lemma_bounds_ordered(samples: Seq<i32>, bounds: AxisBounds)
    requires
        bounds_of(samples, bounds),
    ensures
        bounds.min <= bounds.max,
{
    let k = choose|k: int| 0 <= k < samples.len() && samples[k] == bounds.min;
    assert(samples[k] <= bounds.max);
}

/// The least and the greatest of `samples`, or `None` when there is none.
pub fn axis_bounds(samples: &[i32]) -> (b: Option<AxisBounds>)
    ensures
        b is None <==> samples@.len() == 0,
        b matches Some(bounds) ==> bounds_of(samples@, bounds),
{
    if samples.len() == 0 {
        return None;
    }
    let mut min = samples[0];
    let mut max = samples[0];
    let mut i: usize = 1;
    assert(samples@.take(1)[0] == min);
    while i < samples.len()
        invariant
            1 <= i <= samples@.len(),
            bounds_of(samples@.take(i as int), AxisBounds { min, max }),
        decreases samples@.len() - i,
    {
        let v = samples[i];
        let ghost prefix = samples@.take(i as int);
        assert(samples@.take(i + 1) =~= prefix.push(v));
        if v < min {
            min = v;
        }
        if v > max {
            max = v;
        }
        proof {
            let next = samples@.take(i + 1);
            assert(next[i as int] == v);
            assert forall|j: int| 0 <= j < next.len() implies min <= #[trigger] next[j] && next[j] <= max by {
                if j < i {
                    assert(next[j] == prefix[j]);
                }
            }
            if min == v {
                assert(next.contains(min));
            } else {
                let k = choose|k: int| 0 <= k < prefix.len() && prefix[k] == min;
                assert(next[k] == min);
            }
            if max == v {
                assert(next.contains(max));
            } else {
                let k = choose|k: int| 0 <= k < prefix.len() && prefix[k] == max;
                assert(next[k] == max);
            }
        }
        i = i + 1;
    }
    assert(samples@.take(samples@.len() as int) =~= samples@);
    Some(AxisBounds { min, max })
}


/// What one read of the magnetometer during calibration came to.
#[derive(Clone, Copy, Debug, PartialEq, Eq)]
pub enum CalibrationNote {
    /// The reading was taken; each flag says whether that axis' buffer had
    /// room for it.
    Recorded { x_pushed: bool, y_pushed: bool, z_pushed: bool },
    /// The read failed, with the text of the driver's error.
    ReadFailed(&'static str),
}

/// `samples` after an attempt to add `value` to a buffer of capacity
/// `NUM_SAMPLES`.
pub open spec fn after_push(samples: Seq<i32>, value: i32) -> Seq<i32> {
    if samples.len() < NUM_SAMPLES {
        samples.push(value)
    } else {
        samples
    }
}

/// The samples of a magnetometer calibration, one buffer per axis.
pub struct MagCalibration {
    x: heapless::Vec<i32, 1000>,
    y: heapless::Vec<i32, 1000>,
    z: heapless::Vec<i32, 1000>,
}

impl MagCalibration {
    /// The X samples recorded so far, oldest first.
    pub closed spec fn x_samples(&self) -> Seq<i32> {
        held_samples(self.x)
    }

    /// The Y samples recorded so far, oldest first.
    pub closed spec fn y_samples(&self) -> Seq<i32> {
        held_samples(self.y)
    }

    /// The Z samples recorded so far, oldest first.
    pub closed spec fn z_samples(&self) -> Seq<i32> {
        held_samples(self.z)
    }

    /// The three buffers hold as many samples, at most `NUM_SAMPLES`.
    pub open spec fn wf(&self) -> bool {
        &&& self.x_samples().len() <= NUM_SAMPLES
        &&& self.y_samples().len() == self.x_samples().len()
        &&& self.z_samples().len() == self.x_samples().len()
    }

    /// A calibration with no samples yet.
    pub fn new() -> (cal: Self)
        ensures
            cal.wf(),
            cal.x_samples() == Seq::<i32>::empty(),
            cal.y_samples() == Seq::<i32>::empty(),
            cal.z_samples() == Seq::<i32>::empty(),
    {
        MagCalibration { x: empty_buffer(), y: empty_buffer(), z: empty_buffer() }
    }

    /// Handles the outcome of one read of the magnetometer during
    /// calibration: a reading goes, axis by axis, into the buffers that have
    /// room for it; a failed read changes nothing and yields the text of its
    /// error.
    pub fn record(&mut self, reading: &Result<MagSample, Lsm303agrError>) -> (note: CalibrationNote)
        requires
            old(self).wf(),
        ensures
            final(self).wf(),
            match *reading {
                Ok(sample) => {
                    &&& note == (CalibrationNote::Recorded {
                        x_pushed: old(self).x_samples().len() < NUM_SAMPLES,
                        y_pushed: old(self).y_samples().len() < NUM_SAMPLES,
                        z_pushed: old(self).z_samples().len() < NUM_SAMPLES,
                    })
                    &&& final(self).x_samples() == after_push(old(self).x_samples(), sample.x_nt)
                    &&& final(self).y_samples() == after_push(old(self).y_samples(), sample.y_nt)
                    &&& final(self).z_samples() == after_push(old(self).z_samples(), sample.z_nt)
                },
                Err(err) => {
                    &&& note matches CalibrationNote::ReadFailed(text) && text@
                        == lsm303agr_error_message(err)
                    &&& final(self).x_samples() == old(self).x_samples()
                    &&& final(self).y_samples() == old(self).y_samples()
                    &&& final(self).z_samples() == old(self).z_samples()
                },
            },
    {
        match reading {
            Ok(sample) => {
                let x_pushed = push_sample(&mut self.x, sample.x_nt).is_ok();
                let y_pushed = push_sample(&mut self.y, sample.y_nt).is_ok();
                let z_pushed = push_sample(&mut self.z, sample.z_nt).is_ok();
                CalibrationNote::Recorded { x_pushed, y_pushed, z_pushed }
            },
            Err(err) => CalibrationNote::ReadFailed(get_lsm303agr_error_text(err)),
        }
    }

    /// The least and the greatest sample of each axis, or `None` while no
    /// sample has been recorded.
    pub fn bounds(&self) -> (b: Option<MagBounds>)
        requires
            self.wf(),
        ensures
            b is None <==> self.x_samples().len() == 0,
            b matches Some(bounds) ==> {
                &&& bounds_of(self.x_samples(), bounds.x)
                &&& bounds_of(self.y_samples(), bounds.y)
                &&& bounds_of(self.z_samples(), bounds.z)
            },
    {
        let x = axis_bounds(buffer_slice(&self.x));
        let y = axis_bounds(buffer_slice(&self.y));
        let z = axis_bounds(buffer_slice(&self.z));
        match (x, y, z) {
            (Some(x), Some(y), Some(z)) => Some(MagBounds { x, y, z }),
            _ => None,
        }
    }
}

/// The values on one axis that a series of reads delivered, in order, the
/// failed reads left out.
pub open spec fn delivered(
    readings: Seq<Result<MagSample, Lsm303agrError>>,
    axis: spec_fn(MagSample) -> i32,
) -> Seq<i32>
    decreases readings.len(),
{
    if readings.len() == 0 {
        Seq::empty()
    } else {
        let before = delivered(readings.drop_last(), axis);
        match readings.last() {
            Ok(sample) => before.push(axis(sample)),
            Err(_) => before,
        }
    }
}

/// What one axis' buffer holds after `record` has been called on each of
/// `readings` in turn, starting from `samples`.
pub open spec fn recorded_after(
    samples: Seq<i32>,
    readings: Seq<Result<MagSample, Lsm303agrError>>,
    axis: spec_fn(MagSample) -> i32,
) -> Seq<i32>
    decreases readings.len(),
{
    if readings.len() == 0 {
        samples
    } else {
        let before = recorded_after(samples, readings.drop_last(), axis);
        match readings.last() {
            Ok(sample) => after_push(before, axis(sample)),
            Err(_) => before,
        }
    }
}

/// Law: a series of reads no longer than the room left in the buffers loses
/// no reading: afterwards a buffer holds what it held before, followed by the
/// delivered readings in the order they came.
pub proof fn lemma_calibration_keeps_every_reading(
    samples: Seq<i32>,
    readings: Seq<Result<MagSample, Lsm303agrError>>,
    axis: spec_fn(MagSample) -> i32,
)
    requires
        samples.len() + readings.len() <= NUM_SAMPLES,
    ensures
        recorded_after(samples, readings, axis) == samples + delivered(readings, axis),
    decreases readings.len(),
{
    if readings.len() > 0 {
        let rest = readings.drop_last();
        lemma_calibration_keeps_every_reading(samples, rest, axis);
        lemma_delivered_len(rest, axis);
        match readings.last() {
            Ok(sample) => {
                assert(samples + delivered(rest, axis).push(axis(sample)) =~= (samples + delivered(rest, axis)).push(axis(sample)));
            },
            Err(_) => {},
        }
    }
}

proof fn lemma_delivered_len(readings: Seq<Result<MagSample, Lsm303agrError>>, axis: spec_fn(MagSample) -> i32)
    ensures
        delivered(readings, axis).len() <= readings.len(),
    decreases readings.len(),
{
    if readings.len() > 0 {
        lemma_delivered_len(readings.drop_last(), axis);
    }
}

/// How the magnetometer task sets out once the gyroscope task has signalled.
#[derive(Clone, Copy, Debug, PartialEq, Eq, Structural)]
pub enum MagnetometerPlan {
    /// Take calibration samples first.
    Calibrate,
    /// Report that calibration was not started, and go on without correction.
    Uncalibrated,
}

/// The plan for a signal: calibrate on `Start`, go without on `Stop`.
pub open spec fn plan_for(state: CalibrationState) -> MagnetometerPlan {
    match state {
        CalibrationState::Start => MagnetometerPlan::Calibrate,
        CalibrationState::Stop => MagnetometerPlan::Uncalibrated,
    }
}

/// How the magnetometer task sets out for the signal it received.
pub fn magnetometer_plan(state: &CalibrationState) -> (plan: MagnetometerPlan)
    ensures
        plan == plan_for(*state),
        (plan == MagnetometerPlan::Calibrate) <==> *state == CalibrationState::Start,
        (plan == MagnetometerPlan::Uncalibrated) <==> *state == CalibrationState::Stop,
{
    match state {
        CalibrationState::Start => MagnetometerPlan::Calibrate,
        CalibrationState::Stop => MagnetometerPlan::Uncalibrated,
    }
}

} // verus!
