//! The gyroscope: offset calibration and the correction of raw readings.
use vstd::prelude::*;

use crate::CalibrationState;

verus! {

/// The errors of the SPI bus that the gyroscope sits on.
#[derive(Clone, Copy, Debug, PartialEq, Eq, Structural)]
pub enum SpiError {
    Framing,
    Crc,
    ModeFault,
    Overrun,
}

/// The message logged for each SPI error.
pub open spec fn spi_error_message(err: SpiError) -> Seq<char> {
    match err {
        SpiError::Framing => "SPI invalid framing"@,
        SpiError::Crc => "SPI CRC check error. Is CRC even enabled?"@,
        SpiError::ModeFault => "SPI mode faulty"@,
        SpiError::Overrun => "SPI overrun"@,
    }
}

/// Human-readable text of an SPI error.
pub fn get_spi_error_text(err: &SpiError) -> (text: &'static str)
    ensures
        text@ == spi_error_message(*err),
        *err == SpiError::Framing ==> text@ == "SPI invalid framing"@,
        *err == SpiError::Crc ==> text@ == "SPI CRC check error. Is CRC even enabled?"@,
        *err == SpiError::ModeFault ==> text@ == "SPI mode faulty"@,
        *err == SpiError::Overrun ==> text@ == "SPI overrun"@,
{
    match err {
        SpiError::Framing => "SPI invalid framing",
        SpiError::Crc => "SPI CRC check error. Is CRC even enabled?",
        SpiError::ModeFault => "SPI mode faulty",
        SpiError::Overrun => "SPI overrun",
    }
}


/// Number of readings the gyroscope calibration averages.
pub const CAL_SAMPLE_SIZE: u32 = 1000;

/// One reading of the three gyroscope axes, in raw sensor units.
#[derive(Clone, Copy, Debug, PartialEq, Eq, Structural)]
pub struct Axes16 {
    pub x: i16,
    pub y: i16,
    pub z: i16,
}

/// One axis of a reading.
pub enum Axis {
    X,
    Y,
    Z,
}

/// The value of `reading` on `axis`.
pub open spec fn component(reading: Axes16, axis: Axis) -> int {
    match axis {
        Axis::X => reading.x as int,
        Axis::Y => reading.y as int,
        Axis::Z => reading.z as int,
    }
}

/// The sum of the readings of `samples` on `axis`.
pub open spec fn axis_sum(samples: Seq<Axes16>, axis: Axis) -> int
    decreases samples.len(),
{
    if samples.len() == 0 {
        0
    } else {
        axis_sum(samples.drop_last(), axis) + component(samples.last(), axis)
    }
}

/// `sum / count`, rounded toward zero as Rust's integer division rounds.
pub open spec fn truncated_div(sum: int, count: int) -> int {
    if sum >= 0 {
        sum / count
    } else {
        -((-sum) / count)
    }
}

/// The offset that the calibration computes on `axis` from `samples`: the sum
/// of their readings divided by the full sample size, rounded toward zero.
pub open spec fn axis_offset(samples: Seq<Axes16>, axis: Axis) -> int {
    truncated_div(axis_sum(samples, axis), CAL_SAMPLE_SIZE as int)
}

/// The message of a calibration that a failed read cut short.
pub open spec fn calibration_failure_message() -> Seq<char> {
    "ERROR while calibrating gyro! Could not read gyro data."@
}

proof fn lemma_axis_sum_bounds(samples: Seq<Axes16>, axis: Axis)
    ensures
        -32768 * samples.len() <= axis_sum(samples, axis) <= 32767 * samples.len(),
    decreases samples.len(),
{
    if samples.len() > 0 {
        lemma_axis_sum_bounds(samples.drop_last(), axis);
    }
}

proof fn lemma_truncated_div_fits_i16(sum: int, count: int)
    requires
        count == CAL_SAMPLE_SIZE,
        -32768 * count <= sum <= 32767 * count,
    ensures
        -32768 <= truncated_div(sum, count) <= 32767,
{
    if sum >= 0 {
        assert(sum / count <= 32767) by (nonlinear_arith)
            requires
                0 <= sum <= 32767 * count,
                count > 0,
        ;
    } else {
        assert((-sum) / count <= 32768) by (nonlinear_arith)
            requires
                0 <= -sum <= 32768 * count,
                count > 0,
        ;
    }
}

/// Running state of the gyroscope calibration: the sums of the readings taken
/// so far and the offsets computed from them.
pub struct GyroCalibration {
    x_sum: i32,
    y_sum: i32,
    z_sum: i32,
    average: Axes16,
    count: u32,
    samples: Ghost<Seq<Axes16>>,
}

impl GyroCalibration {
    /// The readings recorded so far, oldest first.
    pub closed spec fn samples(&self) -> Seq<Axes16> {
        self.samples@
    }

    /// The state is consistent with the readings it holds.
    pub closed spec fn wf(&self) -> bool {
        &&& self.count as int == self.samples@.len()
        &&& self.count <= CAL_SAMPLE_SIZE
        &&& self.x_sum as int == axis_sum(self.samples@, Axis::X)
        &&& self.y_sum as int == axis_sum(self.samples@, Axis::Y)
        &&& self.z_sum as int == axis_sum(self.samples@, Axis::Z)
        &&& self.average.x as int == axis_offset(self.samples@, Axis::X)
        &&& self.average.y as int == axis_offset(self.samples@, Axis::Y)
        &&& self.average.z as int == axis_offset(self.samples@, Axis::Z)
    }

    /// A calibration that has recorded nothing yet.
    pub fn new() -> (cal: Self)
        ensures
            cal.wf(),
            cal.samples() == Seq::<Axes16>::empty(),
    {
        GyroCalibration {
            x_sum: 0,
            y_sum: 0,
            z_sum: 0,
            average: Axes16 { x: 0, y: 0, z: 0 },
            count: 0,
            samples: Ghost(Seq::empty()),
        }
    }

    /// How many readings have been recorded.
    pub fn recorded(&self) -> (n: u32)
        requires
            self.wf(),
        ensures
            n as int == self.samples().len(),
    {
        self.count
    }

    /// Whether the full sample size has been recorded.
    pub fn is_complete(&self) -> (done: bool)
        requires
            self.wf(),
        ensures
            done <==> self.samples().len() == CAL_SAMPLE_SIZE,
    {
        self.count == CAL_SAMPLE_SIZE
    }

    /// The offsets computed from the readings recorded so far: on each axis
    /// the sum of the readings divided by the full sample size, rounded toward
    /// zero.
    pub fn offsets(&self) -> (avg: Axes16)
        requires
            self.wf(),
        ensures
            avg.x as int == axis_offset(self.samples(), Axis::X),
            avg.y as int == axis_offset(self.samples(), Axis::Y),
            avg.z as int == axis_offset(self.samples(), Axis::Z),
    {
        self.average
    }

    /// Adds one reading to the sums and recomputes the offsets.
    pub fn record_sample(&mut self, sample: &Axes16)
        requires
            old(self).wf(),
            old(self).samples().len() < CAL_SAMPLE_SIZE,
        ensures
            final(self).wf(),
            final(self).samples() == old(self).samples().push(*sample),
    {
        let ghost new_samples = self.samples@.push(*sample);
        proof {
            assert(new_samples.drop_last() =~= self.samples@);
            lemma_axis_sum_bounds(new_samples, Axis::X);
            lemma_axis_sum_bounds(new_samples, Axis::Y);
            lemma_axis_sum_bounds(new_samples, Axis::Z);
            lemma_truncated_div_fits_i16(axis_sum(new_samples, Axis::X), CAL_SAMPLE_SIZE as int);
            lemma_truncated_div_fits_i16(axis_sum(new_samples, Axis::Y), CAL_SAMPLE_SIZE as int);
            lemma_truncated_div_fits_i16(axis_sum(new_samples, Axis::Z), CAL_SAMPLE_SIZE as int);
        }
        self.x_sum = self.x_sum + sample.x as i32;
        self.y_sum = self.y_sum + sample.y as i32;
        self.z_sum = self.z_sum + sample.z as i32;
        self.average = Axes16 {
            x: truncated_div_by_sample_size(self.x_sum) as i16,
            y: truncated_div_by_sample_size(self.y_sum) as i16,
            z: truncated_div_by_sample_size(self.z_sum) as i16,
        };
        self.count = self.count + 1;
        self.samples = Ghost(new_samples);
    }

    /// Handles the outcome of one read of the gyroscope during calibration:
    /// a reading is recorded and the calibration goes on (`Ok`); a failed read
    /// ends the calibration with its error message and records nothing.
    pub fn calibration_step(&mut self, reading: &Result<Axes16, SpiError>) -> (r: Result<(), &'static str>)
        requires
            old(self).wf(),
            old(self).samples().len() < CAL_SAMPLE_SIZE,
        ensures
            final(self).wf(),
            match *reading {
                Ok(sample) => {
                    &&& r is Ok
                    &&& final(self).samples() == old(self).samples().push(sample)
                },
                Err(_) => {
                    &&& r matches Err(msg) && msg@ == calibration_failure_message()
                    &&& final(self).samples() == old(self).samples()
                },
            },
    {
        match reading {
            Ok(sample) => {
                self.record_sample(sample);
                Ok(())
            },
            Err(_) => Err("ERROR while calibrating gyro! Could not read gyro data."),
        }
    }
}

/// What the gyroscope task signals to the magnetometer task, given the outcome
/// of its calibration.
pub open spec fn signal_after_calibration(result: Result<Axes16, &'static str>) -> CalibrationState {
    match result {
        Ok(_) => CalibrationState::Start,
        Err(_) => CalibrationState::Stop,
    }
}

/// The signal for the magnetometer task: `Start` after a successful
/// calibration, `Stop` after a failed one.
pub fn calibration_signal(result: &Result<Axes16, &'static str>) -> (state: CalibrationState)
    ensures
        state == signal_after_calibration(*result),
        (state == CalibrationState::Start) <==> result is Ok,
        (state == CalibrationState::Stop) <==> result is Err,
{
    match result {
        Ok(_) => CalibrationState::Start,
        Err(_) => CalibrationState::Stop,
    }
}

/// Whether `raw - offsets` fits an `i16` on every axis.
pub open spec fn offsets_apply(raw: Axes16, offsets: Axes16) -> bool {
    &&& i16::MIN <= raw.x - offsets.x <= i16::MAX
    &&& i16::MIN <= raw.y - offsets.y <= i16::MAX
    &&& i16::MIN <= raw.z - offsets.z <= i16::MAX
}

/// Law: a raw reading can be corrected by offsets exactly when, on every
/// axis, the difference lies in the range of `i16`, -32768 to 32767.
pub proof fn lemma_offsets_apply_exactly_within_i16(raw: Axes16, offsets: Axes16)
    ensures
        offsets_apply(raw, offsets) <==> {
            &&& -32768 <= raw.x - offsets.x <= 32767
            &&& -32768 <= raw.y - offsets.y <= 32767
            &&& -32768 <= raw.z - offsets.z <= 32767
        },
{
}

/// Law: `truncated_div` is division rounded toward zero: the remainder
/// `sum - q * count` is smaller than `count` in size and has the sign of
/// `sum`, and the quotient never has the opposite sign.
pub proof fn lemma_truncated_div_rounds_toward_zero(sum: int, count: int)
    requires
        count > 0,
    ensures
        sum >= 0 ==> {
            &&& truncated_div(sum, count) >= 0
            &&& 0 <= sum - truncated_div(sum, count) * count < count
        },
        sum < 0 ==> {
            &&& truncated_div(sum, count) <= 0
            &&& -count < sum - truncated_div(sum, count) * count <= 0
        },
{
    if sum >= 0 {
        let q = sum / count;
        assert(q >= 0 && 0 <= sum - q * count < count) by (nonlinear_arith)
            requires
                q == sum / count,
                sum >= 0,
                count > 0,
        ;
    } else {
        let m = -sum;
        let q = m / count;
        assert(q >= 0 && 0 <= m - q * count < count) by (nonlinear_arith)
            requires
                q == m / count,
                m > 0,
                count > 0,
        ;
        assert(sum - (-q) * count == -(m - q * count)) by (nonlinear_arith)
            requires
                m == -sum,
        ;
    }
}

/// Law: on every axis the calibration offset is the sum of the readings
/// divided by 1000, rounded toward zero: it leaves a remainder below 1000 in
/// size with the sign of the sum.
pub proof fn lemma_offset_is_truncated_mean(samples: Seq<Axes16>, axis: Axis)
    ensures
        axis_sum(samples, axis) >= 0 ==> 0 <= axis_sum(samples, axis) - axis_offset(samples, axis) * 1000
            < 1000,
        axis_sum(samples, axis) < 0 ==> -1000 < axis_sum(samples, axis) - axis_offset(samples, axis)
            * 1000 <= 0,
{
    lemma_truncated_div_rounds_toward_zero(axis_sum(samples, axis), 1000);
}

/// Law: the sum over two runs of readings taken one after the other is the
/// sum of their sums, and a single reading sums to its own value.
pub proof fn lemma_axis_sum_concat(first: Seq<Axes16>, second: Seq<Axes16>, axis: Axis)
    ensures
        axis_sum(first + second, axis) == axis_sum(first, axis) + axis_sum(second, axis),
        second.len() == 1 ==> axis_sum(second, axis) == component(second[0], axis),
    decreases second.len(),
{
    if second.len() == 0 {
        assert(first + second =~= first);
    } else {
        lemma_axis_sum_concat(first, second.drop_last(), axis);
        assert((first + second).drop_last() =~= first + second.drop_last());
        if second.len() == 1 {
            assert(second.drop_last().len() == 0);
        }
    }
}

/// Whether `raw` can be corrected by `offsets` without leaving the range of
/// `i16` on any axis.
pub fn offsets_fit(raw: &Axes16, offsets: &Axes16) -> (fits: bool)
    ensures
        fits == offsets_apply(*raw, *offsets),
        fits <==> {
            &&& -32768 <= raw.x - offsets.x <= 32767
            &&& -32768 <= raw.y - offsets.y <= 32767
            &&& -32768 <= raw.z - offsets.z <= 32767
        },
{
    let dx = raw.x as i32 - offsets.x as i32;
    let dy = raw.y as i32 - offsets.y as i32;
    let dz = raw.z as i32 - offsets.z as i32;
    let lo = i16::MIN as i32;
    let hi = i16::MAX as i32;
    lo <= dx && dx <= hi && lo <= dy && dy <= hi && lo <= dz && dz <= hi
}

/// A raw reading corrected by the calibration offsets, axis by axis.
pub fn apply_gyro_offsets(raw: &Axes16, offsets: &Axes16) -> (calibrated: Axes16)
    requires
        offsets_apply(*raw, *offsets),
    ensures
        calibrated.x == raw.x - offsets.x,
        calibrated.y == raw.y - offsets.y,
        calibrated.z == raw.z - offsets.z,
{
    Axes16 { x: raw.x - offsets.x, y: raw.y - offsets.y, z: raw.z - offsets.z }
}

proof fn lemma_axis_sum_between(samples: Seq<Axes16>, axis: Axis, lo: int, hi: int)
    requires
        forall|i: int| 0 <= i < samples.len() ==> lo <= #[trigger] component(samples[i], axis) <= hi,
    ensures
        samples.len() * lo <= axis_sum(samples, axis) <= samples.len() * hi,
    decreases samples.len(),
{
    if samples.len() > 0 {
        let rest = samples.drop_last();
        assert forall|i: int| 0 <= i < rest.len() implies lo <= #[trigger] component(rest[i], axis) <= hi by {
            assert(rest[i] == samples[i]);
        }
        lemma_axis_sum_between(rest, axis, lo, hi);
        assert(lo <= component(samples[samples.len() - 1], axis) <= hi);
        let n = rest.len() as int;
        assert(n * lo + lo == (n + 1) * lo && n * hi + hi == (n + 1) * hi) by (nonlinear_arith);
    }
}

/// Law: the offset that a full calibration computes on an axis lies between
/// the least and the greatest reading taken on that axis.
pub proof fn lemma_offset_within_readings(samples: Seq<Axes16>, axis: Axis, lo: int, hi: int)
    requires
        samples.len() == CAL_SAMPLE_SIZE,
        forall|i: int| 0 <= i < samples.len() ==> lo <= #[trigger] component(samples[i], axis) <= hi,
    ensures
        lo <= axis_offset(samples, axis) <= hi,
{
    lemma_axis_sum_between(samples, axis, lo, hi);
    let sum = axis_sum(samples, axis);
    let n = CAL_SAMPLE_SIZE as int;
    if sum >= 0 {
        assert(lo <= sum / n <= hi) by (nonlinear_arith)
            requires
                n * lo <= sum <= n * hi,
                sum >= 0,
                n > 0,
        ;
    } else {
        assert(lo <= -((-sum) / n) <= hi) by (nonlinear_arith)
            requires
                n * lo <= sum <= n * hi,
                sum < 0,
                n > 0,
        ;
    }
}

/// Law: a gyroscope that gives the same reading on every read of a full
/// calibration gets that reading as its offsets, so correcting that reading
/// gives zero on every axis.
pub proof fn lemma_steady_readings_calibrate_to_zero(samples: Seq<Axes16>, steady: Axes16)
    requires
        samples.len() == CAL_SAMPLE_SIZE,
        forall|i: int| 0 <= i < samples.len() ==> #[trigger] samples[i] == steady,
    ensures
        axis_offset(samples, Axis::X) == steady.x,
        axis_offset(samples, Axis::Y) == steady.y,
        axis_offset(samples, Axis::Z) == steady.z,
        offsets_apply(
            steady,
            Axes16 {
                x: axis_offset(samples, Axis::X) as i16,
                y: axis_offset(samples, Axis::Y) as i16,
                z: axis_offset(samples, Axis::Z) as i16,
            },
        ),
        steady.x - axis_offset(samples, Axis::X) == 0,
        steady.y - axis_offset(samples, Axis::Y) == 0,
        steady.z - axis_offset(samples, Axis::Z) == 0,
{
    assert forall|i: int| 0 <= i < samples.len() implies steady.x <= #[trigger] component(samples[i], Axis::X) <= steady.x by {}
    assert forall|i: int| 0 <= i < samples.len() implies steady.y <= #[trigger] component(samples[i], Axis::Y) <= steady.y by {}
    assert forall|i: int| 0 <= i < samples.len() implies steady.z <= #[trigger] component(samples[i], Axis::Z) <= steady.z by {}
    lemma_offset_within_readings(samples, Axis::X, steady.x as int, steady.x as int);
    lemma_offset_within_readings(samples, Axis::Y, steady.y as int, steady.y as int);
    lemma_offset_within_readings(samples, Axis::Z, steady.z as int, steady.z as int);
}

fn truncated_div_by_sample_size(sum: i32) -> (q: i32)
    requires
        sum > i32::MIN,
    ensures
        q as int == truncated_div(sum as int, CAL_SAMPLE_SIZE as int),
{
    let size: i32 = 1000;
    if sum >= 0 {
        sum / size
    } else {
        -((-sum) / size)
    }
}

} // verus!
