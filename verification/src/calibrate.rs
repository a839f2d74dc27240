//! Calibrate mode: collects the orientations, solves for the accelerometer
//! correction as soon as the last one is sealed, and ends with a calibration
//! model or an error.
//!
//! The sensor is to rest on each face of a cube in turn, in the order X+, X-,
//! Y+, Y-, Z+, Z- of the axis that points up.

use vstd::prelude::*;
use crate::collector::{
    batch_means,
    lemma_complete_exactly,
    lemma_feed_beyond,
    lemma_feed_full,
    CollectorState,
    OrientationCollector,
    ORIENTATIONS,
};
use crate::error::{CalibrationError, ConfigurationError};
use crate::model::{AccelCorrection, CalibrationModel, Sample, STANDARD_GRAVITY};
use crate::solver::{solve, solved};
use crate::text::{model_text, to_text};
use crate::vector::Vec3;

verus! {

/// The tunables of calibrate mode.
#[derive(Debug)]
pub struct Params {
    /// Where the calibration text is to be written.
    pub calib_file: String,
    /// The reference gravity, in millionths of a m/s².
    pub gravity: i32,
    /// How many samples are taken per orientation.
    pub measurements_per_orientation: i32,
}

impl Default for Params {
    fn default() -> (p: Params)
        ensures
            p.calib_file@ == "calib.txt"@,
            p.gravity == STANDARD_GRAVITY,
            p.measurements_per_orientation == 500,
    {
        Params {
            calib_file: "calib.txt".to_string(),
            gravity: STANDARD_GRAVITY,
            measurements_per_orientation: 500,
        }
    }
}

/// The phase that a calibration is in.
#[derive(Clone, Copy, Debug, PartialEq, Eq, Structural)]
pub enum ProcessState {
    /// Samples go to the collector.
    Collecting,
    /// Every orientation is sealed and the solver runs.  A calibration
    /// passes through this phase within the call that seals the last
    /// orientation, and never rests in it.
    Solving,
    /// The solver succeeded; the model stands.
    Done,
    /// The solver failed; nothing more happens.
    Failed,
}

/// What a calibration holds: the reference gravity, the collection, and the
/// outcome once there is one.
pub struct ProcessRecord {
    pub gravity: i32,
    pub collector: CollectorState,
    pub outcome: Option<Result<CalibrationModel, CalibrationError>>,
}

/// The linear accelerations of the samples, in order.
pub open spec fn linear_accelerations(raws: Seq<Sample>) -> Seq<Vec3> {
    Seq::new(raws.len(), |i: int| raws[i].linear_acceleration)
}

/// The model that a calibration ends with: the fitted accelerometer
/// correction, no gyroscope bias, and the reference gravity.
pub open spec fn fitted_model(correction: AccelCorrection, gravity: i32) -> CalibrationModel {
    CalibrationModel { gyro_bias: Vec3 { x: 0, y: 0, z: 0 }, accel: correction, gravity }
}

impl ProcessRecord {
    /// A calibration that has taken nothing.
    pub open spec fn fresh(batch: nat, gravity: i32) -> ProcessRecord {
        ProcessRecord { gravity, collector: CollectorState::fresh(batch), outcome: None }
    }

    pub open spec fn state(self) -> ProcessState {
        match self.outcome {
            Some(Ok(_)) => ProcessState::Done,
            Some(Err(_)) => ProcessState::Failed,
            None => if self.collector.complete() {
                ProcessState::Solving
            } else {
                ProcessState::Collecting
            },
        }
    }

    /// Whether the calibration has ended, with a model or without.
    pub open spec fn done(self) -> bool {
        self.outcome is Some
    }

    /// While collecting, the linear acceleration of the sample goes to the
    /// collector; in every other phase the sample is passed over.
    pub open spec fn collect(self, raw: Sample) -> ProcessRecord {
        if self.state() == ProcessState::Collecting {
            ProcessRecord {
                gravity: self.gravity,
                collector: self.collector.submit(raw.linear_acceleration),
                outcome: None,
            }
        } else {
            self
        }
    }

    /// What the solver makes of the sealed orientations, with the model
    /// assembled on success.
    pub open spec fn verdict(self) -> Result<CalibrationModel, CalibrationError> {
        match solved(self.collector.sealed, self.gravity as int) {
            Ok(correction) => Ok(fitted_model(correction, self.gravity)),
            Err(e) => Err(e),
        }
    }

    /// While solving, the solver's verdict becomes the outcome; in every
    /// other phase nothing changes.
    pub open spec fn resolve(self) -> ProcessRecord {
        if self.state() == ProcessState::Solving {
            ProcessRecord {
                gravity: self.gravity,
                collector: self.collector,
                outcome: Some(self.verdict()),
            }
        } else {
            self
        }
    }

    /// The state after one more sample: it is collected, and if it seals the
    /// last orientation the calibration is solved at once.
    pub open spec fn step(self, raw: Sample) -> ProcessRecord {
        self.collect(raw).resolve()
    }

    /// The state after the samples `raws`, in order.
    pub open spec fn run(self, raws: Seq<Sample>) -> ProcessRecord
        decreases raws.len(),
    {
        if raws.len() == 0 {
            self
        } else {
            self.run(raws.drop_last()).step(raws.last())
        }
    }
}

/// The calibrate-mode orchestrator.
pub struct CalibrateProcess {
    gravity: i32,
    collector: OrientationCollector,
    outcome: Option<Result<CalibrationModel, CalibrationError>>,
}

impl View for CalibrateProcess {
    type V = ProcessRecord;

    closed spec fn view(&self) -> ProcessRecord {
        ProcessRecord { gravity: self.gravity, collector: self.collector@, outcome: self.outcome }
    }
}

impl CalibrateProcess {
    /// Gravity is above zero, a model that stands is valid, and the
    /// calibration does not rest between collecting and its outcome.
    #[verifier::type_invariant]
    spec fn wf(&self) -> bool {
        &&& self.gravity > 0
        &&& self.outcome matches Some(Ok(m)) ==> m.wf()
        &&& self.collector@.complete() ==> self.outcome is Some
    }

    /// Starts a calibration that takes `measurements_per_orientation`
    /// samples in each orientation.  A gravity that is not above zero is
    /// refused, and so is a batch of no samples.
    pub fn new(measurements_per_orientation: usize, gravity: i32) -> (r: Result<
        CalibrateProcess,
        ConfigurationError,
    >)
        ensures
            gravity <= 0 ==> r is Err && r->Err_0 == ConfigurationError::NonPositiveGravity,
            gravity > 0 && measurements_per_orientation == 0 ==> r is Err && r->Err_0
                == ConfigurationError::NonPositiveSampleCount,
            gravity > 0 && measurements_per_orientation > 0 ==> r is Ok && r->Ok_0@
                == ProcessRecord::fresh(measurements_per_orientation as nat, gravity),
    {
        if gravity <= 0 {
            return Err(ConfigurationError::NonPositiveGravity);
        }
        match OrientationCollector::new(measurements_per_orientation) {
            Ok(collector) => Ok(CalibrateProcess { gravity, collector, outcome: None }),
            Err(e) => Err(e),
        }
    }

    /// Starts a calibration from the tunables: a batch that is not at least
    /// one sample long is refused.
    pub fn from_params(params: &Params) -> (r: Result<CalibrateProcess, ConfigurationError>)
        ensures
            params.gravity <= 0 ==> r is Err && r->Err_0
                == ConfigurationError::NonPositiveGravity,
            params.gravity > 0 && params.measurements_per_orientation <= 0 ==> r is Err
                && r->Err_0 == ConfigurationError::NonPositiveSampleCount,
            params.gravity > 0 && params.measurements_per_orientation > 0 ==> r is Ok
                && r->Ok_0@ == ProcessRecord::fresh(
                params.measurements_per_orientation as nat,
                params.gravity,
            ),
    {
        let batch: usize = if params.measurements_per_orientation > 0 {
            params.measurements_per_orientation as usize
        } else {
            0
        };
        CalibrateProcess::new(batch, params.gravity)
    }

    /// The phase that the calibration is in.
    pub fn state(&self) -> (s: ProcessState)
        ensures
            s == self@.state(),
    {
        match self.outcome {
            Some(Ok(_)) => ProcessState::Done,
            Some(Err(_)) => ProcessState::Failed,
            None => if self.collector.is_complete() {
                ProcessState::Solving
            } else {
                ProcessState::Collecting
            },
        }
    }

    /// Whether the calibration has ended, with a model or without.
    pub fn is_done(&self) -> (done: bool)
        ensures
            done == self@.done(),
            done <==> self@.state() == ProcessState::Done || self@.state() == ProcessState::Failed,
    {
        self.outcome.is_some()
    }

    /// The reference gravity.
    pub fn gravity(&self) -> (g: i32)
        ensures
            g == self@.gravity,
    {
        self.gravity
    }

    /// The mean of each sealed orientation, in the order of sealing.
    pub fn orientations(&self) -> (s: &Vec<Vec3>)
        ensures
            s@ == self@.collector.sealed,
    {
        self.collector.sealed()
    }

    /// The outcome, once there is one.
    pub fn outcome(&self) -> (o: Option<Result<CalibrationModel, CalibrationError>>)
        ensures
            o == self@.outcome,
    {
        self.outcome
    }

    /// Takes one raw sample and says which phase the calibration is in
    /// afterwards.  The sample that seals the last orientation has the
    /// calibration solved within this call.
    pub fn imu_callback(&mut self, raw: Sample) -> (state: ProcessState)
        ensures
            final(self)@ == old(self)@.step(raw),
            state == final(self)@.state(),
            state != ProcessState::Solving,
    {
        proof {
            use_type_invariant(&*self);
        }
        if self.outcome.is_none() {
            let mut collector = OrientationCollector::idle();
            core::mem::swap(&mut collector, &mut self.collector);
            let _ = collector.submit(raw);
            if collector.is_complete() {
                let verdict = match solve(collector.sealed().as_slice(), self.gravity) {
                    Ok(correction) => Ok(
                        CalibrationModel {
                            gyro_bias: Vec3::zero(),
                            accel: correction,
                            gravity: self.gravity,
                        },
                    ),
                    Err(e) => Err(e),
                };
                *self = CalibrateProcess { gravity: self.gravity, collector, outcome: Some(verdict) };
            } else {
                self.collector = collector;
            }
        }
        self.state()
    }

    /// The calibration text to be written, once the model stands.
    pub fn calibration_text(&self) -> (text: Option<Vec<u8>>)
        ensures
            text is Some <==> self@.state() == ProcessState::Done,
            text is Some ==> text->Some_0@ == model_text(self@.outcome->Some_0->Ok_0),
    {
        match self.outcome {
            Some(Ok(m)) => Some(to_text(&m)),
            _ => None,
        }
    }
}

/// While fewer samples have arrived than `ORIENTATIONS` times the batch, the
/// calibration is collecting, and the collector has taken each of them.
pub proof fn lemma_collecting_runs(batch: nat, gravity: i32, raws: Seq<Sample>)
    requires
        batch >= 1,
        raws.len() < ORIENTATIONS * batch,
    ensures
        ProcessRecord::fresh(batch, gravity).run(raws) == (ProcessRecord {
            gravity,
            collector: CollectorState::fresh(batch).feed(linear_accelerations(raws)),
            outcome: None,
        }),
        ProcessRecord::fresh(batch, gravity).run(raws).state() == ProcessState::Collecting,
    decreases raws.len(),
{
    if raws.len() > 0 {
        lemma_collecting_runs(batch, gravity, raws.drop_last());
        assert(linear_accelerations(raws).drop_last() =~= linear_accelerations(raws.drop_last()));
        lemma_complete_exactly(batch, linear_accelerations(raws.drop_last()));
    }
    lemma_complete_exactly(batch, linear_accelerations(raws));
}

/// Once `ORIENTATIONS` times the batch samples have arrived, the calibration
/// has ended: its outcome is the solver's verdict on the orientations that
/// those samples sealed, and later samples change nothing.
pub proof fn lemma_run_completes(batch: nat, gravity: i32, raws: Seq<Sample>)
    requires
        batch >= 1,
        raws.len() >= ORIENTATIONS * batch,
    ensures
        ProcessRecord::fresh(batch, gravity).run(raws) == (ProcessRecord {
            gravity,
            collector: CollectorState::fresh(batch).feed(linear_accelerations(raws)),
            outcome: None,
        }).resolve(),
        ProcessRecord::fresh(batch, gravity).run(raws).done(),
        ProcessRecord::fresh(batch, gravity).run(raws) == ProcessRecord::fresh(batch, gravity).run(
            raws.take((ORIENTATIONS * batch) as int),
        ),
    decreases raws.len(),
{
    let full = (ORIENTATIONS * batch) as int;
    let start = ProcessRecord::fresh(batch, gravity);
    assert(full >= 1) by (nonlinear_arith)
        requires
            full == ORIENTATIONS * batch,
            batch >= 1,
    ;
    lemma_complete_exactly(batch, linear_accelerations(raws));
    assert(linear_accelerations(raws).drop_last() =~= linear_accelerations(raws.drop_last()));
    if raws.len() == full {
        lemma_collecting_runs(batch, gravity, raws.drop_last());
        assert(raws.take(full) =~= raws);
    } else {
        lemma_run_completes(batch, gravity, raws.drop_last());
        assert(raws.drop_last().take(full) =~= raws.take(full));
        lemma_feed_beyond(batch, linear_accelerations(raws));
        lemma_feed_beyond(batch, linear_accelerations(raws.drop_last()));
        assert(linear_accelerations(raws).take(full) =~= linear_accelerations(
            raws.drop_last(),
        ).take(full));
    }
}

/// The outcome of a calibration is what the solver makes of the mean linear
/// acceleration of each of the first `ORIENTATIONS` batches of samples.
pub proof fn lemma_outcome_from_batches(batch: nat, gravity: i32, raws: Seq<Sample>)
    requires
        batch >= 1,
        raws.len() >= ORIENTATIONS * batch,
    ensures
        ProcessRecord::fresh(batch, gravity).run(raws).outcome == Some(
            match solved(batch_means(linear_accelerations(raws), batch), gravity as int) {
                Ok(correction) => Ok::<CalibrationModel, CalibrationError>(
                    fitted_model(correction, gravity),
                ),
                Err(e) => Err(e),
            },
        ),
{
    lemma_run_completes(batch, gravity, raws);
    lemma_feed_full(batch, linear_accelerations(raws));
}

/// A calibration ends with a model exactly if the solver succeeds on the
/// sealed orientations; the model then holds the solver's correction, no
/// gyroscope bias and the reference gravity, and it is valid.
pub proof fn lemma_outcome(record: ProcessRecord)
    requires
        record.state() == ProcessState::Solving,
        record.gravity > 0,
    ensures
        record.resolve().state() == ProcessState::Done <==> solved(
            record.collector.sealed,
            record.gravity as int,
        ) is Ok,
        record.resolve().state() == ProcessState::Done ==> record.resolve().outcome == Some(
            Ok::<CalibrationModel, CalibrationError>(
                fitted_model(
                    solved(record.collector.sealed, record.gravity as int)->Ok_0,
                    record.gravity,
                ),
            ),
        ) && fitted_model(
            solved(record.collector.sealed, record.gravity as int)->Ok_0,
            record.gravity,
        ).wf(),
        record.resolve().state() != ProcessState::Done ==> record.resolve().state()
            == ProcessState::Failed,
{
}

} // verus!
