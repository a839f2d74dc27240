//! Apply mode: loads a calibration, estimates the gyroscope bias during a
//! warm-up window if asked to, and corrects every sample after that.

use vstd::prelude::*;
use crate::error::{ConfigurationError, PersistenceError};
use crate::gyro::{EstimatorState, GyroBiasEstimator};
use crate::model::{CalibrationModel, Sample, STANDARD_GRAVITY};
use crate::stats::mean;
use crate::text::{parse, parsed};
use crate::vector::Vec3;

verus! {

/// The tunables of apply mode.
#[derive(Debug)]
pub struct Params {
    /// Where the calibration text is kept.
    pub calib_file: String,
    /// Whether to estimate the gyroscope bias afresh at startup.
    pub calibrate_gyros: bool,
    /// The length of the warm-up window, in samples.
    pub gyro_calib_samples: i32,
    /// The reference gravity, in millionths of a m/s².
    pub gravity: i32,
}

impl Default for Params {
    fn default() -> (p: Params)
        ensures
            p.calib_file@ == "calib.txt"@,
            p.calibrate_gyros,
            p.gyro_calib_samples == 100,
            p.gravity == STANDARD_GRAVITY,
    {
        Params {
            calib_file: "calib.txt".to_string(),
            calibrate_gyros: true,
            gyro_calib_samples: 100,
            gravity: STANDARD_GRAVITY,
        }
    }
}

/// The phase that an application is in.
#[derive(Clone, Copy, Debug, PartialEq, Eq, Structural)]
pub enum ApplyState {
    /// Samples go to the gyroscope bias estimator; none is emitted.
    WarmingUp,
    /// Every sample is corrected and emitted.
    Ready,
}

/// What an application holds: its model, the estimator while it warms up,
/// and why the calibration text could not be used, if it could not.
pub struct ApplicationState {
    pub model: CalibrationModel,
    pub warmup: Option<EstimatorState>,
    pub load_error: Option<PersistenceError>,
}

/// The angular velocities of the samples, in order.
pub open spec fn angular_velocities(raws: Seq<Sample>) -> Seq<Vec3> {
    Seq::new(raws.len(), |i: int| raws[i].angular_velocity)
}

impl ApplicationState {
    pub open spec fn state(self) -> ApplyState {
        if self.warmup is Some {
            ApplyState::WarmingUp
        } else {
            ApplyState::Ready
        }
    }

    /// The model with the gyroscope bias replaced.
    pub open spec fn with_gyro_bias(self, bias: Vec3) -> CalibrationModel {
        CalibrationModel { gyro_bias: bias, accel: self.model.accel, gravity: self.model.gravity }
    }

    /// The state after one more sample: while warming up the estimator takes
    /// its angular velocity in, and the mean of the window becomes the
    /// gyroscope bias as soon as the window is full; once ready nothing
    /// changes.
    pub open spec fn step(self, raw: Sample) -> ApplicationState {
        match self.warmup {
            None => self,
            Some(estimator) => {
                let next = estimator.push(raw.angular_velocity);
                if next.ready() {
                    ApplicationState {
                        model: self.with_gyro_bias(mean(next.readings).to_vec3()),
                        warmup: None,
                        load_error: self.load_error,
                    }
                } else {
                    ApplicationState {
                        model: self.model,
                        warmup: Some(next),
                        load_error: self.load_error,
                    }
                }
            },
        }
    }

    /// What is emitted for a sample that arrives in this state: nothing while
    /// warming up, the corrected sample once ready.
    pub open spec fn output(self, raw: Sample) -> Option<Sample> {
        match self.warmup {
            None => Some(self.model.corrected(raw)),
            Some(_) => None,
        }
    }

    /// The state after the samples `raws`, in order.
    pub open spec fn run(self, raws: Seq<Sample>) -> ApplicationState
        decreases raws.len(),
    {
        if raws.len() == 0 {
            self
        } else {
            self.run(raws.drop_last()).step(raws.last())
        }
    }
}

/// The model that an application starts with: the one that the calibration
/// text spells, or the uncalibrated model where there is no usable text.
pub open spec fn loaded(text: Option<Seq<u8>>, gravity: i32) -> CalibrationModel {
    match text {
        Some(t) => match parsed(t) {
            Ok(m) => m,
            Err(_) => CalibrationModel::uncalibrated_spec(gravity),
        },
        None => CalibrationModel::uncalibrated_spec(gravity),
    }
}

/// Why the calibration text could not be used, if it could not.
pub open spec fn load_failure(text: Option<Seq<u8>>) -> Option<PersistenceError> {
    match text {
        Some(t) => match parsed(t) {
            Ok(_) => None,
            Err(e) => Some(e),
        },
        None => Some(PersistenceError::Unavailable),
    }
}

/// The application that a configuration gives, or why it is refused:
/// gravity must be above zero, and the warm-up window, where there is to be
/// one, at least one sample long.
pub open spec fn configured(
    calibrate_gyros: bool,
    gyro_calib_samples: int,
    text: Option<Seq<u8>>,
    gravity: i32,
) -> Result<ApplicationState, ConfigurationError> {
    if gravity <= 0 {
        Err(ConfigurationError::NonPositiveGravity)
    } else if calibrate_gyros && gyro_calib_samples <= 0 {
        Err(ConfigurationError::NonPositiveSampleCount)
    } else {
        Ok(
            ApplicationState {
                model: loaded(text, gravity),
                warmup: if calibrate_gyros {
                    Some(EstimatorState::fresh(gyro_calib_samples as nat))
                } else {
                    None
                },
                load_error: load_failure(text),
            },
        )
    }
}

/// The bytes of a text that may be missing.
pub open spec fn text_view(text: Option<&[u8]>) -> Option<Seq<u8>> {
    match text {
        Some(t) => Some(t@),
        None => None,
    }
}

/// The apply-mode orchestrator.
pub struct CalibrationApplication {
    model: CalibrationModel,
    estimator: Option<GyroBiasEstimator>,
    load_error: Option<PersistenceError>,
}

impl View for CalibrationApplication {
    type V = ApplicationState;

    closed spec fn view(&self) -> ApplicationState {
        ApplicationState {
            model: self.model,
            warmup: match self.estimator {
                Some(e) => Some(e@),
                None => None,
            },
            load_error: self.load_error,
        }
    }
}

impl CalibrationApplication {
    /// The model is valid, and an estimator is held only while its window is
    /// open.
    #[verifier::type_invariant]
    spec fn wf(&self) -> bool {
        &&& self.model.wf()
        &&& self.estimator is Some ==> !self.estimator->Some_0@.ready()
    }

    /// Starts an application.  `calib_text` is what the calibration file
    /// holds, or `None` where it could not be read: without a usable text
    /// the application starts from the uncalibrated model and says why in
    /// `load_error`.  With `calibrate_gyros` it warms up first, whatever the
    /// text says of the gyroscope bias.
    pub fn create(
        calibrate_gyros: bool,
        gyro_calib_samples: usize,
        calib_text: Option<&[u8]>,
        gravity: i32,
    ) -> (r: Result<CalibrationApplication, ConfigurationError>)
        ensures
            match configured(
                calibrate_gyros,
                gyro_calib_samples as int,
                text_view(calib_text),
                gravity,
            ) {
                Ok(state) => r is Ok && r->Ok_0@ == state,
                Err(e) => r is Err && r->Err_0 == e,
            },
    {
        if gravity <= 0 {
            return Err(ConfigurationError::NonPositiveGravity);
        }
        let estimator = if calibrate_gyros {
            match GyroBiasEstimator::new(gyro_calib_samples) {
                Ok(e) => Some(e),
                Err(e) => {
                    return Err(e);
                },
            }
        } else {
            None
        };
        let fallback = CalibrationModel::uncalibrated(gravity);
        let (model, load_error) = match calib_text {
            None => (fallback, Some(PersistenceError::Unavailable)),
            Some(text) => match parse(text) {
                Ok(m) => (m, None),
                Err(e) => (fallback, Some(e)),
            },
        };
        Ok(CalibrationApplication { model, estimator, load_error })
    }

    /// Starts an application from the tunables: a warm-up window that is
    /// wanted and not at least one sample long is refused.
    pub fn from_params(params: &Params, calib_text: Option<&[u8]>) -> (r: Result<
        CalibrationApplication,
        ConfigurationError,
    >)
        ensures
            match configured(
                params.calibrate_gyros,
                params.gyro_calib_samples as int,
                text_view(calib_text),
                params.gravity,
            ) {
                Ok(state) => r is Ok && r->Ok_0@ == state,
                Err(e) => r is Err && r->Err_0 == e,
            },
    {
        let samples: usize = if params.gyro_calib_samples > 0 {
            params.gyro_calib_samples as usize
        } else {
            0
        };
        CalibrationApplication::create(params.calibrate_gyros, samples, calib_text, params.gravity)
    }

    /// The phase that the application is in.
    pub fn state(&self) -> (s: ApplyState)
        ensures
            s == self@.state(),
    {
        if self.estimator.is_some() {
            ApplyState::WarmingUp
        } else {
            ApplyState::Ready
        }
    }

    /// The model as it stands.
    pub fn model(&self) -> (m: CalibrationModel)
        ensures
            m == self@.model,
    {
        self.model
    }

    /// Why the calibration text could not be used, if it could not.
    pub fn load_error(&self) -> (e: Option<PersistenceError>)
        ensures
            e == self@.load_error,
    {
        self.load_error
    }

    /// Takes one raw sample.  While warming up, its angular velocity goes to
    /// the estimator and nothing is emitted; once ready, the corrected sample
    /// is emitted.
    pub fn imu_callback(&mut self, raw: Sample) -> (out: Option<Sample>)
        ensures
            final(self)@ == old(self)@.step(raw),
            out == old(self)@.output(raw),
    {
        proof {
            use_type_invariant(&*self);
        }
        let mut warming: Option<GyroBiasEstimator> = None;
        core::mem::swap(&mut warming, &mut self.estimator);
        match warming {
            None => Some(self.model.correct(raw)),
            Some(mut estimator) => {
                let ready = estimator.push(raw.angular_velocity);
                if ready {
                    let bias = estimator.bias();
                    self.model.gyro_bias = bias.unwrap();
                } else {
                    self.estimator = Some(estimator);
                }
                None
            },
        }
    }
}

/// While fewer samples have arrived than the warm-up window is long, the
/// application is warming up, its model is untouched and nothing is emitted.
pub proof fn lemma_warm_up_silent(start: ApplicationState, window: nat, raws: Seq<Sample>)
    requires
        start.warmup == Some(EstimatorState::fresh(window)),
        raws.len() < window,
    ensures
        start.run(raws).warmup == Some(
            EstimatorState { window, readings: angular_velocities(raws) },
        ),
        start.run(raws).model == start.model,
        start.run(raws).load_error == start.load_error,
        forall|raw: Sample| #[trigger] start.run(raws).output(raw) is None,
    decreases raws.len(),
{
    if raws.len() == 0 {
        assert(angular_velocities(raws) =~= Seq::<Vec3>::empty());
    } else {
        lemma_warm_up_silent(start, window, raws.drop_last());
        assert(angular_velocities(raws.drop_last()).push(raws.last().angular_velocity)
            =~= angular_velocities(raws));
    }
}

/// Once as many samples have arrived as the warm-up window is long, the
/// application is ready: its gyroscope bias is the mean angular velocity of
/// the window, and every later sample is emitted corrected by that model.
pub proof fn lemma_warm_up_done(start: ApplicationState, window: nat, raws: Seq<Sample>)
    requires
        start.warmup == Some(EstimatorState::fresh(window)),
        window >= 1,
        raws.len() >= window,
    ensures
        start.run(raws).warmup is None,
        start.run(raws).model == start.with_gyro_bias(
            mean(angular_velocities(raws.take(window as int))).to_vec3(),
        ),
        start.run(raws).load_error == start.load_error,
        forall|raw: Sample| #[trigger]
            start.run(raws).output(raw) == Some(start.run(raws).model.corrected(raw)),
    decreases raws.len(),
{
    if raws.len() == window {
        lemma_warm_up_silent(start, window, raws.drop_last());
        assert(angular_velocities(raws.drop_last()).push(raws.last().angular_velocity)
            =~= angular_velocities(raws));
        assert(raws.take(window as int) =~= raws);
    } else {
        lemma_warm_up_done(start, window, raws.drop_last());
        assert(raws.drop_last().take(window as int) =~= raws.take(window as int));
    }
}

} // verus!
