//! The gyroscope bias estimator: the mean angular velocity over a stationary
//! warm-up window of a configured length.

use vstd::prelude::*;
use crate::error::ConfigurationError;
use crate::stats::{
    lemma_mean_constant,
    lemma_mean_fits,
    lemma_mean_permutation,
    mean,
    Accumulator,
};
use crate::vector::{lemma_vector_carrier, Vec3};

verus! {

/// What an estimator has seen: the length of its window and the angular
/// velocities taken in so far, oldest first.
pub struct EstimatorState {
    pub window: nat,
    pub readings: Seq<Vec3>,
}

impl EstimatorState {
    /// An estimator that has seen nothing.
    pub open spec fn fresh(window: nat) -> EstimatorState {
        EstimatorState { window, readings: Seq::empty() }
    }

    /// The window is full.
    pub open spec fn ready(self) -> bool {
        self.readings.len() >= self.window
    }

    /// The state after one more reading: taken in while the window is open,
    /// passed over once it is full.
    pub open spec fn push(self, v: Vec3) -> EstimatorState {
        if self.ready() {
            self
        } else {
            EstimatorState { window: self.window, readings: self.readings.push(v) }
        }
    }

    /// The state after the readings `vs`, in order.
    pub open spec fn feed(self, vs: Seq<Vec3>) -> EstimatorState
        decreases vs.len(),
    {
        if vs.len() == 0 {
            self
        } else {
            self.feed(vs.drop_last()).push(vs.last())
        }
    }

    /// The estimated bias: the mean of the window, once it is full.
    pub open spec fn bias(self) -> Option<Vec3> {
        if self.ready() {
            Some(mean(self.readings).to_vec3())
        } else {
            None
        }
    }
}

/// Estimates the gyroscope bias of a sensor at rest.
pub struct GyroBiasEstimator {
    window: usize,
    acc: Accumulator,
}

impl View for GyroBiasEstimator {
    type V = EstimatorState;

    closed spec fn view(&self) -> EstimatorState {
        EstimatorState { window: self.window as nat, readings: self.acc@ }
    }
}

impl GyroBiasEstimator {
    /// The window is at least one sample long and not overfull.
    #[verifier::type_invariant]
    spec fn wf(&self) -> bool {
        &&& self.window >= 1
        &&& self.acc@.len() <= self.window
    }

    /// An estimator over a window of `window` samples; a window of no
    /// samples is refused.
    pub fn new(window: usize) -> (r: Result<GyroBiasEstimator, ConfigurationError>)
        ensures
            window == 0 <==> r is Err,
            r is Err ==> r->Err_0 == ConfigurationError::NonPositiveSampleCount,
            r is Ok ==> r->Ok_0@ == EstimatorState::fresh(window as nat),
    {
        if window == 0 {
            Err(ConfigurationError::NonPositiveSampleCount)
        } else {
            Ok(GyroBiasEstimator { window, acc: Accumulator::new() })
        }
    }

    /// The length of the window.
    pub fn window(&self) -> (n: usize)
        ensures
            n == self@.window,
    {
        self.window
    }

    /// How many readings were taken in.
    pub fn count(&self) -> (n: usize)
        ensures
            n == self@.readings.len(),
    {
        self.acc.len()
    }

    /// Whether the window is full.
    pub fn is_ready(&self) -> (ready: bool)
        ensures
            ready == self@.ready(),
    {
        self.acc.len() >= self.window
    }

    /// Takes in one angular velocity, unless the window is already full, and
    /// says whether the window is full afterwards.
    pub fn push(&mut self, angular_velocity: Vec3) -> (ready: bool)
        ensures
            final(self)@ == old(self)@.push(angular_velocity),
            ready == final(self)@.ready(),
    {
        proof {
            use_type_invariant(&*self);
        }
        if self.acc.len() < self.window {
            let mut acc = Accumulator::new();
            core::mem::swap(&mut acc, &mut self.acc);
            acc.push(angular_velocity);
            self.acc = acc;
        }
        self.acc.len() >= self.window
    }

    /// The estimated bias: the mean of the window once it is full, nothing
    /// before.
    pub fn bias(&self) -> (b: Option<Vec3>)
        ensures
            b == self@.bias(),
            b is Some <==> self@.ready(),
            b is Some ==> b->Some_0@ == mean(self@.readings),
    {
        if self.acc.len() >= self.window {
            Some(self.acc.mean())
        } else {
            None
        }
    }
}

/// Feeding a fresh estimator at most a window of readings takes in each of them.
pub proof fn lemma_feed_within_window(window: nat, vs: Seq<Vec3>)
    requires
        vs.len() <= window,
    ensures
        EstimatorState::fresh(window).feed(vs).readings == vs,
        EstimatorState::fresh(window).feed(vs).window == window,
    decreases vs.len(),
{
    if vs.len() > 0 {
        lemma_feed_within_window(window, vs.drop_last());
        assert(vs.drop_last().push(vs.last()) =~= vs);
    }
}

/// Feeding a fresh estimator more than a window of readings keeps the first
/// window and passes over the rest.
pub proof fn lemma_feed_beyond_window(window: nat, vs: Seq<Vec3>)
    requires
        vs.len() >= window,
    ensures
        EstimatorState::fresh(window).feed(vs).readings == vs.take(window as int),
        EstimatorState::fresh(window).feed(vs).window == window,
        EstimatorState::fresh(window).feed(vs).ready(),
    decreases vs.len(),
{
    if vs.len() == window {
        lemma_feed_within_window(window, vs);
        assert(vs.take(window as int) =~= vs);
    } else {
        lemma_feed_beyond_window(window, vs.drop_last());
        assert(vs.drop_last().take(window as int) =~= vs.take(window as int));
    }
}

/// A window of identical readings `v` yields the bias `v`.
pub proof fn lemma_identical_readings(vs: Seq<Vec3>, v: Vec3)
    requires
        vs.len() >= 1,
        forall|i: int| 0 <= i < vs.len() ==> vs[i] == v,
    ensures
        EstimatorState::fresh(vs.len()).feed(vs).bias() == Some(v),
{
    lemma_feed_within_window(vs.len(), vs);
    lemma_mean_constant(vs, v);
    crate::vector::lemma_vec3_view(v, v);
}

/// A window of readings yields their mean as the bias, rounded towards minus
/// infinity in each component.
pub proof fn lemma_bias_is_mean(vs: Seq<Vec3>)
    requires
        vs.len() >= 1,
    ensures
        EstimatorState::fresh(vs.len()).feed(vs).bias() is Some,
        EstimatorState::fresh(vs.len()).feed(vs).bias()->Some_0@ == mean(vs),
{
    lemma_feed_within_window(vs.len(), vs);
    lemma_mean_fits(vs);
    lemma_vector_carrier(mean(vs));
}

/// The bias does not depend on the order in which a window of readings arrives.
pub proof fn lemma_bias_order_independent(a: Seq<Vec3>, b: Seq<Vec3>)
    requires
        a.to_multiset() == b.to_multiset(),
    ensures
        EstimatorState::fresh(a.len()).feed(a).bias() == EstimatorState::fresh(b.len()).feed(
            b,
        ).bias(),
{
    a.to_multiset_ensures();
    b.to_multiset_ensures();
    lemma_feed_within_window(a.len(), a);
    lemma_feed_within_window(b.len(), b);
    lemma_mean_permutation(a, b);
}

} // verus!
