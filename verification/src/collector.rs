//! The orientation sample collector: groups accelerometer readings into
//! batches of a fixed size, one batch per orientation, and keeps the mean of
//! each batch once it is full.

use vstd::prelude::*;
use crate::error::ConfigurationError;
use crate::model::Sample;
use crate::stats::{mean, Accumulator};
use crate::vector::Vec3;

verus! {

/// How many orientations a collection takes: one per face of a cube.
pub const ORIENTATIONS: usize = 6;

/// What a submission did to the collection.
#[derive(Clone, Copy, Debug, PartialEq, Eq, Structural)]
pub enum CollectorStatus {
    /// The reading went into the batch of the current orientation.
    Collecting,
    /// The reading filled the batch of the current orientation, which is now
    /// sealed; more orientations are to come.
    OrientationSealed,
    /// Every orientation is sealed; the collection takes nothing more.
    AllComplete,
}

/// What a collector holds: the size of a batch, the mean of each sealed
/// orientation, and the readings of the orientation that is still open.
pub struct CollectorState {
    pub batch: nat,
    pub sealed: Seq<Vec3>,
    pub open: Seq<Vec3>,
}

impl CollectorState {
    /// A collector that has taken nothing.
    pub open spec fn fresh(batch: nat) -> CollectorState {
        CollectorState { batch, sealed: Seq::empty(), open: Seq::empty() }
    }

    /// Every orientation is sealed.
    pub open spec fn complete(self) -> bool {
        self.sealed.len() >= ORIENTATIONS
    }

    /// How many readings the collector has taken in.
    pub open spec fn taken(self) -> nat {
        self.sealed.len() * self.batch + self.open.len()
    }

    /// The state after one more accelerometer reading: passed over once the
    /// collection is complete; else appended to the open batch, which is
    /// sealed with its mean as soon as it is full.
    pub open spec fn submit(self, reading: Vec3) -> CollectorState {
        if self.complete() {
            self
        } else if self.open.len() + 1 >= self.batch {
            CollectorState {
                batch: self.batch,
                sealed: self.sealed.push(mean(self.open.push(reading)).to_vec3()),
                open: Seq::empty(),
            }
        } else {
            CollectorState {
                batch: self.batch,
                sealed: self.sealed,
                open: self.open.push(reading),
            }
        }
    }

    /// The status that the submission which led to this state reports.
    pub open spec fn status(self) -> CollectorStatus {
        if self.complete() {
            CollectorStatus::AllComplete
        } else if self.open.len() == 0 {
            CollectorStatus::OrientationSealed
        } else {
            CollectorStatus::Collecting
        }
    }

    /// The state after the readings `rs`, in order.
    pub open spec fn feed(self, rs: Seq<Vec3>) -> CollectorState
        decreases rs.len(),
    {
        if rs.len() == 0 {
            self
        } else {
            self.feed(rs.drop_last()).submit(rs.last())
        }
    }
}

/// Collects one representative accelerometer reading per orientation.
pub struct OrientationCollector {
    batch: usize,
    sealed: Vec<Vec3>,
    acc: Accumulator,
}

impl View for OrientationCollector {
    type V = CollectorState;

    closed spec fn view(&self) -> CollectorState {
        CollectorState { batch: self.batch as nat, sealed: self.sealed@, open: self.acc@ }
    }
}

impl OrientationCollector {
    /// A batch is at least one reading long, the open batch is never full,
    /// and no more orientations are sealed than a collection takes.
    #[verifier::type_invariant]
    spec fn wf(&self) -> bool {
        &&& self.batch >= 1
        &&& self.acc@.len() < self.batch
        &&& self.sealed@.len() <= ORIENTATIONS
    }

    /// A collector of batches of `batch` readings; a batch of no readings is
    /// refused.
    pub fn new(batch: usize) -> (r: Result<OrientationCollector, ConfigurationError>)
        ensures
            batch == 0 <==> r is Err,
            r is Err ==> r->Err_0 == ConfigurationError::NonPositiveSampleCount,
            r is Ok ==> r->Ok_0@ == CollectorState::fresh(batch as nat),
    {
        if batch == 0 {
            Err(ConfigurationError::NonPositiveSampleCount)
        } else {
            Ok(OrientationCollector { batch, sealed: Vec::new(), acc: Accumulator::new() })
        }
    }

    /// A collector that stands in while another is worked on.
    pub(crate) fn idle() -> (c: OrientationCollector)
        ensures
            c@ == CollectorState::fresh(1),
    {
        OrientationCollector { batch: 1, sealed: Vec::new(), acc: Accumulator::new() }
    }

    /// The size of a batch.
    pub fn batch(&self) -> (n: usize)
        ensures
            n == self@.batch,
    {
        self.batch
    }

    /// Whether every orientation is sealed.
    pub fn is_complete(&self) -> (done: bool)
        ensures
            done == self@.complete(),
    {
        self.sealed.len() >= ORIENTATIONS
    }

    /// The mean of each sealed orientation, in the order of sealing.
    pub fn sealed(&self) -> (s: &Vec<Vec3>)
        ensures
            s@ == self@.sealed,
    {
        &self.sealed
    }

    /// How many readings the open batch holds.
    pub fn pending(&self) -> (n: usize)
        ensures
            n == self@.open.len(),
    {
        self.acc.len()
    }

    /// Takes in the accelerometer reading of one sample; the angular velocity
    /// plays no part.
    pub fn submit(&mut self, sample: Sample) -> (status: CollectorStatus)
        ensures
            final(self)@ == old(self)@.submit(sample.linear_acceleration),
            status == final(self)@.status(),
    {
        proof {
            use_type_invariant(&*self);
        }
        if self.sealed.len() >= ORIENTATIONS {
            return CollectorStatus::AllComplete;
        }
        let mut acc = Accumulator::new();
        core::mem::swap(&mut acc, &mut self.acc);
        acc.push(sample.linear_acceleration);
        if acc.len() >= self.batch {
            let mut sealed: Vec<Vec3> = Vec::new();
            core::mem::swap(&mut sealed, &mut self.sealed);
            sealed.push(acc.mean());
            self.sealed = sealed;
            if self.sealed.len() >= ORIENTATIONS {
                CollectorStatus::AllComplete
            } else {
                CollectorStatus::OrientationSealed
            }
        } else {
            self.acc = acc;
            CollectorStatus::Collecting
        }
    }
}

/// The `k`-th batch of `batch` readings among `rs`.
pub open spec fn batch_of(rs: Seq<Vec3>, batch: nat, k: int) -> Seq<Vec3> {
    rs.subrange(k * batch, k * batch + batch)
}

/// The shape of a collection that has been fed no more readings than it
/// takes: every full batch is sealed with its mean, in order, and the
/// readings after the last full batch are the open batch.
pub proof fn lemma_feed_shape(batch: nat, rs: Seq<Vec3>)
    requires
        batch >= 1,
        rs.len() <= ORIENTATIONS * batch,
    ensures
        ({
            let s = CollectorState::fresh(batch).feed(rs);
            &&& s.batch == batch
            &&& s.taken() == rs.len()
            &&& s.open.len() < batch
            &&& s.sealed.len() == rs.len() / batch
            &&& s.open == rs.subrange((s.sealed.len() * batch) as int, rs.len() as int)
            &&& forall|k: int|
                0 <= k < s.sealed.len() ==> #[trigger] s.sealed[k] == mean(
                    batch_of(rs, batch, k),
                ).to_vec3()
        }),
    decreases rs.len(),
{
    let s = CollectorState::fresh(batch).feed(rs);
    if rs.len() == 0 {
        assert(0int / batch as int == 0) by (nonlinear_arith)
            requires
                batch >= 1,
        ;
        assert(s.open =~= rs.subrange(0, 0));
        assert(s.taken() == 0) by (nonlinear_arith)
            requires
                s.taken() == 0 * batch + 0,
        ;
    } else {
        let init = rs.drop_last();
        let p = CollectorState::fresh(batch).feed(init);
        lemma_feed_shape(batch, init);
        let k = p.sealed.len() as int;
        let b = batch as int;
        let n = init.len() as int;
        assert(k < ORIENTATIONS) by (nonlinear_arith)
            requires
                k * b + p.open.len() == n,
                n < ORIENTATIONS * b,
                b >= 1,
        ;
        assert(init.subrange(k * b, n).push(rs.last()) =~= rs.subrange(k * b, n + 1));
        assert forall|j: int| 0 <= j < k implies #[trigger] batch_of(init, batch, j) =~= batch_of(
            rs,
            batch,
            j,
        ) by {
            assert(j * b + b <= k * b) by (nonlinear_arith)
                requires
                    0 <= j < k,
                    b >= 1,
            ;
        }
        if p.open.len() + 1 >= batch {
            assert((k + 1) * b == k * b + b) by (nonlinear_arith);
            assert(s.open =~= rs.subrange((k + 1) * b, n + 1));
            assert(s.taken() == n + 1) by (nonlinear_arith)
                requires
                    s.taken() == (k + 1) * b + 0,
                    k * b + p.open.len() == n,
                    p.open.len() + 1 == b,
            ;
            assert((n + 1) / b == k + 1) by (nonlinear_arith)
                requires
                    n + 1 == (k + 1) * b,
                    b >= 1,
            ;
            assert forall|j: int| 0 <= j < s.sealed.len() implies #[trigger] s.sealed[j] == mean(
                batch_of(rs, batch, j),
            ).to_vec3() by {
                if j < k {
                    assert(s.sealed[j] == p.sealed[j]);
                    assert(batch_of(init, batch, j) == batch_of(rs, batch, j));
                } else {
                    assert(batch_of(rs, batch, k) =~= rs.subrange(k * b, n + 1));
                }
            }
        } else {
            assert(s.taken() == n + 1);
            assert((n + 1) / b == k) by (nonlinear_arith)
                requires
                    n + 1 == k * b + (p.open.len() + 1),
                    0 <= p.open.len() + 1 < b,
                    n / b == k,
            ;
            assert forall|j: int| 0 <= j < s.sealed.len() implies #[trigger] s.sealed[j] == mean(
                batch_of(rs, batch, j),
            ).to_vec3() by {
                assert(s.sealed[j] == p.sealed[j]);
                assert(batch_of(init, batch, j) == batch_of(rs, batch, j));
            }
        }
    }
}

/// Readings after the last that a collection takes change nothing.
pub proof fn lemma_feed_beyond(batch: nat, rs: Seq<Vec3>)
    requires
        batch >= 1,
        rs.len() >= ORIENTATIONS * batch,
    ensures
        CollectorState::fresh(batch).feed(rs) == CollectorState::fresh(batch).feed(
            rs.take((ORIENTATIONS * batch) as int),
        ),
        CollectorState::fresh(batch).feed(rs).complete(),
    decreases rs.len(),
{
    let full = (ORIENTATIONS * batch) as int;
    if rs.len() == full {
        assert(rs.take(full) =~= rs);
        lemma_feed_shape(batch, rs);
        let s = CollectorState::fresh(batch).feed(rs);
        assert(s.sealed.len() >= ORIENTATIONS) by (nonlinear_arith)
            requires
                s.sealed.len() * batch + s.open.len() == ORIENTATIONS * batch,
                s.open.len() < batch,
        ;
    } else {
        lemma_feed_beyond(batch, rs.drop_last());
        assert(rs.drop_last().take(full) =~= rs.take(full));
    }
}

/// The mean of each of the first `ORIENTATIONS` batches among `rs`.
pub open spec fn batch_means(rs: Seq<Vec3>, batch: nat) -> Seq<Vec3> {
    Seq::new(ORIENTATIONS as nat, |k: int| mean(batch_of(rs, batch, k)).to_vec3())
}

/// A collection that has been fed all it takes holds the mean of each batch
/// and nothing else, whatever came after.
pub proof fn lemma_feed_full(batch: nat, rs: Seq<Vec3>)
    requires
        batch >= 1,
        rs.len() >= ORIENTATIONS * batch,
    ensures
        CollectorState::fresh(batch).feed(rs) == (CollectorState {
            batch,
            sealed: batch_means(rs, batch),
            open: Seq::empty(),
        }),
{
    let full = (ORIENTATIONS * batch) as int;
    let b = batch as int;
    let taken = rs.take(full);
    lemma_feed_beyond(batch, rs);
    lemma_feed_shape(batch, taken);
    let s = CollectorState::fresh(batch).feed(taken);
    assert(full / b == ORIENTATIONS) by (nonlinear_arith)
        requires
            full == ORIENTATIONS * b,
            b >= 1,
    ;
    assert(s.sealed.len() * batch == full) by (nonlinear_arith)
        requires
            s.sealed.len() == ORIENTATIONS,
            full == ORIENTATIONS * batch,
    ;
    assert(s.open =~= Seq::<Vec3>::empty());
    assert forall|k: int| 0 <= k < ORIENTATIONS implies #[trigger] s.sealed[k] == batch_means(
        rs,
        batch,
    )[k] by {
        assert(k * b + b <= full) by (nonlinear_arith)
            requires
                0 <= k < ORIENTATIONS,
                full == ORIENTATIONS * b,
                b >= 1,
        ;
        assert(batch_of(taken, batch, k) =~= batch_of(rs, batch, k));
    }
    assert(s.sealed =~= batch_means(rs, batch));
}

/// A fresh collector is complete after exactly `ORIENTATIONS` times `batch`
/// submissions: the one that brings the count to that number reports
/// `AllComplete`, and none before it does.
pub proof fn lemma_complete_exactly(batch: nat, rs: Seq<Vec3>)
    requires
        batch >= 1,
    ensures
        CollectorState::fresh(batch).feed(rs).complete() <==> rs.len() >= ORIENTATIONS * batch,
        CollectorState::fresh(batch).feed(rs).status() == CollectorStatus::AllComplete
            <==> rs.len() >= ORIENTATIONS * batch,
{
    if rs.len() >= ORIENTATIONS * batch {
        lemma_feed_beyond(batch, rs);
    } else {
        lemma_feed_shape(batch, rs);
        let s = CollectorState::fresh(batch).feed(rs);
        assert(s.sealed.len() < ORIENTATIONS) by (nonlinear_arith)
            requires
                s.sealed.len() * batch + s.open.len() == rs.len(),
                rs.len() < ORIENTATIONS * batch,
                batch >= 1,
        ;
    }
}

} // verus!
