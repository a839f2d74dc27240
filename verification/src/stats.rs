//! Sums and means of sequences of fixed-point vectors, and the running
//! accumulator that computes them one reading at a time.

use vstd::prelude::*;
use crate::fixed::{div_floor, lemma_floor_brackets};
use crate::vector::{Vec3, Vector};

verus! {

/// The component-wise sum of the readings.
pub open spec fn sum(s: Seq<Vec3>) -> Vector
    decreases s.len(),
{
    if s.len() == 0 {
        Vector::zero()
    } else {
        sum(s.drop_last()).plus(s.last()@)
    }
}

/// The component-wise mean of the readings, rounded towards minus infinity;
/// the zero vector when there are none.
pub open spec fn mean(s: Seq<Vec3>) -> Vector {
    if s.len() == 0 {
        Vector::zero()
    } else {
        sum(s).div(s.len() as int)
    }
}

/// Appending a reading adds it to the sum.
pub proof fn lemma_sum_push(s: Seq<Vec3>, v: Vec3)
    ensures
        sum(s.push(v)) == sum(s).plus(v@),
{
    assert(s.push(v).drop_last() =~= s);
}

/// Taking a reading out subtracts it from the sum.
pub proof fn lemma_sum_remove(s: Seq<Vec3>, i: int)
    requires
        0 <= i < s.len(),
    ensures
        sum(s) == sum(s.remove(i)).plus(s[i]@),
    decreases s.len(),
{
    if i == s.len() - 1 {
        assert(s.remove(i) =~= s.drop_last());
    } else {
        lemma_sum_remove(s.drop_last(), i);
        assert(s.remove(i).drop_last() =~= s.drop_last().remove(i));
        assert(s.remove(i).last() == s.last());
    }
}

/// The sum of `n` readings lies between `n` times the least and `n` times
/// the greatest value of a component.
pub proof fn lemma_sum_bounds(s: Seq<Vec3>)
    ensures
        s.len() * i32::MIN <= sum(s).x <= s.len() * i32::MAX,
        s.len() * i32::MIN <= sum(s).y <= s.len() * i32::MAX,
        s.len() * i32::MIN <= sum(s).z <= s.len() * i32::MAX,
    decreases s.len(),
{
    if s.len() > 0 {
        lemma_sum_bounds(s.drop_last());
        let n = s.len() as int;
        assert((n - 1) * i32::MIN + i32::MIN == n * i32::MIN) by (nonlinear_arith);
        assert((n - 1) * i32::MAX + i32::MAX == n * i32::MAX) by (nonlinear_arith);
    }
}

/// A quotient of a total by its count stays between the bounds of the terms.
proof fn lemma_quotient_between(total: int, n: int, lo: int, hi: int)
    requires
        n > 0,
        n * lo <= total <= n * hi,
    ensures
        lo <= total / n <= hi,
{
    assert(lo <= total / n <= hi) by (nonlinear_arith)
        requires
            n > 0,
            n * lo <= total <= n * hi,
    ;
}

/// The mean of fixed-point readings is itself a fixed-point vector.
pub proof fn lemma_mean_fits(s: Seq<Vec3>)
    ensures
        mean(s).fits(),
{
    if s.len() > 0 {
        lemma_sum_bounds(s);
        let n = s.len() as int;
        lemma_quotient_between(sum(s).x, n, i32::MIN as int, i32::MAX as int);
        lemma_quotient_between(sum(s).y, n, i32::MIN as int, i32::MAX as int);
        lemma_quotient_between(sum(s).z, n, i32::MIN as int, i32::MAX as int);
    }
}

/// The mean misses the exact quotient of sum and count by less than one
/// millionth, in each component.
pub proof fn lemma_mean_error(s: Seq<Vec3>)
    requires
        s.len() > 0,
    ensures
        s.len() * mean(s).x <= sum(s).x < s.len() * (mean(s).x + 1),
        s.len() * mean(s).y <= sum(s).y < s.len() * (mean(s).y + 1),
        s.len() * mean(s).z <= sum(s).z < s.len() * (mean(s).z + 1),
{
    lemma_floor_brackets(sum(s).x, s.len() as int);
    lemma_floor_brackets(sum(s).y, s.len() as int);
    lemma_floor_brackets(sum(s).z, s.len() as int);
}

/// The sum of `n` copies of one reading is `n` times that reading.
pub proof fn lemma_sum_constant(s: Seq<Vec3>, v: Vec3)
    requires
        forall|i: int| 0 <= i < s.len() ==> s[i] == v,
    ensures
        sum(s).x == s.len() * v.x,
        sum(s).y == s.len() * v.y,
        sum(s).z == s.len() * v.z,
    decreases s.len(),
{
    if s.len() > 0 {
        lemma_sum_constant(s.drop_last(), v);
        let n = s.len() as int;
        assert((n - 1) * v.x + v.x == n * v.x) by (nonlinear_arith);
        assert((n - 1) * v.y + v.y == n * v.y) by (nonlinear_arith);
        assert((n - 1) * v.z + v.z == n * v.z) by (nonlinear_arith);
    }
}

/// The mean of one reading repeated is that reading, exactly.
pub proof fn lemma_mean_constant(s: Seq<Vec3>, v: Vec3)
    requires
        s.len() > 0,
        forall|i: int| 0 <= i < s.len() ==> s[i] == v,
    ensures
        mean(s) == v@,
{
    lemma_sum_constant(s, v);
    let n = s.len() as int;
    lemma_quotient_between(sum(s).x, n, v.x as int, v.x as int);
    lemma_quotient_between(sum(s).y, n, v.y as int, v.y as int);
    lemma_quotient_between(sum(s).z, n, v.z as int, v.z as int);
}

/// The sum does not depend on the order of the readings.
pub proof fn lemma_sum_permutation(a: Seq<Vec3>, b: Seq<Vec3>)
    requires
        a.to_multiset() == b.to_multiset(),
    ensures
        sum(a) == sum(b),
    decreases a.len(),
{
    a.to_multiset_ensures();
    b.to_multiset_ensures();
    if a.len() > 0 {
        let last = a.last();
        assert(a.to_multiset().contains(last));
        assert(b.contains(last));
        let i = choose|i: int| 0 <= i < b.len() && b[i] == last;
        assert(a.drop_last() =~= a.remove(a.len() - 1));
        assert(a.drop_last().to_multiset() =~= b.remove(i).to_multiset());
        lemma_sum_permutation(a.drop_last(), b.remove(i));
        lemma_sum_remove(b, i);
    } else {
        assert(b.len() == 0);
    }
}

/// The mean does not depend on the order of the readings.
pub proof fn lemma_mean_permutation(a: Seq<Vec3>, b: Seq<Vec3>)
    requires
        a.to_multiset() == b.to_multiset(),
    ensures
        mean(a) == mean(b),
{
    a.to_multiset_ensures();
    b.to_multiset_ensures();
    lemma_sum_permutation(a, b);
}

/// A running sum of fixed-point readings.
pub struct Accumulator {
    count: usize,
    x: i128,
    y: i128,
    z: i128,
    items: Ghost<Seq<Vec3>>,
}

impl View for Accumulator {
    type V = Seq<Vec3>;

    /// The readings taken in so far, oldest first.
    closed spec fn view(&self) -> Seq<Vec3> {
        self.items@
    }
}

impl Accumulator {
    /// The counters agree with the readings taken in.
    #[verifier::type_invariant]
    spec fn wf(&self) -> bool {
        &&& self.count == self.items@.len()
        &&& self.x == sum(self.items@).x
        &&& self.y == sum(self.items@).y
        &&& self.z == sum(self.items@).z
    }

    pub fn new() -> (acc: Accumulator)
        ensures
            acc@ == Seq::<Vec3>::empty(),
    {
        Accumulator { count: 0, x: 0, y: 0, z: 0, items: Ghost(Seq::empty()) }
    }

    /// How many readings were taken in.
    pub fn len(&self) -> (n: usize)
        ensures
            n == self@.len(),
    {
        proof {
            use_type_invariant(&*self);
        }
        self.count
    }

    /// Takes in one more reading.
    pub fn push(&mut self, v: Vec3)
        requires
            old(self)@.len() < usize::MAX,
        ensures
            final(self)@ == old(self)@.push(v),
    {
        proof {
            use_type_invariant(&*self);
            lemma_sum_bounds(self.items@);
            lemma_sum_push(self.items@, v);
            let n = self.count as int;
            assert(-0x1_0000_0000_0000_0000 * 0x8000_0000 <= n * i32::MIN && n * i32::MAX
                <= 0x1_0000_0000_0000_0000 * 0x8000_0000) by (nonlinear_arith)
                requires
                    0 <= n <= 0x1_0000_0000_0000_0000,
            ;
        }
        *self = Accumulator {
            count: self.count + 1,
            x: self.x + v.x as i128,
            y: self.y + v.y as i128,
            z: self.z + v.z as i128,
            items: Ghost(self.items@.push(v)),
        };
    }

    /// Forgets every reading.
    pub fn clear(&mut self)
        ensures
            final(self)@ == Seq::<Vec3>::empty(),
    {
        *self = Accumulator::new();
    }

    /// The mean of the readings taken in; the zero vector when there are none.
    pub fn mean(&self) -> (m: Vec3)
        ensures
            m@ == mean(self@),
            m == mean(self@).to_vec3(),
    {
        proof {
            use_type_invariant(&*self);
        }
        if self.count == 0 {
            Vec3 { x: 0, y: 0, z: 0 }
        } else {
            proof {
                lemma_mean_fits(self.items@);
            }
            let n: i128 = self.count as i128;
            let x: i128 = div_floor(self.x, n);
            let y: i128 = div_floor(self.y, n);
            let z: i128 = div_floor(self.z, n);
            Vec3 { x: x as i32, y: y as i32, z: z as i32 }
        }
    }
}

} // verus!
