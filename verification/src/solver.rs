//! The accelerometer calibration solver: fits bias, scale and cross-axis
//! gains to the readings of a sensor at rest on each face of a cube.
//!
//! The orientations come in the order X+, X-, Y+, Y-, Z+, Z-: the axis that
//! points up, and its direction.  On opposite faces the sensor reads
//! `bias ± gravity · column`, where the columns are those of the matrix that
//! distorts the true acceleration.  So the bias is the mean of the six
//! readings, and the correction matrix is the inverse of the matrix of
//! differences between opposite faces, times twice gravity.  The fit is
//! admitted only if it maps every orientation onto the sphere of radius
//! gravity, within a tolerance, and its matrix is not close to singular.

use vstd::prelude::*;
use vstd::arithmetic::div_mod::{
    lemma_div_by_multiple,
    lemma_fundamental_div_mod,
    lemma_fundamental_div_mod_converse,
    lemma_mod_bound,
};
use crate::error::CalibrationError;
use crate::fixed::{div_floor, fits, mul_within, ONE};
use crate::model::AccelCorrection;
use crate::stats::{lemma_sum_push, mean, sum, Accumulator};
use crate::vector::{
    cross_wide,
    dot_wide,
    lemma_diagonal_adjugate,
    lemma_diagonal_det,
    lemma_doubled_matrix,
    triple_wide,
    Mat3,
    Matrix,
    Vec3,
    Vector,
    Wide,
};

verus! {

/// The least number of orientations that determines a correction.
pub const MIN_ORIENTATIONS: usize = 6;

/// A matrix whose determinant is closer to zero than this, a thousandth of
/// the determinant of the unit matrix, counts as singular.
pub const MIN_DETERMINANT: i128 = 1_000_000_000_000_000;

/// The corrected norm may miss gravity by gravity divided by this.
pub const TOLERANCE_DIVISOR: i32 = 100;

/// The matrix of the correction is close to singular.
pub open spec fn near_singular(c: AccelCorrection) -> bool {
    -MIN_DETERMINANT < c.scale@.det() < MIN_DETERMINANT
}

/// The square of the Euclidean norm.
pub open spec fn norm_squared(v: Vector) -> int {
    v.dot(v)
}

/// The correction maps the reading to a vector as long as gravity, within
/// the tolerance.
pub open spec fn matches_gravity(c: AccelCorrection, reading: Vec3, gravity: int) -> bool {
    let slack = gravity / TOLERANCE_DIVISOR as int;
    let n2 = norm_squared(c.corrected(reading)@);
    &&& gravity > 0
    &&& (gravity - slack) * (gravity - slack) <= n2
    &&& n2 <= (gravity + slack) * (gravity + slack)
}

/// The correction solves the problem: it is regular and maps every
/// orientation onto the sphere of radius gravity.
pub open spec fn admissible(orientations: Seq<Vec3>, gravity: int, c: AccelCorrection) -> bool {
    &&& !near_singular(c)
    &&& forall|k: int|
        0 <= k < orientations.len() ==> matches_gravity(c, #[trigger] orientations[k], gravity)
}

/// The differences between the readings on opposite faces, as the columns
/// of a matrix.
pub open spec fn face_spans(o: Seq<Vec3>) -> Matrix {
    let x = o[0]@.minus(o[1]@);
    let y = o[2]@.minus(o[3]@);
    let z = o[4]@.minus(o[5]@);
    Matrix {
        r0: Vector { x: x.x, y: y.x, z: z.x },
        r1: Vector { x: x.y, y: y.y, z: z.y },
        r2: Vector { x: x.z, y: y.z, z: z.z },
    }
}

/// The quotient of `n` by a `d` other than zero, rounded towards minus
/// infinity.
pub open spec fn floor_ratio(n: int, d: int) -> int {
    if d > 0 {
        n / d
    } else {
        (-n) / (-d)
    }
}

/// `k` times each component, divided by `d`.
pub open spec fn scaled_ratios(v: Vector, k: int, d: int) -> Vector {
    Vector {
        x: floor_ratio(k * v.x, d),
        y: floor_ratio(k * v.y, d),
        z: floor_ratio(k * v.z, d),
    }
}

/// `k` times the inverse of `m`, rounded down entry by entry: `k` times the
/// adjugate, over the determinant.
pub open spec fn inverse_times(m: Matrix, k: int) -> Matrix {
    Matrix {
        r0: scaled_ratios(m.adjugate().r0, k, m.det()),
        r1: scaled_ratios(m.adjugate().r1, k, m.det()),
        r2: scaled_ratios(m.adjugate().r2, k, m.det()),
    }
}

/// The fitted matrix, in millionths: twice gravity times the inverse of the
/// matrix of face differences.
pub open spec fn fitted_scale(o: Seq<Vec3>, gravity: int) -> Matrix {
    inverse_times(face_spans(o), 2 * gravity * ONE)
}

/// The fit to the first six orientations: nothing where there are fewer,
/// where the face differences are degenerate, or where a gain cannot be
/// carried.
pub open spec fn face_fit(o: Seq<Vec3>, gravity: int) -> Option<AccelCorrection> {
    if o.len() < MIN_ORIENTATIONS || face_spans(o).det() == 0 || !fitted_scale(o, gravity).fits() {
        None
    } else {
        Some(
            AccelCorrection {
                bias: mean(o.take(MIN_ORIENTATIONS as int)).to_vec3(),
                scale: fitted_scale(o, gravity).to_mat3(),
            },
        )
    }
}

/// The outcome of a solve: the fit, if there is one and it is admissible for
/// every orientation.
pub open spec fn solved(orientations: Seq<Vec3>, gravity: int) -> Result<
    AccelCorrection,
    CalibrationError,
> {
    if orientations.len() < MIN_ORIENTATIONS {
        Err(CalibrationError::InsufficientOrientations)
    } else if face_fit(orientations, gravity) is Some && admissible(
        orientations,
        gravity,
        face_fit(orientations, gravity)->Some_0,
    ) {
        Ok(face_fit(orientations, gravity)->Some_0)
    } else {
        Err(CalibrationError::NonConvergent)
    }
}

fn ratio(k: i128, v: i128, det: i128) -> (r: i128)
    requires
        -0x10_0000_0000_0000 <= k <= 0x10_0000_0000_0000,
        -0x2_0000_0000_0000_0000 <= v <= 0x2_0000_0000_0000_0000,
        det != 0,
        -0x6_0000_0000_0000_0000_0000_0000 <= det <= 0x6_0000_0000_0000_0000_0000_0000,
    ensures
        r == floor_ratio(k * v, det as int),
{
    let n: i128 = mul_within(k, v, Ghost(0x10_0000_0000_0000), Ghost(0x2_0000_0000_0000_0000));
    if det > 0 {
        div_floor(n, det)
    } else {
        div_floor(-n, -det)
    }
}

fn narrow(x: i128, y: i128, z: i128) -> (r: Option<Vec3>)
    ensures
        r is Some <==> (Vector { x: x as int, y: y as int, z: z as int }).fits(),
        r is Some ==> r->Some_0 == (Vector { x: x as int, y: y as int, z: z as int }).to_vec3(),
{
    if -0x8000_0000 <= x && x <= 0x7fff_ffff && -0x8000_0000 <= y && y <= 0x7fff_ffff
        && -0x8000_0000 <= z && z <= 0x7fff_ffff {
        Some(Vec3 { x: x as i32, y: y as i32, z: z as i32 })
    } else {
        None
    }
}

/// Fits a correction to the first six orientations.
pub fn fit_faces(o: &[Vec3], gravity: i32) -> (r: Option<AccelCorrection>)
    ensures
        r == face_fit(o@, gravity as int),
{
    if o.len() < MIN_ORIENTATIONS {
        return None;
    }
    let x = o[0].minus(o[1]);
    let y = o[2].minus(o[3]);
    let z = o[4].minus(o[5]);
    let r0 = Wide { x: x.x, y: y.x, z: z.x };
    let r1 = Wide { x: x.y, y: y.y, z: z.y };
    let r2 = Wide { x: x.z, y: y.z, z: z.z };
    assert(face_spans(o@) == (Matrix { r0: r0@, r1: r1@, r2: r2@ }));
    let det = triple_wide(&r0, &r1, &r2);
    if det == 0 {
        return None;
    }
    let c0 = cross_wide(&r1, &r2);
    let c1 = cross_wide(&r2, &r0);
    let c2 = cross_wide(&r0, &r1);
    let k: i128 = mul_within(
        2 * (gravity as i128),
        ONE as i128,
        Ghost(0x1_0000_0000),
        Ghost(1_000_000),
    );
    let s0 = narrow(ratio(k, c0.x, det), ratio(k, c1.x, det), ratio(k, c2.x, det));
    let s1 = narrow(ratio(k, c0.y, det), ratio(k, c1.y, det), ratio(k, c2.y, det));
    let s2 = narrow(ratio(k, c0.z, det), ratio(k, c1.z, det), ratio(k, c2.z, det));
    if s0.is_none() || s1.is_none() || s2.is_none() {
        return None;
    }
    let mut acc = Accumulator::new();
    let mut i: usize = 0;
    while i < MIN_ORIENTATIONS
        invariant
            i <= MIN_ORIENTATIONS <= o.len(),
            acc@ == o@.take(i as int),
        decreases MIN_ORIENTATIONS - i,
    {
        acc.push(o[i]);
        i = i + 1;
        assert(o@.take(i as int) =~= o@.take(i - 1).push(o@[i - 1]));
    }
    Some(
        AccelCorrection {
            bias: acc.mean(),
            scale: Mat3 { r0: s0.unwrap(), r1: s1.unwrap(), r2: s2.unwrap() },
        },
    )
}

fn check_gravity(c: &AccelCorrection, reading: Vec3, gravity: i32) -> (ok: bool)
    ensures
        ok == matches_gravity(*c, reading, gravity as int),
{
    if gravity <= 0 {
        return false;
    }
    let v = c.apply(reading).widen();
    let n2: i128 = dot_wide(&v, &v);
    let g: i128 = gravity as i128;
    let slack: i128 = g / (TOLERANCE_DIVISOR as i128);
    let low: i128 = mul_within(g - slack, g - slack, Ghost(0x1_0000_0000), Ghost(0x1_0000_0000));
    let high: i128 = mul_within(g + slack, g + slack, Ghost(0x1_0000_0000), Ghost(0x1_0000_0000));
    low <= n2 && n2 <= high
}

/// Whether the correction solves the problem that the orientations pose.
pub fn is_admissible(orientations: &[Vec3], gravity: i32, c: &AccelCorrection) -> (ok: bool)
    ensures
        ok == admissible(orientations@, gravity as int, *c),
{
    let det = c.scale.determinant();
    if -MIN_DETERMINANT < det && det < MIN_DETERMINANT {
        return false;
    }
    let mut k: usize = 0;
    while k < orientations.len()
        invariant
            k <= orientations.len(),
            !near_singular(*c),
            forall|j: int|
                0 <= j < k ==> matches_gravity(*c, #[trigger] orientations@[j], gravity as int),
        decreases orientations.len() - k,
    {
        if !check_gravity(c, orientations[k], gravity) {
            assert(!matches_gravity(*c, orientations@[k as int], gravity as int));
            return false;
        }
        k = k + 1;
    }
    true
}

/// Solves for the accelerometer correction: too few orientations are
/// insufficient; a fit that cannot be made or is not admissible has not
/// converged.
pub fn solve(orientations: &[Vec3], gravity: i32) -> (r: Result<AccelCorrection, CalibrationError>)
    ensures
        r == solved(orientations@, gravity as int),
{
    if orientations.len() < MIN_ORIENTATIONS {
        return Err(CalibrationError::InsufficientOrientations);
    }
    match fit_faces(orientations, gravity) {
        None => Err(CalibrationError::NonConvergent),
        Some(c) => {
            if is_admissible(orientations, gravity, &c) {
                Ok(c)
            } else {
                Err(CalibrationError::NonConvergent)
            }
        },
    }
}

/// Whatever the solver returns is regular and maps every orientation onto
/// the sphere of radius gravity, within the tolerance.
pub proof fn lemma_solved_is_admissible(orientations: Seq<Vec3>, gravity: int)
    requires
        solved(orientations, gravity) is Ok,
    ensures
        orientations.len() >= MIN_ORIENTATIONS,
        gravity > 0,
        solved(orientations, gravity)->Ok_0.is_regular(),
        admissible(orientations, gravity, solved(orientations, gravity)->Ok_0),
{
    let c = solved(orientations, gravity)->Ok_0;
    assert(matches_gravity(c, orientations[0], gravity));
}

/// What a sensor reads on the six faces, if its bias is `bias` and gravity
/// along the axes x, y and z adds `cx`, `cy` and `cz` to what it reads.
pub open spec fn face_readings(bias: Vec3, cx: Vec3, cy: Vec3, cz: Vec3) -> Seq<Vec3> {
    seq![
        bias@.plus(cx@).to_vec3(),
        bias@.minus(cx@).to_vec3(),
        bias@.plus(cy@).to_vec3(),
        bias@.minus(cy@).to_vec3(),
        bias@.plus(cz@).to_vec3(),
        bias@.minus(cz@).to_vec3(),
    ]
}

/// The sensor can read `bias + c` and `bias - c`.
pub open spec fn readable(bias: Vec3, c: Vec3) -> bool {
    bias@.plus(c@).fits() && bias@.minus(c@).fits()
}

/// The correction with the given bias and the gains on the diagonal.
pub open spec fn axis_correction(bias: Vec3, gains: Vec3) -> AccelCorrection {
    AccelCorrection {
        bias,
        scale: Mat3 {
            r0: Vec3 { x: gains.x, y: 0, z: 0 },
            r1: Vec3 { x: 0, y: gains.y, z: 0 },
            r2: Vec3 { x: 0, y: 0, z: gains.z },
        },
    }
}

/// A common positive factor of numerator and denominator leaves the quotient.
proof fn lemma_ratio_cancel(n: int, d: int, m: int)
    requires
        m > 0,
        d != 0,
    ensures
        m * d != 0,
        floor_ratio(m * n, m * d) == floor_ratio(n, d),
{
    if d > 0 {
        lemma_quotient_cancel(n, d, m);
    } else {
        lemma_quotient_cancel(-n, -d, m);
        assert(m * d < 0 && -(m * n) == m * (-n) && -(m * d) == m * (-d)) by (nonlinear_arith)
            requires
                m > 0,
                d < 0,
        ;
    }
}

proof fn lemma_quotient_cancel(n: int, d: int, m: int)
    requires
        m > 0,
        d > 0,
    ensures
        m * d > 0,
        (m * n) / (m * d) == n / d,
{
    lemma_fundamental_div_mod(n, d);
    lemma_mod_bound(n, d);
    let q = n / d;
    let r = n % d;
    assert(m * d > 0 && m * n == q * (m * d) + m * r && 0 <= m * r < m * d) by (nonlinear_arith)
        requires
            n == d * q + r,
            0 <= r < d,
            m > 0,
    ;
    lemma_fundamental_div_mod_converse(m * n, m * d, q, m * r);
}

/// Twice `k` times the inverse of twice a matrix is `k` times its inverse.
proof fn lemma_inverse_of_doubled(m: Matrix, k: int)
    requires
        m.det() != 0,
    ensures
        m.times(2).det() != 0,
        inverse_times(m.times(2), 2 * k) == inverse_times(m, k),
{
    lemma_doubled_matrix(m);
    let a = m.adjugate();
    let d = m.det();
    lemma_ratios_of_doubled(a.r0, k, d);
    lemma_ratios_of_doubled(a.r1, k, d);
    lemma_ratios_of_doubled(a.r2, k, d);
}

proof fn lemma_ratio_of_doubled(v: int, k: int, d: int)
    requires
        d != 0,
    ensures
        floor_ratio((2 * k) * (4 * v), 8 * d) == floor_ratio(k * v, d),
{
    assert((2 * k) * (4 * v) == 8 * (k * v)) by (nonlinear_arith);
    lemma_ratio_cancel(k * v, d, 8);
}

proof fn lemma_ratios_of_doubled(v: Vector, k: int, d: int)
    requires
        d != 0,
    ensures
        scaled_ratios(v.times(4), 2 * k, 8 * d) == scaled_ratios(v, k, d),
{
    lemma_ratio_of_doubled(v.x, k, d);
    lemma_ratio_of_doubled(v.y, k, d);
    lemma_ratio_of_doubled(v.z, k, d);
}

/// The sum of what a sensor reads on the six faces is six times its bias.
proof fn lemma_face_mean(bias: Vec3, cx: Vec3, cy: Vec3, cz: Vec3)
    requires
        readable(bias, cx),
        readable(bias, cy),
        readable(bias, cz),
    ensures
        mean(face_readings(bias, cx, cy, cz).take(MIN_ORIENTATIONS as int)).to_vec3() == bias,
{
    let o = face_readings(bias, cx, cy, cz);
    let s0 = Seq::<Vec3>::empty();
    let s1 = s0.push(o[0]);
    let s2 = s1.push(o[1]);
    let s3 = s2.push(o[2]);
    let s4 = s3.push(o[3]);
    let s5 = s4.push(o[4]);
    let s6 = s5.push(o[5]);
    lemma_sum_push(s0, o[0]);
    lemma_sum_push(s1, o[1]);
    lemma_sum_push(s2, o[2]);
    lemma_sum_push(s3, o[3]);
    lemma_sum_push(s4, o[4]);
    lemma_sum_push(s5, o[5]);
    assert(s6 =~= o.take(MIN_ORIENTATIONS as int));
    assert(sum(s6) == bias@.times(6));
    assert(mean(s6) == bias@);
}

/// For a sensor that distorts the true acceleration by the matrix with the
/// columns `cx`, `cy`, `cz` over gravity and adds a bias, the fit finds that
/// bias and, rounded down to millionths, the inverse of that matrix.
pub proof fn lemma_fit_inverts_distortion(bias: Vec3, cx: Vec3, cy: Vec3, cz: Vec3, gravity: i32)
    requires
        readable(bias, cx),
        readable(bias, cy),
        readable(bias, cz),
    ensures
        ({
            let m = Matrix::columns(cx@, cy@, cz@);
            let inverse = inverse_times(m, gravity * ONE);
            face_fit(face_readings(bias, cx, cy, cz), gravity as int) == if m.det() == 0
                || !inverse.fits() {
                None
            } else {
                Some(AccelCorrection { bias, scale: inverse.to_mat3() })
            }
        }),
{
    let o = face_readings(bias, cx, cy, cz);
    let m = Matrix::columns(cx@, cy@, cz@);
    assert(face_spans(o) == m.times(2));
    lemma_doubled_matrix(m);
    lemma_face_mean(bias, cx, cy, cz);
    if m.det() != 0 {
        lemma_inverse_of_doubled(m, gravity * ONE);
        assert(2 * gravity * ONE == 2 * (gravity * ONE)) by (nonlinear_arith);
    }
}

/// A correction that maps a reading exactly to a vector as long as gravity
/// matches gravity for it.
proof fn lemma_on_sphere(c: AccelCorrection, reading: Vec3, g: int, v: Vector)
    requires
        g > 0,
        v.fits(),
        c.scale@.apply(reading@.minus(c.bias@)) == v.times(ONE as int),
        v.dot(v) == g * g,
    ensures
        matches_gravity(c, reading, g),
{
    assert((ONE * v.x) / (ONE as int) == v.x && (ONE * v.y) / (ONE as int) == v.y && (ONE * v.z) / (
    ONE as int) == v.z) by (nonlinear_arith);
    assert(c.exact(reading@) == v);
    assert(c.corrected(reading)@ == v);
    let slack = g / TOLERANCE_DIVISOR as int;
    assert(0 <= slack <= g);
    assert((g - slack) * (g - slack) <= g * g <= (g + slack) * (g + slack)) by (nonlinear_arith)
        requires
            0 <= slack <= g,
    ;
}

/// Where a gain `s` turns the reading `h` of an axis into gravity, gravity
/// times the cofactor `m` over the determinant `h * m` is `s`.
proof fn lemma_gain(g: int, s: int, h: int, m: int, n: int, d: int)
    requires
        h > 0,
        m > 0,
        s >= 0,
        s * h == g * ONE,
        n == (g * ONE) * m,
        d == h * m,
    ensures
        d > 0,
        floor_ratio(n, d) == s,
{
    assert(d > 0 && n == s * d) by (nonlinear_arith)
        requires
            h > 0,
            m > 0,
            s * h == g * ONE,
            n == (g * ONE) * m,
            d == h * m,
    ;
    lemma_div_by_multiple(s, d);
}

/// The readings of a sensor with a known bias and known gains along its
/// axes, such that each gain turns what gravity adds to the reading of its
/// axis exactly into gravity, are solved with that bias and those gains.
pub proof fn lemma_recovers_bias_and_scale(bias: Vec3, gains: Vec3, half: Vec3, gravity: i32)
    requires
        gravity > 0,
        half.x > 0 && half.y > 0 && half.z > 0,
        gains.x * half.x == gravity * ONE,
        gains.y * half.y == gravity * ONE,
        gains.z * half.z == gravity * ONE,
        readable(bias, Vec3 { x: half.x, y: 0, z: 0 }),
        readable(bias, Vec3 { x: 0, y: half.y, z: 0 }),
        readable(bias, Vec3 { x: 0, y: 0, z: half.z }),
        !near_singular(axis_correction(bias, gains)),
    ensures
        solved(
            face_readings(
                bias,
                Vec3 { x: half.x, y: 0, z: 0 },
                Vec3 { x: 0, y: half.y, z: 0 },
                Vec3 { x: 0, y: 0, z: half.z },
            ),
            gravity as int,
        ) == Ok::<AccelCorrection, CalibrationError>(axis_correction(bias, gains)),
{
    let cx = Vec3 { x: half.x, y: 0, z: 0 };
    let cy = Vec3 { x: 0, y: half.y, z: 0 };
    let cz = Vec3 { x: 0, y: 0, z: half.z };
    let o = face_readings(bias, cx, cy, cz);
    let c = axis_correction(bias, gains);
    let g = gravity as int;
    let (hx, hy, hz) = (half.x as int, half.y as int, half.z as int);
    let (sx, sy, sz) = (gains.x as int, gains.y as int, gains.z as int);
    assert(sx >= 0 && sy >= 0 && sz >= 0) by (nonlinear_arith)
        requires
            sx * hx == g * ONE,
            sy * hy == g * ONE,
            sz * hz == g * ONE,
            hx > 0 && hy > 0 && hz > 0,
            g > 0,
    ;

    // the fit
    let m = Matrix::columns(cx@, cy@, cz@);
    assert(m == Matrix::diagonal(hx, hy, hz));
    lemma_diagonal_det(hx, hy, hz);
    lemma_diagonal_adjugate(hx, hy, hz);
    let k = g * ONE;
    let det = m.det();
    let mx = hy * hz;
    let my = hz * hx;
    let mz = hx * hy;
    assert(mx > 0 && my > 0 && mz > 0 && det == hx * mx && det == hy * my && det == hz * mz)
        by (nonlinear_arith)
        requires
            hx > 0 && hy > 0 && hz > 0,
            mx == hy * hz,
            my == hz * hx,
            mz == hx * hy,
            det == hx * (hy * hz),
    ;
    lemma_gain(g, sx, hx, mx, k * mx, det);
    lemma_gain(g, sy, hy, my, k * my, det);
    lemma_gain(g, sz, hz, mz, k * mz, det);
    assert(k * 0 == 0);
    assert(0int / det == 0) by (nonlinear_arith)
        requires
            det > 0,
    ;
    assert(inverse_times(m, k) == Matrix::diagonal(sx, sy, sz));
    lemma_fit_inverts_distortion(bias, cx, cy, cz, gravity);
    assert(face_fit(o, g) == Some(c));

    // the residuals
    assert(sx * 0 == 0 && sy * 0 == 0 && sz * 0 == 0 && 0 * hx == 0 && 0 * hy == 0 && 0 * hz == 0
        && 0 * (-hx) == 0 && 0 * (-hy) == 0 && 0 * (-hz) == 0 && ONE * 0 == 0 && sx * (-hx) == ONE
        * (-g) && sy * (-hy) == ONE * (-g) && sz * (-hz) == ONE * (-g) && sx * hx == ONE * g && sy
        * hy == ONE * g && sz * hz == ONE * g && g * g == (-g) * (-g) && 0 * 0 == 0)
        by (nonlinear_arith)
        requires
            sx * hx == g * ONE,
            sy * hy == g * ONE,
            sz * hz == g * ONE,
    ;
    lemma_on_sphere(c, o[0], g, Vector { x: g, y: 0, z: 0 });
    lemma_on_sphere(c, o[1], g, Vector { x: -g, y: 0, z: 0 });
    lemma_on_sphere(c, o[2], g, Vector { x: 0, y: g, z: 0 });
    lemma_on_sphere(c, o[3], g, Vector { x: 0, y: -g, z: 0 });
    lemma_on_sphere(c, o[4], g, Vector { x: 0, y: 0, z: g });
    lemma_on_sphere(c, o[5], g, Vector { x: 0, y: 0, z: -g });
}

} // verus!
