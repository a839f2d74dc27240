//! The calibration model and the correction filter that applies it.

use vstd::prelude::*;
use crate::fixed::{div_floor, lemma_floor_brackets, saturate, ONE};
use crate::vector::{dot_wide, lemma_diagonal_det, lemma_vec3_view, Mat3, Vec3, Vector};

verus! {

/// Standard gravity, 9.80665 m/s², in millionths.
pub const STANDARD_GRAVITY: i32 = 9_806_650;

/// One reading of the sensor: angular velocity in rad/s and linear
/// acceleration in m/s², both in millionths.
#[derive(Clone, Copy, Debug, PartialEq, Eq, Structural)]
pub struct Sample {
    pub angular_velocity: Vec3,
    pub linear_acceleration: Vec3,
}

impl Sample {
    pub fn new(angular_velocity: Vec3, linear_acceleration: Vec3) -> (s: Sample)
        ensures
            s == (Sample { angular_velocity, linear_acceleration }),
    {
        Sample { angular_velocity, linear_acceleration }
    }
}

/// The affine correction of the accelerometer: a bias, and a matrix of scale
/// and cross-axis gains in millionths.
#[derive(Clone, Copy, Debug, PartialEq, Eq, Structural)]
pub struct AccelCorrection {
    pub bias: Vec3,
    pub scale: Mat3,
}

impl AccelCorrection {
    /// `scale · (raw − bias)`, brought back to millionths by a floor division.
    pub open spec fn exact(self, raw: Vector) -> Vector {
        self.scale@.apply(raw.minus(self.bias@)).div(ONE as int)
    }

    /// The corrected reading: the exact value, saturated to the carrier.
    pub open spec fn corrected(self, raw: Vec3) -> Vec3 {
        self.exact(raw@).clamped().to_vec3()
    }

    /// The matrix is not degenerate.
    pub open spec fn is_regular(self) -> bool {
        self.scale@.det() != 0
    }

    /// Zero bias and unit scale.
    pub open spec fn identity_spec() -> AccelCorrection {
        AccelCorrection {
            bias: Vec3 { x: 0, y: 0, z: 0 },
            scale: Mat3 {
                r0: Vec3 { x: ONE, y: 0, z: 0 },
                r1: Vec3 { x: 0, y: ONE, z: 0 },
                r2: Vec3 { x: 0, y: 0, z: ONE },
            },
        }
    }

    #[verifier::when_used_as_spec(identity_spec)]
    pub fn identity() -> (c: AccelCorrection)
        ensures
            c == AccelCorrection::identity_spec(),
    {
        AccelCorrection { bias: Vec3::zero(), scale: Mat3::diagonal(ONE) }
    }

    /// Corrects one accelerometer reading.
    pub fn apply(&self, raw: Vec3) -> (out: Vec3)
        ensures
            out == self.corrected(raw),
            out@ == self.exact(raw@).clamped(),
    {
        let d = raw.minus(self.bias);
        let x: i128 = div_floor(dot_wide(&self.scale.r0.widen(), &d), ONE as i128);
        let y: i128 = div_floor(dot_wide(&self.scale.r1.widen(), &d), ONE as i128);
        let z: i128 = div_floor(dot_wide(&self.scale.r2.widen(), &d), ONE as i128);
        Vec3 { x: saturate(x), y: saturate(y), z: saturate(z) }
    }
}

/// Everything that is known about one sensor: the bias of its gyroscope, the
/// correction of its accelerometer, and the gravity it was calibrated against.
#[derive(Clone, Copy, Debug, PartialEq, Eq, Structural)]
pub struct CalibrationModel {
    pub gyro_bias: Vec3,
    pub accel: AccelCorrection,
    pub gravity: i32,
}

impl CalibrationModel {
    /// Gravity is above zero and the accelerometer matrix is not degenerate.
    pub open spec fn wf(self) -> bool {
        self.gravity > 0 && self.accel.is_regular()
    }

    /// The model of a sensor of which nothing is known yet.
    pub open spec fn uncalibrated_spec(gravity: i32) -> CalibrationModel {
        CalibrationModel {
            gyro_bias: Vec3 { x: 0, y: 0, z: 0 },
            accel: AccelCorrection::identity_spec(),
            gravity,
        }
    }

    #[verifier::when_used_as_spec(uncalibrated_spec)]
    pub fn uncalibrated(gravity: i32) -> (m: CalibrationModel)
        ensures
            m == CalibrationModel::uncalibrated_spec(gravity),
            gravity > 0 ==> m.wf(),
    {
        proof {
            lemma_identity_regular();
        }
        CalibrationModel {
            gyro_bias: Vec3::zero(),
            accel: AccelCorrection::identity(),
            gravity,
        }
    }

    /// Whether the invariants of a model hold.
    pub fn is_valid(&self) -> (ok: bool)
        ensures
            ok == self.wf(),
    {
        self.gravity > 0 && self.accel.scale.determinant() != 0
    }

    /// The corrected sample: the gyroscope bias subtracted, the accelerometer
    /// correction applied, both saturated to the carrier.
    pub open spec fn corrected(self, raw: Sample) -> Sample {
        Sample {
            angular_velocity: raw.angular_velocity@.minus(self.gyro_bias@).clamped().to_vec3(),
            linear_acceleration: self.accel.corrected(raw.linear_acceleration),
        }
    }

    /// The correction filter: turns one raw sample into one corrected sample.
    pub fn correct(&self, raw: Sample) -> (out: Sample)
        ensures
            out == self.corrected(raw),
            out.angular_velocity@ == raw.angular_velocity@.minus(self.gyro_bias@).clamped(),
            out.linear_acceleration@ == self.accel.exact(raw.linear_acceleration@).clamped(),
    {
        let d = raw.angular_velocity.minus(self.gyro_bias);
        Sample {
            angular_velocity: Vec3 { x: saturate(d.x), y: saturate(d.y), z: saturate(d.z) },
            linear_acceleration: self.accel.apply(raw.linear_acceleration),
        }
    }
}

impl Default for CalibrationModel {
    fn default() -> (m: CalibrationModel)
        ensures
            m == CalibrationModel::uncalibrated_spec(STANDARD_GRAVITY),
            m.wf(),
    {
        CalibrationModel::uncalibrated(STANDARD_GRAVITY)
    }
}

/// The unit correction is not degenerate.
pub proof fn lemma_identity_regular()
    ensures
        AccelCorrection::identity_spec().is_regular(),
{
    lemma_diagonal_det(ONE as int, ONE as int, ONE as int);
    assert(ONE * (ONE * ONE) != 0) by (nonlinear_arith);
}

/// Wherever the exact values can be carried, the corrected sample is exactly
/// `raw_gyro − gyro_bias` and `scale · (raw_accel − accel_bias)`.
pub proof fn lemma_correction_exact(model: CalibrationModel, raw: Sample)
    requires
        raw.angular_velocity@.minus(model.gyro_bias@).fits(),
        model.accel.exact(raw.linear_acceleration@).fits(),
    ensures
        model.corrected(raw).angular_velocity@ == raw.angular_velocity@.minus(model.gyro_bias@),
        model.corrected(raw).linear_acceleration@ == model.accel.scale@.apply(
            raw.linear_acceleration@.minus(model.accel.bias@),
        ).div(ONE as int),
{
}

/// The corrected acceleration misses `scale · (raw − bias)` by less than one
/// millionth, in each component, before it is saturated.
pub proof fn lemma_correction_error(c: AccelCorrection, raw: Vec3)
    ensures
        ({
            let d = raw@.minus(c.bias@);
            let out = c.exact(raw@);
            &&& ONE * out.x <= c.scale@.r0.dot(d) < ONE * (out.x + 1)
            &&& ONE * out.y <= c.scale@.r1.dot(d) < ONE * (out.y + 1)
            &&& ONE * out.z <= c.scale@.r2.dot(d) < ONE * (out.z + 1)
        }),
{
    let d = raw@.minus(c.bias@);
    lemma_floor_brackets(c.scale@.r0.dot(d), ONE as int);
    lemma_floor_brackets(c.scale@.r1.dot(d), ONE as int);
    lemma_floor_brackets(c.scale@.r2.dot(d), ONE as int);
}

/// The unit correction hands every accelerometer reading back unchanged.
pub proof fn lemma_identity_correction(raw: Vec3)
    ensures
        AccelCorrection::identity_spec().corrected(raw) == raw,
{
    let c = AccelCorrection::identity_spec();
    let d = raw@.minus(c.bias@);
    assert(d == raw@);
    assert(c.scale@.apply(d).x == ONE * raw.x) by (nonlinear_arith)
        requires
            c.scale@.apply(d).x == ONE * d.x + 0 * d.y + 0 * d.z,
            d.x == raw.x,
    ;
    assert(c.scale@.apply(d).y == ONE * raw.y) by (nonlinear_arith)
        requires
            c.scale@.apply(d).y == 0 * d.x + ONE * d.y + 0 * d.z,
            d.y == raw.y,
    ;
    assert(c.scale@.apply(d).z == ONE * raw.z) by (nonlinear_arith)
        requires
            c.scale@.apply(d).z == 0 * d.x + 0 * d.y + ONE * d.z,
            d.z == raw.z,
    ;
    assert((ONE * raw.x) / (ONE as int) == raw.x) by (nonlinear_arith);
    assert((ONE * raw.y) / (ONE as int) == raw.y) by (nonlinear_arith);
    assert((ONE * raw.z) / (ONE as int) == raw.z) by (nonlinear_arith);
    lemma_vec3_view(raw, raw);
}

/// A model without gyroscope bias and with the unit correction hands every
/// sample back unchanged.
pub proof fn lemma_uncalibrated_passes(gravity: i32, raw: Sample)
    ensures
        CalibrationModel::uncalibrated_spec(gravity).corrected(raw) == raw,
{
    lemma_identity_correction(raw.linear_acceleration);
    lemma_vec3_view(raw.angular_velocity, raw.angular_velocity);
}

} // verus!
