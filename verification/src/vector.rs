//! Three-component vectors and 3×3 matrices, as mathematical values and as
//! their fixed-point carriers.

use vstd::prelude::*;
use crate::fixed::{clamp, fits, mul_within};

verus! {

/// A vector of three integers: the mathematical value of a [`Vec3`], and the
/// exact result of arithmetic on such values.
pub struct Vector {
    pub x: int,
    pub y: int,
    pub z: int,
}

impl Vector {
    pub open spec fn zero() -> Vector {
        Vector { x: 0, y: 0, z: 0 }
    }

    pub open spec fn plus(self, o: Vector) -> Vector {
        Vector { x: self.x + o.x, y: self.y + o.y, z: self.z + o.z }
    }

    pub open spec fn minus(self, o: Vector) -> Vector {
        Vector { x: self.x - o.x, y: self.y - o.y, z: self.z - o.z }
    }

    pub open spec fn dot(self, o: Vector) -> int {
        self.x * o.x + self.y * o.y + self.z * o.z
    }

    pub open spec fn cross(self, o: Vector) -> Vector {
        Vector {
            x: self.y * o.z - self.z * o.y,
            y: self.z * o.x - self.x * o.z,
            z: self.x * o.y - self.y * o.x,
        }
    }

    /// `k` times each component.
    pub open spec fn times(self, k: int) -> Vector {
        Vector { x: k * self.x, y: k * self.y, z: k * self.z }
    }

    /// Each component divided by `d`, rounded towards minus infinity.
    pub open spec fn div(self, d: int) -> Vector {
        Vector { x: self.x / d, y: self.y / d, z: self.z / d }
    }

    /// Each component brought into the range of an `i32`.
    pub open spec fn clamped(self) -> Vector {
        Vector { x: clamp(self.x), y: clamp(self.y), z: clamp(self.z) }
    }

    /// Whether every component is the value of some `i32`.
    pub open spec fn fits(self) -> bool {
        fits(self.x) && fits(self.y) && fits(self.z)
    }

    /// Whether no component is further from zero than `limit`.
    pub open spec fn within(self, limit: int) -> bool {
        &&& -limit <= self.x <= limit
        &&& -limit <= self.y <= limit
        &&& -limit <= self.z <= limit
    }

    /// The carrier of a vector that fits.
    pub open spec fn to_vec3(self) -> Vec3 {
        Vec3 { x: self.x as i32, y: self.y as i32, z: self.z as i32 }
    }
}

/// A fixed-point vector: each component counts millionths of the unit.
#[derive(Clone, Copy, Debug, PartialEq, Eq, Structural)]
pub struct Vec3 {
    pub x: i32,
    pub y: i32,
    pub z: i32,
}

impl View for Vec3 {
    type V = Vector;

    open spec fn view(&self) -> Vector {
        Vector { x: self.x as int, y: self.y as int, z: self.z as int }
    }
}

/// An exact intermediate result, too wide for a carrier.
pub(crate) struct Wide {
    pub(crate) x: i128,
    pub(crate) y: i128,
    pub(crate) z: i128,
}

impl Wide {
    pub(crate) open spec fn view(&self) -> Vector {
        Vector { x: self.x as int, y: self.y as int, z: self.z as int }
    }
}

impl Vec3 {
    pub fn new(x: i32, y: i32, z: i32) -> (v: Vec3)
        ensures
            v == (Vec3 { x, y, z }),
    {
        Vec3 { x, y, z }
    }

    pub fn zero() -> (v: Vec3)
        ensures
            v@ == Vector::zero(),
    {
        Vec3 { x: 0, y: 0, z: 0 }
    }

    /// The exact value, widened.
    pub(crate) fn widen(self) -> (w: Wide)
        ensures
            w@ == self@,
            w@.within(0x8000_0000),
    {
        Wide { x: self.x as i128, y: self.y as i128, z: self.z as i128 }
    }

    /// The exact difference, which never leaves 33 bits.
    pub(crate) fn minus(self, o: Vec3) -> (d: Wide)
        ensures
            d@ == self@.minus(o@),
            d@.within(0x1_0000_0000),
    {
        Wide {
            x: self.x as i128 - o.x as i128,
            y: self.y as i128 - o.y as i128,
            z: self.z as i128 - o.z as i128,
        }
    }
}

/// The exact dot product of two vectors of at most 33 bits.
pub(crate) fn dot_wide(a: &Wide, b: &Wide) -> (r: i128)
    requires
        a@.within(0x1_0000_0000),
        b@.within(0x1_0000_0000),
    ensures
        r == a@.dot(b@),
        -0x3_0000_0000_0000_0000 <= r <= 0x3_0000_0000_0000_0000,
{
    let x: i128 = mul_within(a.x, b.x, Ghost(0x1_0000_0000), Ghost(0x1_0000_0000));
    let y: i128 = mul_within(a.y, b.y, Ghost(0x1_0000_0000), Ghost(0x1_0000_0000));
    let z: i128 = mul_within(a.z, b.z, Ghost(0x1_0000_0000), Ghost(0x1_0000_0000));
    x + y + z
}

/// The exact cross product of two vectors of at most 33 bits.
pub(crate) fn cross_wide(a: &Wide, b: &Wide) -> (r: Wide)
    requires
        a@.within(0x1_0000_0000),
        b@.within(0x1_0000_0000),
    ensures
        r@ == a@.cross(b@),
        r@.within(0x2_0000_0000_0000_0000),
{
    let yz: i128 = mul_within(a.y, b.z, Ghost(0x1_0000_0000), Ghost(0x1_0000_0000));
    let zy: i128 = mul_within(a.z, b.y, Ghost(0x1_0000_0000), Ghost(0x1_0000_0000));
    let zx: i128 = mul_within(a.z, b.x, Ghost(0x1_0000_0000), Ghost(0x1_0000_0000));
    let xz: i128 = mul_within(a.x, b.z, Ghost(0x1_0000_0000), Ghost(0x1_0000_0000));
    let xy: i128 = mul_within(a.x, b.y, Ghost(0x1_0000_0000), Ghost(0x1_0000_0000));
    let yx: i128 = mul_within(a.y, b.x, Ghost(0x1_0000_0000), Ghost(0x1_0000_0000));
    Wide { x: yz - zy, y: zx - xz, z: xy - yx }
}

/// The exact triple product `a · (b × c)` of three vectors of at most 33 bits.
pub(crate) fn triple_wide(a: &Wide, b: &Wide, c: &Wide) -> (r: i128)
    requires
        a@.within(0x1_0000_0000),
        b@.within(0x1_0000_0000),
        c@.within(0x1_0000_0000),
    ensures
        r == a@.dot(b@.cross(c@)),
        -0x6_0000_0000_0000_0000_0000_0000 <= r <= 0x6_0000_0000_0000_0000_0000_0000,
{
    let bc = cross_wide(b, c);
    let x: i128 = mul_within(a.x, bc.x, Ghost(0x1_0000_0000), Ghost(0x2_0000_0000_0000_0000));
    let y: i128 = mul_within(a.y, bc.y, Ghost(0x1_0000_0000), Ghost(0x2_0000_0000_0000_0000));
    let z: i128 = mul_within(a.z, bc.z, Ghost(0x1_0000_0000), Ghost(0x2_0000_0000_0000_0000));
    x + y + z
}

/// A carrier holds exactly the vector it stands for.
pub proof fn lemma_vec3_view(a: Vec3, b: Vec3)
    ensures
        a@.fits(),
        a@.to_vec3() == a,
        a@.clamped() == a@,
        (a@ == b@) <==> (a == b),
{
}

/// A vector that fits is the value of its carrier.
pub proof fn lemma_vector_carrier(v: Vector)
    requires
        v.fits(),
    ensures
        v.to_vec3()@ == v,
{
}

/// A 3×3 matrix of integers, by rows.
pub struct Matrix {
    pub r0: Vector,
    pub r1: Vector,
    pub r2: Vector,
}

impl Matrix {
    /// The matrix with `unit` on the diagonal and zero elsewhere.
    pub open spec fn diagonal(x: int, y: int, z: int) -> Matrix {
        Matrix {
            r0: Vector { x, y: 0, z: 0 },
            r1: Vector { x: 0, y, z: 0 },
            r2: Vector { x: 0, y: 0, z },
        }
    }

    /// The matrix with the given columns.
    pub open spec fn columns(x: Vector, y: Vector, z: Vector) -> Matrix {
        Matrix {
            r0: Vector { x: x.x, y: y.x, z: z.x },
            r1: Vector { x: x.y, y: y.y, z: z.y },
            r2: Vector { x: x.z, y: y.z, z: z.z },
        }
    }

    /// `k` times each entry.
    pub open spec fn times(self, k: int) -> Matrix {
        Matrix { r0: self.r0.times(k), r1: self.r1.times(k), r2: self.r2.times(k) }
    }

    /// The matrix-vector product.
    pub open spec fn apply(self, v: Vector) -> Vector {
        Vector { x: self.r0.dot(v), y: self.r1.dot(v), z: self.r2.dot(v) }
    }

    /// The determinant: the triple product of the rows.
    pub open spec fn det(self) -> int {
        self.r0.dot(self.r1.cross(self.r2))
    }

    /// The adjugate: the matrix whose product with this one is the
    /// determinant times the unit matrix.  Its columns are the cross
    /// products of the rows, taken in cyclic order.
    pub open spec fn adjugate(self) -> Matrix {
        let c0 = self.r1.cross(self.r2);
        let c1 = self.r2.cross(self.r0);
        let c2 = self.r0.cross(self.r1);
        Matrix {
            r0: Vector { x: c0.x, y: c1.x, z: c2.x },
            r1: Vector { x: c0.y, y: c1.y, z: c2.y },
            r2: Vector { x: c0.z, y: c1.z, z: c2.z },
        }
    }

    /// Whether every entry is the value of some `i32`.
    pub open spec fn fits(self) -> bool {
        self.r0.fits() && self.r1.fits() && self.r2.fits()
    }

    /// The carrier of a matrix that fits.
    pub open spec fn to_mat3(self) -> Mat3 {
        Mat3 { r0: self.r0.to_vec3(), r1: self.r1.to_vec3(), r2: self.r2.to_vec3() }
    }
}

/// A fixed-point matrix, by rows: each entry counts millionths.
#[derive(Clone, Copy, Debug, PartialEq, Eq, Structural)]
pub struct Mat3 {
    pub r0: Vec3,
    pub r1: Vec3,
    pub r2: Vec3,
}

impl View for Mat3 {
    type V = Matrix;

    open spec fn view(&self) -> Matrix {
        Matrix { r0: self.r0@, r1: self.r1@, r2: self.r2@ }
    }
}

impl Mat3 {
    pub fn new(r0: Vec3, r1: Vec3, r2: Vec3) -> (m: Mat3)
        ensures
            m == (Mat3 { r0, r1, r2 }),
    {
        Mat3 { r0, r1, r2 }
    }

    /// The matrix with `unit` on the diagonal and zero elsewhere.
    pub fn diagonal(unit: i32) -> (m: Mat3)
        ensures
            m@ == Matrix::diagonal(unit as int, unit as int, unit as int),
    {
        Mat3 {
            r0: Vec3 { x: unit, y: 0, z: 0 },
            r1: Vec3 { x: 0, y: unit, z: 0 },
            r2: Vec3 { x: 0, y: 0, z: unit },
        }
    }

    /// The determinant of the stored integers (in units of `ONE` cubed).
    pub fn determinant(&self) -> (d: i128)
        ensures
            d == self@.det(),
    {
        triple_wide(&self.r0.widen(), &self.r1.widen(), &self.r2.widen())
    }
}

/// The determinant of a diagonal matrix is the product of its diagonal.
pub proof fn lemma_diagonal_det(x: int, y: int, z: int)
    ensures
        Matrix::diagonal(x, y, z).det() == x * (y * z),
{
    let m = Matrix::diagonal(x, y, z);
    let c = m.r1.cross(m.r2);
    assert(c.x == y * z) by (nonlinear_arith)
        requires
            c.x == y * z - 0 * 0,
    ;
    assert(m.det() == x * (y * z)) by (nonlinear_arith)
        requires
            m.det() == x * c.x + 0 * c.y + 0 * c.z,
            c.x == y * z,
    ;
}

/// The product of two doubles is four times the product.
proof fn lemma_doubled_product(x: int, y: int)
    ensures
        (2 * x) * (2 * y) == 4 * (x * y),
{
    assert((2 * x) * (2 * y) == 4 * (x * y)) by (nonlinear_arith);
}

/// The cross product of two doubled vectors is four times the cross product.
pub proof fn lemma_doubled_cross(a: Vector, b: Vector)
    ensures
        a.times(2).cross(b.times(2)) == a.cross(b).times(4),
{
    lemma_doubled_product(a.y, b.z);
    lemma_doubled_product(a.z, b.y);
    lemma_doubled_product(a.z, b.x);
    lemma_doubled_product(a.x, b.z);
    lemma_doubled_product(a.x, b.y);
    lemma_doubled_product(a.y, b.x);
}

/// Twice a matrix has four times its adjugate and eight times its
/// determinant.
pub proof fn lemma_doubled_matrix(m: Matrix)
    ensures
        m.times(2).adjugate() == m.adjugate().times(4),
        m.times(2).det() == 8 * m.det(),
{
    lemma_doubled_cross(m.r1, m.r2);
    lemma_doubled_cross(m.r2, m.r0);
    lemma_doubled_cross(m.r0, m.r1);
    let c = m.r1.cross(m.r2);
    assert((2 * m.r0.x) * (4 * c.x) == 8 * (m.r0.x * c.x)) by (nonlinear_arith);
    assert((2 * m.r0.y) * (4 * c.y) == 8 * (m.r0.y * c.y)) by (nonlinear_arith);
    assert((2 * m.r0.z) * (4 * c.z) == 8 * (m.r0.z * c.z)) by (nonlinear_arith);
}

/// The adjugate of a diagonal matrix is diagonal: each entry is the product
/// of the other two.
pub proof fn lemma_diagonal_adjugate(x: int, y: int, z: int)
    ensures
        Matrix::diagonal(x, y, z).adjugate() == Matrix::diagonal(y * z, z * x, x * y),
{
    let m = Matrix::diagonal(x, y, z);
    let c0 = m.r1.cross(m.r2);
    let c1 = m.r2.cross(m.r0);
    let c2 = m.r0.cross(m.r1);
    assert(c0 == (Vector { x: y * z, y: 0, z: 0 })) by (nonlinear_arith)
        requires
            c0 == (Vector { x: y * z - 0 * 0, y: 0 * 0 - 0 * z, z: 0 * 0 - y * 0 }),
    ;
    assert(c1 == (Vector { x: 0, y: z * x, z: 0 })) by (nonlinear_arith)
        requires
            c1 == (Vector { x: 0 * 0 - z * 0, y: z * x - 0 * 0, z: 0 * 0 - 0 * x }),
    ;
    assert(c2 == (Vector { x: 0, y: 0, z: x * y })) by (nonlinear_arith)
        requires
            c2 == (Vector { x: 0 * 0 - 0 * y, y: 0 * 0 - x * 0, z: x * y - 0 * 0 }),
    ;
}

} // verus!
