//! Four-component vectors and four-by-four matrices.

use crate::fixed::div_floor;
use crate::fixed::floor_quot;
use crate::fixed::lemma_floor_quot_unique;
use crate::fixed::saturate;
use crate::fixed::wide_product;
use crate::fixed::Fixed;
use vstd::prelude::*;
use vstd::std_specs::ops::MulSpecImpl;

verus! {

/// A homogeneous point or direction.
#[derive(Clone, Copy, Debug, PartialEq, Eq, Structural)]
pub struct Vector {
    pub x: Fixed,
    pub y: Fixed,
    pub z: Fixed,
    pub w: Fixed,
}

/// A four-by-four matrix stored row by row.
#[derive(Clone, Copy, Debug)]
pub struct Matrix(pub [Fixed; 16]);

impl View for Matrix {
    type V = Seq<Fixed>;

    /// The sixteen entries, row by row.
    open spec fn view(&self) -> Seq<Fixed> {
        self.0@
    }
}

/// The dot product over all four components: the four products are summed
/// exactly, and the sum is rounded toward minus infinity and saturated.
pub open spec fn dot_spec(u: Vector, v: Vector) -> Fixed {
    Fixed::of(floor_quot(u.x@ * v.x@ + u.y@ * v.y@ + u.z@ * v.z@ + u.w@ * v.w@, 65536))
}

/// The component-wise saturating difference `u - v`.
pub open spec fn difference(u: Vector, v: Vector) -> Vector {
    Vector { x: u.x.minus(v.x), y: u.y.minus(v.y), z: u.z.minus(v.z), w: u.w.minus(v.w) }
}

/// Row `i` of a matrix.
pub open spec fn row_spec(m: Seq<Fixed>, i: int) -> Vector {
    Vector { x: m[4 * i], y: m[4 * i + 1], z: m[4 * i + 2], w: m[4 * i + 3] }
}

/// Column `i` of a matrix.
pub open spec fn col_spec(m: Seq<Fixed>, i: int) -> Vector {
    Vector { x: m[i], y: m[i + 4], z: m[i + 8], w: m[i + 12] }
}

/// The matrix applied to a vector: component `i` of the result is row `i`
/// dotted with `v`.
pub open spec fn apply_spec(m: Seq<Fixed>, v: Vector) -> Vector {
    Vector {
        x: dot_spec(row_spec(m, 0), v),
        y: dot_spec(row_spec(m, 1), v),
        z: dot_spec(row_spec(m, 2), v),
        w: dot_spec(row_spec(m, 3), v),
    }
}

/// The matrix product `a * b`: the entry in row `j` and column `i` is row `j`
/// of `a` dotted with column `i` of `b`.
pub open spec fn product_spec(a: Seq<Fixed>, b: Seq<Fixed>) -> Seq<Fixed> {
    Seq::new(16, |k: int| dot_spec(row_spec(a, k / 4), col_spec(b, k % 4)))
}

/// The entries of the identity matrix.
pub open spec fn identity_spec() -> Seq<Fixed> {
    Seq::new(16, |k: int| if k / 4 == k % 4 { Fixed::of(65536) } else { Fixed::of(0) })
}

/// The entries of the translation by `pos`: the identity with `pos` as its
/// last column.
pub open spec fn translation_spec(pos: Vector) -> Seq<Fixed> {
    seq![
        Fixed::of(65536),
        Fixed::of(0),
        Fixed::of(0),
        pos.x,
        Fixed::of(0),
        Fixed::of(65536),
        Fixed::of(0),
        pos.y,
        Fixed::of(0),
        Fixed::of(0),
        Fixed::of(65536),
        pos.z,
        Fixed::of(0),
        Fixed::of(0),
        Fixed::of(0),
        pos.w,
    ]
}

/// The entries of the scaling by `scale`: zero but for `scale` on the
/// diagonal.
pub open spec fn scaling_spec(scale: Vector) -> Seq<Fixed> {
    seq![
        scale.x,
        Fixed::of(0),
        Fixed::of(0),
        Fixed::of(0),
        Fixed::of(0),
        scale.y,
        Fixed::of(0),
        Fixed::of(0),
        Fixed::of(0),
        Fixed::of(0),
        scale.z,
        Fixed::of(0),
        Fixed::of(0),
        Fixed::of(0),
        Fixed::of(0),
        scale.w,
    ]
}

impl Vector {
    /// The point `(x, y, z)`, with `w` equal to one.
    pub fn new(x: Fixed, y: Fixed, z: Fixed) -> (v: Vector)
        ensures
            v == (Vector { x, y, z, w: Fixed::of(65536) }),
    {
        Vector { x, y, z, w: Fixed::one() }
    }

    /// The vector whose four components are zero.
    pub fn zero() -> (v: Vector)
        ensures
            v == (Vector { x: Fixed::of(0), y: Fixed::of(0), z: Fixed::of(0), w: Fixed::of(0) }),
    {
        Vector { x: Fixed::zero(), y: Fixed::zero(), z: Fixed::zero(), w: Fixed::zero() }
    }

    /// Component `idx` in the order `x, y, z, w`, counting from zero; `None`
    /// exactly when `idx` is not below four.
    pub fn nth(&self, idx: usize) -> (c: Option<Fixed>)
        ensures
            c == match idx {
                0 => Some(self.x),
                1 => Some(self.y),
                2 => Some(self.z),
                3 => Some(self.w),
                _ => None,
            },
    {
        match idx {
            0 => Some(self.x),
            1 => Some(self.y),
            2 => Some(self.z),
            3 => Some(self.w),
            _ => None,
        }
    }

    /// The `x` component.
    pub fn x(&self) -> (c: Fixed)
        ensures
            c == self.x,
    {
        self.x
    }

    /// The `y` component.
    pub fn y(&self) -> (c: Fixed)
        ensures
            c == self.y,
    {
        self.y
    }

    /// The `z` component.
    pub fn z(&self) -> (c: Fixed)
        ensures
            c == self.z,
    {
        self.z
    }

    /// The `w` component.
    pub fn w(&self) -> (c: Fixed)
        ensures
            c == self.w,
    {
        self.w
    }

    /// The dot product over all four components.
    pub fn dot(&self, vec: &Vector) -> (d: Fixed)
        ensures
            d == dot_spec(*self, *vec),
    {
        let sum: i128 = wide_product(self.x.raw, vec.x.raw) + wide_product(self.y.raw, vec.y.raw)
            + wide_product(self.z.raw, vec.z.raw) + wide_product(self.w.raw, vec.w.raw);
        Fixed::from_raw(saturate(div_floor(sum, 65536)))
    }

    /// The component-wise difference `self - vec`, over all four components.
    pub fn sub(&self, vec: &Vector) -> (d: Vector)
        ensures
            d == difference(*self, *vec),
    {
        Vector {
            x: self.x().sub(&vec.x()),
            y: self.y().sub(&vec.y()),
            z: self.z().sub(&vec.z()),
            w: self.w().sub(&vec.w()),
        }
    }
}

/// A vector minus itself is orthogonal to every vector.
pub proof fn lemma_dot_of_self_difference(u: Vector, v: Vector)
    ensures
        dot_spec(difference(u, u), v)@ == 0,
{
    let d = difference(u, u);
    assert(d.x@ * v.x@ + d.y@ * v.y@ + d.z@ * v.z@ + d.w@ * v.w@ == 0) by (nonlinear_arith)
        requires
            d.x@ == 0 && d.y@ == 0 && d.z@ == 0 && d.w@ == 0,
    ;
}

/// The dot product of `v` with a row whose entries are zero or one: the sum
/// of the components of `v` that the row selects, saturated.
proof fn lemma_dot_selects(r: Vector, v: Vector)
    requires
        r.x@ == 0 || r.x@ == 65536,
        r.y@ == 0 || r.y@ == 65536,
        r.z@ == 0 || r.z@ == 65536,
        r.w@ == 0 || r.w@ == 65536,
    ensures
        dot_spec(r, v) == Fixed::of(
            (if r.x@ == 0 { 0 } else { v.x@ }) + (if r.y@ == 0 { 0 } else { v.y@ }) + (if r.z@ == 0 { 0 } else { v.z@ })
                + (if r.w@ == 0 { 0 } else { v.w@ }),
        ),
{
    let total = (if r.x@ == 0 { 0 } else { v.x@ }) + (if r.y@ == 0 { 0 } else { v.y@ }) + (if r.z@
        == 0 { 0 } else { v.z@ }) + (if r.w@ == 0 { 0 } else { v.w@ });
    assert(r.x@ * v.x@ == (if r.x@ == 0 { 0 } else { v.x@ * 65536 })) by (nonlinear_arith)
        requires
            r.x@ == 0 || r.x@ == 65536,
    ;
    assert(r.y@ * v.y@ == (if r.y@ == 0 { 0 } else { v.y@ * 65536 })) by (nonlinear_arith)
        requires
            r.y@ == 0 || r.y@ == 65536,
    ;
    assert(r.z@ * v.z@ == (if r.z@ == 0 { 0 } else { v.z@ * 65536 })) by (nonlinear_arith)
        requires
            r.z@ == 0 || r.z@ == 65536,
    ;
    assert(r.w@ * v.w@ == (if r.w@ == 0 { 0 } else { v.w@ * 65536 })) by (nonlinear_arith)
        requires
            r.w@ == 0 || r.w@ == 65536,
    ;
    lemma_floor_quot_unique(total * 65536, 65536, total);
}

/// The identity matrix maps every vector to itself.
pub proof fn lemma_identity_apply(v: Vector)
    ensures
        apply_spec(identity_spec(), v) == v,
{
    let m = identity_spec();
    lemma_dot_selects(row_spec(m, 0), v);
    lemma_dot_selects(row_spec(m, 1), v);
    lemma_dot_selects(row_spec(m, 2), v);
    lemma_dot_selects(row_spec(m, 3), v);
}

/// The translation by `pos` moves a point, a vector whose `w` is one, by
/// exactly `pos`, up to saturation; its `w` becomes that of `pos`.
pub proof fn lemma_translation_apply(pos: Vector, v: Vector)
    requires
        v.w@ == 65536,
    ensures
        apply_spec(translation_spec(pos), v) == (Vector {
            x: v.x.plus(pos.x),
            y: v.y.plus(pos.y),
            z: v.z.plus(pos.z),
            w: pos.w,
        }),
{
    let m = translation_spec(pos);
    let one = Fixed::of(65536);
    // With `w` equal to one, the last column and `v.w` may change places.
    let vx = Vector { x: v.x, y: v.y, z: v.z, w: pos.x };
    let vy = Vector { x: v.x, y: v.y, z: v.z, w: pos.y };
    let vz = Vector { x: v.x, y: v.y, z: v.z, w: pos.z };
    let vw = Vector { x: v.x, y: v.y, z: v.z, w: pos.w };
    let r0 = Vector { x: one, y: Fixed::of(0), z: Fixed::of(0), w: one };
    let r1 = Vector { x: Fixed::of(0), y: one, z: Fixed::of(0), w: one };
    let r2 = Vector { x: Fixed::of(0), y: Fixed::of(0), z: one, w: one };
    let r3 = Vector { x: Fixed::of(0), y: Fixed::of(0), z: Fixed::of(0), w: one };
    assert(pos.x@ * v.w@ == one@ * pos.x@ && pos.y@ * v.w@ == one@ * pos.y@ && pos.z@ * v.w@
        == one@ * pos.z@ && pos.w@ * v.w@ == one@ * pos.w@) by (nonlinear_arith)
        requires
            v.w@ == 65536,
            one@ == 65536,
    ;
    assert(dot_spec(row_spec(m, 0), v) == dot_spec(r0, vx));
    assert(dot_spec(row_spec(m, 1), v) == dot_spec(r1, vy));
    assert(dot_spec(row_spec(m, 2), v) == dot_spec(r2, vz));
    assert(dot_spec(row_spec(m, 3), v) == dot_spec(r3, vw));
    lemma_dot_selects(r0, vx);
    lemma_dot_selects(r1, vy);
    lemma_dot_selects(r2, vz);
    lemma_dot_selects(r3, vw);
}

/// The matrix with the given sixteen entries.
pub open spec fn matrix_of(entries: Seq<Fixed>) -> Matrix {
    choose|m: Matrix| m@ == entries
}

/// A matrix is determined by its entries.
pub proof fn lemma_matrix_of(m: Matrix)
    ensures
        matrix_of(m@) == m,
{
    let n = matrix_of(m@);
    assert(n@ == m@);
    assert(n.0 =~= m.0);
}

impl Matrix {
    /// The identity matrix.
    pub fn identity() -> (m: Matrix)
        ensures
            m@ == identity_spec(),
    {
        let o: Fixed = Fixed::zero();
        let i: Fixed = Fixed::one();
        let m = Matrix([i, o, o, o, o, i, o, o, o, o, i, o, o, o, o, i]);
        assert(m@ =~= identity_spec());
        m
    }

    /// The matrix that translates by `pos`.
    pub fn translate(pos: &Vector) -> (m: Matrix)
        ensures
            m@ == translation_spec(*pos),
    {
        let o: Fixed = Fixed::zero();
        let i: Fixed = Fixed::one();
        let m = Matrix([i, o, o, pos.x(), o, i, o, pos.y(), o, o, i, pos.z(), o, o, o, pos.w()]);
        assert(m@ =~= translation_spec(*pos));
        m
    }

    /// The matrix that scales by `scale`.
    pub fn scale(scale: &Vector) -> (m: Matrix)
        ensures
            m@ == scaling_spec(*scale),
    {
        let o: Fixed = Fixed::zero();
        let m = Matrix(
            [scale.x(), o, o, o, o, scale.y(), o, o, o, o, scale.z(), o, o, o, o, scale.w()],
        );
        assert(m@ =~= scaling_spec(*scale));
        m
    }

    /// The matrix applied to a vector; all four components are computed.
    pub fn apply(&self, vec: &Vector) -> (v: Vector)
        ensures
            v == apply_spec(self@, *vec),
    {
        Vector {
            x: self.row(0).dot(vec),
            y: self.row(1).dot(vec),
            z: self.row(2).dot(vec),
            w: self.row(3).dot(vec),
        }
    }

    /// Row `row`, counting from zero.
    pub fn row(&self, row: usize) -> (v: Vector)
        requires
            row < 4,
        ensures
            v == row_spec(self@, row as int),
    {
        Vector {
            x: self.0[row * 4],
            y: self.0[1 + (row * 4)],
            z: self.0[2 + (row * 4)],
            w: self.0[3 + (row * 4)],
        }
    }

    /// Column `col`, counting from zero.
    pub fn col(&self, col: usize) -> (v: Vector)
        requires
            col < 4,
        ensures
            v == col_spec(self@, col as int),
    {
        Vector { x: self.0[col], y: self.0[col + 4], z: self.0[col + 8], w: self.0[col + 12] }
    }
}

impl core::ops::Mul for Matrix {
    type Output = Matrix;

    /// Composition: with the receiver `B` and the argument `A` the result is
    /// the product `A * B`, the transform that applies `B` first and `A` second.
    fn mul(self, rhs: Matrix) -> (m: Matrix)
        ensures
            m@ == product_spec(rhs@, self@),
    {
        let mut out: [Fixed; 16] = [Fixed::zero(); 16];
        let mut j: usize = 0;
        while j < 4
            invariant
                j <= 4,
                forall|k: int|
                    0 <= k < 4 * j ==> out@[k] == dot_spec(
                        row_spec(rhs@, k / 4),
                        col_spec(self@, k % 4),
                    ),
            decreases 4 - j,
        {
            let mut i: usize = 0;
            while i < 4
                invariant
                    j < 4,
                    i <= 4,
                    forall|k: int|
                        0 <= k < 4 * j + i ==> out@[k] == dot_spec(
                            row_spec(rhs@, k / 4),
                            col_spec(self@, k % 4),
                        ),
                decreases 4 - i,
            {
                out[4 * j + i] = rhs.row(j).dot(&self.col(i));
                i = i + 1;
            }
            j = j + 1;
        }
        let m = Matrix(out);
        assert(m@ =~= product_spec(rhs@, self@));
        proof {
            lemma_matrix_of(m);
        }
        m
    }
}

impl MulSpecImpl for Matrix {
    open spec fn obeys_mul_spec() -> bool {
        true
    }

    open spec fn mul_req(self, rhs: Matrix) -> bool {
        true
    }

    open spec fn mul_spec(self, rhs: Matrix) -> Matrix {
        matrix_of(product_spec(rhs@, self@))
    }
}

} // verus!
