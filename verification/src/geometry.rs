//! Triangles, their bounding rectangles, meshes and models.

use crate::fixed::Fixed;
use crate::linalg::translation_spec;
use crate::linalg::Matrix;
use crate::linalg::Vector;
use vstd::prelude::*;

verus! {

/// An axis-aligned rectangle in the XY plane.
#[derive(Clone, Copy, Debug)]
pub struct Rect {
    pub min_x: Fixed,
    pub max_x: Fixed,
    pub min_y: Fixed,
    pub max_y: Fixed,
}

/// A triangle with vertices `a`, `b` and `c`, in that order.
#[derive(Clone, Copy, Debug, PartialEq, Eq, Structural)]
pub struct Triangle(pub Vector, pub Vector, pub Vector);

/// An ordered list of triangles; shared vertices are stored once per triangle.
pub struct Mesh(pub Vec<Triangle>);

/// A mesh with its position, scale and rotation.
pub struct Model {
    pub mesh: Mesh,
    pub pos: Vector,
    pub scale: Vector,
    pub rot: Vector,
}

/// The least of three integers.
pub open spec fn least(a: int, b: int, c: int) -> int {
    if a <= b && a <= c {
        a
    } else if b <= c {
        b
    } else {
        c
    }
}

/// The greatest of three integers.
pub open spec fn greatest(a: int, b: int, c: int) -> int {
    if a >= b && a >= c {
        a
    } else if b >= c {
        b
    } else {
        c
    }
}

/// The smaller of two numbers.
fn lower(a: Fixed, b: Fixed) -> (m: Fixed)
    ensures
        m == if a@ <= b@ { a } else { b },
{
    if a.raw <= b.raw {
        a
    } else {
        b
    }
}

/// The larger of two numbers.
fn upper(a: Fixed, b: Fixed) -> (m: Fixed)
    ensures
        m == if a@ >= b@ { a } else { b },
{
    if a.raw >= b.raw {
        a
    } else {
        b
    }
}

impl Triangle {
    /// The triangle with the given vertices.
    pub fn new(a: Vector, b: Vector, c: Vector) -> (t: Triangle)
        ensures
            t.0 == a,
            t.1 == b,
            t.2 == c,
    {
        Triangle(a, b, c)
    }

    /// The three vertices in order.
    pub fn vertices(&self) -> (v: Vec<&Vector>)
        ensures
            v@ == seq![&self.0, &self.1, &self.2],
    {
        let mut v: Vec<&Vector> = Vec::with_capacity(3);
        v.push(&self.0);
        v.push(&self.1);
        v.push(&self.2);
        assert(v@ =~= seq![&self.0, &self.1, &self.2]);
        v
    }

    /// The smallest rectangle in the XY plane that holds all three vertices.
    pub fn bounds(&self) -> (rect: Rect)
        ensures
            rect.min_x@ == least(self.0.x@, self.1.x@, self.2.x@),
            rect.max_x@ == greatest(self.0.x@, self.1.x@, self.2.x@),
            rect.min_y@ == least(self.0.y@, self.1.y@, self.2.y@),
            rect.max_y@ == greatest(self.0.y@, self.1.y@, self.2.y@),
    {
        Rect {
            min_x: lower(self.0.x(), lower(self.1.x(), self.2.x())),
            max_x: upper(self.0.x(), upper(self.1.x(), self.2.x())),
            min_y: lower(self.0.y(), lower(self.1.y(), self.2.y())),
            max_y: upper(self.0.y(), upper(self.1.y(), self.2.y())),
        }
    }
}

impl Mesh {
    /// The mesh made of the given triangles, in their order.
    pub fn new(tris: Vec<Triangle>) -> (m: Mesh)
        ensures
            m.0 == tris,
    {
        Mesh(tris)
    }
}

impl Model {
    /// A model of `mesh` at the origin, with unit scale and no rotation.
    pub fn new(mesh: Mesh) -> (m: Model)
        ensures
            m.mesh == mesh,
            m.pos == (Vector { x: Fixed::of(0), y: Fixed::of(0), z: Fixed::of(0), w: Fixed::of(0) }),
            m.scale == (Vector {
                x: Fixed::of(65536),
                y: Fixed::of(65536),
                z: Fixed::of(65536),
                w: Fixed::of(65536),
            }),
            m.rot == (Vector { x: Fixed::of(0), y: Fixed::of(0), z: Fixed::of(0), w: Fixed::of(0) }),
    {
        Model {
            mesh,
            pos: Vector::zero(),
            scale: Vector::new(Fixed::one(), Fixed::one(), Fixed::one()),
            rot: Vector::zero(),
        }
    }

    /// The transform from the model's space to the world: the translation by
    /// its position.
    pub fn get_transform(&self) -> (m: Matrix)
        ensures
            m@ == translation_spec(self.pos),
    {
        Matrix::translate(&self.pos)
    }
}

} // verus!
