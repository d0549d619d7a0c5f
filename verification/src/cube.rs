use vstd::prelude::*;
use crate::materials::Material;
use crate::scalar::{lemma_min_max_of_numbers, Scalar, Vec3};

verus! {

/// A face of an axis-aligned box, named by the axis it is normal to and the
/// corner it belongs to.
#[derive(Debug, Clone, Copy, PartialEq, Eq, Structural)]
pub enum Face {
    MinX,
    MaxX,
    MinY,
    MaxY,
    MinZ,
    MaxZ,
}

/// An axis-aligned box, given by two opposite corners, and what it is made of.
#[derive(Debug, Clone, Copy)]
pub struct Cube {
    pub min: Vec3,
    pub max: Vec3,
    pub material: Material,
}

impl Cube {
    /// No coordinate of `min` is above that of `max`.
    pub open spec fn valid(&self) -> bool {
        &&& self.min.x.le_spec(self.max.x)
        &&& self.min.y.le_spec(self.max.y)
        &&& self.min.z.le_spec(self.max.z)
    }

    pub fn new(min: Vec3, max: Vec3, material: Material) -> (cube: Cube)
        ensures
            cube.min == min,
            cube.max == max,
            cube.material == material,
    {
        Cube { min, max, material }
    }

    pub fn is_valid(&self) -> (r: bool)
        ensures
            r == self.valid(),
    {
        self.min.x.le(self.max.x) && self.min.y.le(self.max.y) && self.min.z.le(self.max.z)
    }
}

impl Face {
    /// The outward unit normal of the face, each component -1, 0 or 1.
    pub fn normal(self) -> (n: (i8, i8, i8))
        ensures
            n == (match self {
                Face::MinX => (-1i8, 0i8, 0i8),
                Face::MaxX => (1i8, 0i8, 0i8),
                Face::MinY => (0i8, -1i8, 0i8),
                Face::MaxY => (0i8, 1i8, 0i8),
                Face::MinZ => (0i8, 0i8, -1i8),
                Face::MaxZ => (0i8, 0i8, 1i8),
            }),
    {
        match self {
            Face::MinX => (-1, 0, 0),
            Face::MaxX => (1, 0, 0),
            Face::MinY => (0, -1, 0),
            Face::MaxY => (0, 1, 0),
            Face::MinZ => (0, 0, -1),
            Face::MaxZ => (0, 0, 1),
        }
    }
}

/// Where a ray enters the last of a box's three slabs.
///
/// `t_min` and `t_max` hold, for each axis, the ray parameters at which the
/// ray crosses the two planes of that axis' slab, in either order. The ray is
/// inside a slab from the smaller to the larger of the two.
pub open spec fn slab_near(t_min: Vec3, t_max: Vec3) -> Scalar {
    t_min.x.min2_spec(t_max.x).max_spec(t_min.y.min2_spec(t_max.y)).max_spec(t_min.z.min2_spec(t_max.z))
}

/// Where a ray leaves the first of a box's three slabs.
pub open spec fn slab_far(t_min: Vec3, t_max: Vec3) -> Scalar {
    t_min.x.max2_spec(t_max.x).min_spec(t_min.y.max2_spec(t_max.y)).min_spec(t_min.z.max2_spec(t_max.z))
}

/// Whether the ray parameter `t` lies in the slab whose planes the ray
/// crosses at `a` and `b`.
pub open spec fn in_slab(t: Scalar, a: Scalar, b: Scalar) -> bool {
    (a.le_spec(t) && t.le_spec(b)) || (b.le_spec(t) && t.le_spec(a))
}

/// The ray parameters at which a ray has entered all three slabs of a box,
/// and at which it leaves the first of them.
pub fn slab_range(t_min: Vec3, t_max: Vec3) -> (range: (Scalar, Scalar))
    ensures
        range.0 == slab_near(t_min, t_max),
        range.1 == slab_far(t_min, t_max),
{
    let near_x = t_min.x.min2(t_max.x);
    let near_y = t_min.y.min2(t_max.y);
    let near_z = t_min.z.min2(t_max.z);
    let far_x = t_min.x.max2(t_max.x);
    let far_y = t_min.y.max2(t_max.y);
    let far_z = t_min.z.max2(t_max.z);
    (near_x.max(near_y).max(near_z), far_x.min(far_y).min(far_z))
}

/// Whether a ray that enters the last of a box's three slabs at `t_near` and
/// leaves the first of them at `t_far` hits the box: not where the entry lies
/// behind the origin, nor where it comes after the exit.
pub fn slab_hit(t_near: Scalar, t_far: Scalar) -> (hit: bool)
    ensures
        hit == !(t_near.lt_spec(Scalar { bits: 0 }) || t_far.lt_spec(t_near)),
{
    !(t_near.lt(Scalar::zero()) || t_near.gt(t_far))
}

/// The face of a box that a hit point is taken to lie on, given for each of
/// five faces whether the point is within tolerance of its plane. The first
/// near face in the order -x, +x, -y, +y, -z is taken; +z only where none is.
pub fn select_face(near_min_x: bool, near_max_x: bool, near_min_y: bool, near_max_y: bool, near_min_z: bool) -> (face: Face)
    ensures
        face == (if near_min_x {
            Face::MinX
        } else if near_max_x {
            Face::MaxX
        } else if near_min_y {
            Face::MinY
        } else if near_max_y {
            Face::MaxY
        } else if near_min_z {
            Face::MinZ
        } else {
            Face::MaxZ
        }),
        face == Face::MaxZ <==> !(near_min_x || near_max_x || near_min_y || near_max_y || near_min_z),
{
    if near_min_x {
        Face::MinX
    } else if near_max_x {
        Face::MaxX
    } else if near_min_y {
        Face::MinY
    } else if near_max_y {
        Face::MaxY
    } else if near_min_z {
        Face::MinZ
    } else {
        Face::MaxZ
    }
}

/// Where the six crossings are numbers, so are the entry and the exit; a ray
/// parameter lies from the entry to the exit exactly where it lies inside all
/// three slabs; where the entry does not come after the exit, the entry
/// itself lies inside all three; and the slab test finds a hit exactly where
/// the entry is zero or more and does not come after the exit.
pub proof fn lemma_slab_hit_is_inside(t_min: Vec3, t_max: Vec3, t: Scalar)
    requires
        !t_min.x.nan() && !t_min.y.nan() && !t_min.z.nan(),
        !t_max.x.nan() && !t_max.y.nan() && !t_max.z.nan(),
    ensures
        !slab_near(t_min, t_max).nan() && !slab_far(t_min, t_max).nan(),
        slab_near(t_min, t_max).le_spec(t) && t.le_spec(slab_far(t_min, t_max)) <==> in_slab(
            t,
            t_min.x,
            t_max.x,
        ) && in_slab(t, t_min.y, t_max.y) && in_slab(t, t_min.z, t_max.z),
        slab_near(t_min, t_max).le_spec(slab_far(t_min, t_max)) ==> in_slab(
            slab_near(t_min, t_max),
            t_min.x,
            t_max.x,
        ) && in_slab(slab_near(t_min, t_max), t_min.y, t_max.y) && in_slab(
            slab_near(t_min, t_max),
            t_min.z,
            t_max.z,
        ),
        !(slab_near(t_min, t_max).lt_spec(Scalar { bits: 0 }) || slab_far(t_min, t_max).lt_spec(
            slab_near(t_min, t_max),
        )) <==> (Scalar { bits: 0 }).le_spec(slab_near(t_min, t_max)) && slab_near(t_min, t_max).le_spec(
            slab_far(t_min, t_max),
        ),
{
    lemma_min_max_of_numbers(t_min.x, t_max.x);
    lemma_min_max_of_numbers(t_min.y, t_max.y);
    lemma_min_max_of_numbers(t_min.z, t_max.z);
    let nx = t_min.x.min2_spec(t_max.x);
    let ny = t_min.y.min2_spec(t_max.y);
    let nz = t_min.z.min2_spec(t_max.z);
    let fx = t_min.x.max2_spec(t_max.x);
    let fy = t_min.y.max2_spec(t_max.y);
    let fz = t_min.z.max2_spec(t_max.z);
    lemma_min_max_of_numbers(nx, ny);
    lemma_min_max_of_numbers(nx.max_spec(ny), nz);
    lemma_min_max_of_numbers(fx, fy);
    lemma_min_max_of_numbers(fx.min_spec(fy), fz);
}

} // verus!
