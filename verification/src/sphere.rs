use vstd::prelude::*;
use crate::materials::Material;
use crate::scalar::{Scalar, Vec3};

verus! {

/// A sphere and what it is made of.
#[derive(Debug, Clone, Copy)]
pub struct Sphere {
    pub center: Vec3,
    pub radius: Scalar,
    pub material: Material,
}

impl Sphere {
    /// A sphere has a radius above zero.
    pub open spec fn valid(&self) -> bool {
        self.radius.positive()
    }

    pub fn new(center: Vec3, radius: Scalar, material: Material) -> (sphere: Sphere)
        ensures
            sphere.center == center,
            sphere.radius == radius,
            sphere.material == material,
    {
        Sphere { center, radius, material }
    }

    pub fn is_valid(&self) -> (r: bool)
        ensures
            r == self.valid(),
    {
        self.radius.is_positive()
    }
}

/// The root of a sphere's quadratic that is the hit: the smaller root `t1`
/// where it is positive, else the larger root `t2` where that is positive,
/// else none: the sphere lies behind the ray.
pub fn pick_root(t1: Scalar, t2: Scalar) -> (t: Option<Scalar>)
    ensures
        t == (if t1.positive() {
            Some(t1)
        } else if t2.positive() {
            Some(t2)
        } else {
            None
        }),
{
    let chosen = if t1.is_positive() {
        t1
    } else {
        t2
    };
    if chosen.is_positive() {
        Some(chosen)
    } else {
        None
    }
}

} // verus!
