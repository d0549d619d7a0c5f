use vstd::prelude::*;
use crate::color::Color;
use crate::scalar::{Scalar, Vec3};

verus! {

/// The one light of a scene.
#[derive(Debug, Clone, Copy)]
pub struct Light {
    pub position: Vec3,
    pub color: Color,
    pub intensity: Scalar,
}

impl Light {
    /// The intensity of a light is zero or more.
    pub open spec fn valid(&self) -> bool {
        (Scalar { bits: 0 }).le_spec(self.intensity)
    }

    pub fn is_valid(&self) -> (r: bool)
        ensures
            r == self.valid(),
    {
        Scalar::zero().le(self.intensity)
    }

    pub fn new(position: Vec3, color: Color, intensity: Scalar) -> (light: Light)
        ensures
            light.position == position,
            light.color == color,
            light.intensity == intensity,
    {
        Light { position, color, intensity }
    }
}

} // verus!
