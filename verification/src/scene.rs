use vstd::prelude::*;
use crate::color::Color;
use crate::light::Light;
use crate::scalar::{Scalar, ONE_BITS};

verus! {

/// The bit pattern of one quarter: the end of the first band of the day.
pub const QUARTER_BITS: u32 = 0x3e80_0000;

/// The bit pattern of three quarters: the start of the last band of the day.
pub const THREE_QUARTER_BITS: u32 = 0x3f40_0000;

/// The light of a scene and its time of day, a number from 0 to 1.
#[derive(Debug, Clone, Copy)]
pub struct Scene {
    pub light: Light,
    pub time_of_day: Scalar,
}

/// The colour of the sky at a time of day: pale blue up to one quarter, orange
/// between one quarter and three quarters, dark blue from three quarters on,
/// and black for a time that is not a number.
pub open spec fn sky(time_of_day: Scalar) -> Color {
    if time_of_day.le_spec(Scalar { bits: QUARTER_BITS }) {
        Color { red: 135, green: 206, blue: 235 }
    } else if time_of_day.lt_spec(Scalar { bits: THREE_QUARTER_BITS }) {
        Color { red: 255, green: 140, blue: 0 }
    } else if (Scalar { bits: THREE_QUARTER_BITS }).le_spec(time_of_day) {
        Color { red: 25, green: 25, blue: 112 }
    } else {
        Color { red: 0, green: 0, blue: 0 }
    }
}

impl Scene {
    /// The time of day lies between zero and one, and the light is valid.
    pub open spec fn valid(&self) -> bool {
        &&& self.light.valid()
        &&& (Scalar { bits: 0 }).le_spec(self.time_of_day)
        &&& self.time_of_day.le_spec(Scalar { bits: ONE_BITS })
    }

    pub fn is_valid(&self) -> (r: bool)
        ensures
            r == self.valid(),
    {
        self.light.is_valid() && Scalar::zero().le(self.time_of_day) && self.time_of_day.le(
            Scalar::from_bits(ONE_BITS),
        )
    }

    pub fn new(light: Light, time_of_day: Scalar) -> (scene: Scene)
        ensures
            scene.light == light,
            scene.time_of_day == time_of_day,
    {
        Scene { light, time_of_day }
    }
}

/// The background colour of the scene: the colour of the sky at its time of day.
pub fn get_bg_color(scene: &Scene) -> (c: Color)
    ensures
        c == sky(scene.time_of_day),
{
    let quarter = Scalar::from_bits(QUARTER_BITS);
    let three_quarters = Scalar::from_bits(THREE_QUARTER_BITS);
    let mut background_color = Color::black();
    if scene.time_of_day.le(quarter) {
        background_color = Color::new(135, 206, 235);
    } else if scene.time_of_day.gt(quarter) && scene.time_of_day.lt(three_quarters) {
        background_color = Color::new(255, 140, 0);
    } else if scene.time_of_day.ge(three_quarters) {
        background_color = Color::new(25, 25, 112);
    }
    background_color
}

} // verus!
