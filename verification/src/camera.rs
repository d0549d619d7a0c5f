use vstd::prelude::*;
use crate::scalar::{Scalar, Vec3};

verus! {

/// The bit pattern of the steepest pitch an orbit may reach: a tenth of a
/// radian short of straight up.
pub const PITCH_LIMIT_BITS: u32 = 0x3fbc_430e;

/// The bit pattern of the steepest downward pitch: the limit with its sign set.
pub const NEG_PITCH_LIMIT_BITS: u32 = 0xbfbc_430e;

/// The bit pattern of one tenth: the closest that a zoom may bring the eye to
/// what it looks at.
pub const MIN_RADIUS_BITS: u32 = 0x3dcc_cccd;

/// Where the viewer stands, what it looks at, and which way is up. `changed`
/// records that the view moved since it was last asked for.
#[derive(Debug, Clone, Copy)]
pub struct Camera {
    pub eye: Vec3,
    pub center: Vec3,
    pub up: Vec3,
    pub changed: bool,
}

impl Camera {
    /// A new camera counts as changed: its first frame is still to be drawn.
    pub fn new(eye: Vec3, center: Vec3, up: Vec3) -> (camera: Camera)
        ensures
            camera.eye == eye,
            camera.center == center,
            camera.up == up,
            camera.changed,
    {
        Camera { eye, center, up, changed: true }
    }

    /// Puts the eye where an orbit or a zoom has moved it, and records the change.
    pub fn move_eye(&mut self, eye: Vec3)
        ensures
            final(self).eye == eye,
            final(self).center == old(self).center,
            final(self).up == old(self).up,
            final(self).changed,
    {
        self.eye = eye;
        self.changed = true;
    }

    /// Whether the view changed since this was last asked. Asking resets the
    /// record: a second call in a row answers `false`.
    pub fn is_changed(&mut self) -> (changed: bool)
        ensures
            changed == old(self).changed,
            !final(self).changed,
            final(self).eye == old(self).eye,
            final(self).center == old(self).center,
            final(self).up == old(self).up,
    {
        let changed = self.changed;
        self.changed = false;
        changed
    }
}

/// Holds a pitch within the limit on either side of level, so that an orbit
/// never reaches the poles. A pitch that is not a number stays as it is.
pub fn clamp_pitch(pitch: Scalar) -> (r: Scalar)
    ensures
        r == pitch.clamp_spec(Scalar { bits: NEG_PITCH_LIMIT_BITS }, Scalar { bits: PITCH_LIMIT_BITS }),
        !(Scalar { bits: PITCH_LIMIT_BITS }).lt_spec(r),
        !r.lt_spec(Scalar { bits: NEG_PITCH_LIMIT_BITS }),
{
    pitch.clamp(Scalar::from_bits(NEG_PITCH_LIMIT_BITS), Scalar::from_bits(PITCH_LIMIT_BITS))
}

/// Holds the distance between the eye and what it looks at to the least
/// radius or more, so that a zoom never brings the eye to the centre or past
/// it. A distance that is not a number becomes the least radius.
pub fn clamp_radius(radius: Scalar) -> (r: Scalar)
    ensures
        r == (if (Scalar { bits: MIN_RADIUS_BITS }).le_spec(radius) {
            radius
        } else {
            Scalar { bits: MIN_RADIUS_BITS }
        }),
        r.positive(),
        (Scalar { bits: MIN_RADIUS_BITS }).le_spec(r),
{
    let least = Scalar::from_bits(MIN_RADIUS_BITS);
    if least.le(radius) {
        radius
    } else {
        least
    }
}

} // verus!
