use raytracer::camera::{
    clamp_pitch, clamp_radius, Camera, MIN_RADIUS_BITS, NEG_PITCH_LIMIT_BITS, PITCH_LIMIT_BITS,
};
use raytracer::color::Color;
use raytracer::light::Light;
use raytracer::scalar::{Scalar, Vec3, INFINITY_BITS};
use raytracer::scene::{get_bg_color, Scene, QUARTER_BITS, THREE_QUARTER_BITS};

fn s(x: f32) -> Scalar {
    Scalar::from_bits(x.to_bits())
}

fn samples() -> Vec<f32> {
    vec![
        0.0,
        -0.0,
        1.0,
        -1.0,
        0.5,
        -0.5,
        1e-4,
        -1e-4,
        f32::MIN_POSITIVE,
        -f32::MIN_POSITIVE,
        f32::from_bits(1),
        f32::from_bits(0x8000_0001),
        f32::MAX,
        f32::MIN,
        f32::INFINITY,
        f32::NEG_INFINITY,
        f32::NAN,
        f32::from_bits(0xffc0_0000),
        f32::from_bits(0x7f80_0001),
        3.5,
        1.4707963,
        -1.4707963,
        0.25,
        0.75,
    ]
}

#[test]
fn comparisons_agree_with_the_hardware() {
    for a in samples() {
        for b in samples() {
            assert_eq!(s(a).lt(s(b)), a < b, "{a:?} < {b:?}");
            assert_eq!(s(a).le(s(b)), a <= b, "{a:?} <= {b:?}");
            assert_eq!(s(a).gt(s(b)), a > b, "{a:?} > {b:?}");
            assert_eq!(s(a).ge(s(b)), a >= b, "{a:?} >= {b:?}");
        }
        assert_eq!(s(a).is_nan(), a.is_nan());
        assert_eq!(s(a).is_positive(), a > 0.0);
    }
}

#[test]
fn clamp_agrees_with_the_hardware() {
    let bounds = [(-1.0f32, 1.0f32), (0.0, 0.0), (-0.0, 0.0), (0.25, 0.75), (f32::NEG_INFINITY, f32::INFINITY)];
    for x in samples() {
        for (lo, hi) in bounds {
            let got = s(x).clamp(s(lo), s(hi)).to_bits();
            let want = x.clamp(lo, hi).to_bits();
            assert_eq!(got, want, "{x:?} in [{lo:?}, {hi:?}]");
        }
    }
}

#[test]
fn scalar_constants() {
    assert_eq!(Scalar::zero().to_bits(), 0.0f32.to_bits());
    assert_eq!(Scalar::infinity().to_bits(), f32::INFINITY.to_bits());
    assert_eq!(INFINITY_BITS, f32::INFINITY.to_bits());
    assert_eq!(QUARTER_BITS, 0.25f32.to_bits());
    assert_eq!(THREE_QUARTER_BITS, 0.75f32.to_bits());
    let limit = std::f32::consts::PI / 2.0 - 0.1;
    assert_eq!(PITCH_LIMIT_BITS, limit.to_bits());
    assert_eq!(NEG_PITCH_LIMIT_BITS, (-limit).to_bits());
    let v = Vec3::new(s(1.0), s(2.0), s(3.0));
    assert_eq!((v.x, v.y, v.z), (s(1.0), s(2.0), s(3.0)));
}

#[test]
fn pitch_is_held_within_the_limit() {
    let limit = std::f32::consts::PI / 2.0 - 0.1;
    let mut pitch = 0.0f32;
    for _ in 0..50 {
        pitch = f32::from_bits(clamp_pitch(s(pitch + 10.0)).to_bits());
        assert!(pitch <= limit);
        assert_eq!(pitch, limit);
    }
    for _ in 0..50 {
        pitch = f32::from_bits(clamp_pitch(s(pitch - 10.0)).to_bits());
        assert_eq!(pitch, -limit);
    }
    assert_eq!(clamp_pitch(s(0.3)).to_bits(), 0.3f32.to_bits());
    assert_eq!(clamp_pitch(s(limit)).to_bits(), limit.to_bits());
    assert!(clamp_pitch(s(f32::NAN)).is_nan());
    assert_eq!(clamp_pitch(s(f32::INFINITY)).to_bits(), limit.to_bits());
}

#[test]
fn camera_reports_a_change_once() {
    let eye = Vec3::new(s(3.0), s(5.0), s(5.0));
    let origin = Vec3::new(s(0.0), s(0.0), s(0.0));
    let up = Vec3::new(s(0.0), s(1.0), s(0.0));
    let mut camera = Camera::new(eye, origin, up);
    assert_eq!(camera.eye, eye);
    assert_eq!(camera.center, origin);
    assert_eq!(camera.up, up);
    assert!(camera.is_changed());
    assert!(!camera.is_changed());
    assert!(!camera.is_changed());
    let moved = Vec3::new(s(1.0), s(1.0), s(1.0));
    camera.move_eye(moved);
    assert_eq!(camera.eye, moved);
    assert_eq!(camera.center, origin);
    assert!(camera.is_changed());
    assert!(!camera.is_changed());
    camera.move_eye(moved);
    camera.move_eye(moved);
    assert!(camera.is_changed());
    assert!(!camera.is_changed());
}

fn scene_at(time: f32) -> Scene {
    let light = Light::new(Vec3::new(s(-2.0), s(3.0), s(5.0)), Color::new(255, 255, 255), s(1.0));
    Scene::new(light, s(time))
}

#[test]
fn background_follows_the_time_of_day() {
    let morning = Color::new(135, 206, 235);
    let noon = Color::new(255, 140, 0);
    let night = Color::new(25, 25, 112);
    assert_eq!(get_bg_color(&scene_at(0.0)), morning);
    assert_eq!(get_bg_color(&scene_at(0.25)), morning);
    assert_eq!(get_bg_color(&scene_at(-3.0)), morning);
    assert_eq!(get_bg_color(&scene_at(0.2500001)), noon);
    assert_eq!(get_bg_color(&scene_at(0.5)), noon);
    assert_eq!(get_bg_color(&scene_at(0.7499999)), noon);
    assert_eq!(get_bg_color(&scene_at(0.75)), night);
    assert_eq!(get_bg_color(&scene_at(1.0)), night);
    assert_eq!(get_bg_color(&scene_at(f32::NAN)), Color::black());
    let scene = scene_at(0.5);
    assert_eq!(scene.light.color, Color::new(255, 255, 255));
    assert_eq!(scene.light.intensity, s(1.0));
    assert_eq!(scene.time_of_day, s(0.5));
}

#[test]
fn radius_never_falls_to_zero() {
    assert_eq!(MIN_RADIUS_BITS, 0.1f32.to_bits());
    for x in samples() {
        let got = f32::from_bits(clamp_radius(s(x)).to_bits());
        assert!(got > 0.0);
        assert_eq!(got.to_bits(), x.max(0.1).to_bits(), "{x:?}");
    }
    assert_eq!(clamp_radius(s(7.5)).to_bits(), 7.5f32.to_bits());
    assert_eq!(clamp_radius(s(0.05)).to_bits(), 0.1f32.to_bits());
    assert_eq!(clamp_radius(s(-3.0)).to_bits(), 0.1f32.to_bits());
}

fn orbit(camera: &mut Camera, delta_yaw: f32, delta_pitch: f32) {
    let get = |v: &Vec3| [f32::from_bits(v.x.to_bits()), f32::from_bits(v.y.to_bits()), f32::from_bits(v.z.to_bits())];
    let eye = get(&camera.eye);
    let center = get(&camera.center);
    let r = [eye[0] - center[0], eye[1] - center[1], eye[2] - center[2]];
    let radius = (r[0] * r[0] + r[1] * r[1] + r[2] * r[2]).sqrt();
    let radius_xz = (r[0] * r[0] + r[2] * r[2]).sqrt();
    let yaw = (r[2].atan2(r[0]) + delta_yaw) % (2.0 * std::f32::consts::PI);
    let pitch = f32::from_bits(clamp_pitch(s((-r[1]).atan2(radius_xz) + delta_pitch)).to_bits());
    camera.move_eye(Vec3::new(
        s(center[0] + radius * yaw.cos() * pitch.cos()),
        s(center[1] - radius * pitch.sin()),
        s(center[2] + radius * yaw.sin() * pitch.cos()),
    ));
}

fn recovered_pitch(camera: &Camera) -> f32 {
    let get = |v: &Vec3| [f32::from_bits(v.x.to_bits()), f32::from_bits(v.y.to_bits()), f32::from_bits(v.z.to_bits())];
    let eye = get(&camera.eye);
    let center = get(&camera.center);
    let r = [eye[0] - center[0], eye[1] - center[1], eye[2] - center[2]];
    (-r[1]).atan2((r[0] * r[0] + r[2] * r[2]).sqrt())
}

#[test]
fn orbit_by_nothing_leaves_the_eye() {
    let mut camera = Camera::new(
        Vec3::new(s(3.0), s(5.0), s(5.0)),
        Vec3::new(s(0.0), s(0.0), s(0.0)),
        Vec3::new(s(0.0), s(1.0), s(0.0)),
    );
    assert!(camera.is_changed());
    orbit(&mut camera, 0.0, 0.0);
    let eye = [camera.eye.x, camera.eye.y, camera.eye.z].map(|c| f32::from_bits(c.to_bits()));
    assert!((eye[0] - 3.0).abs() < 1e-4);
    assert!((eye[1] - 5.0).abs() < 1e-4);
    assert!((eye[2] - 5.0).abs() < 1e-4);
    assert!(camera.is_changed());
}

#[test]
fn orbit_never_passes_the_pitch_limit() {
    let limit = std::f32::consts::PI / 2.0 - 0.1;
    let mut camera = Camera::new(
        Vec3::new(s(3.0), s(5.0), s(5.0)),
        Vec3::new(s(0.0), s(0.0), s(0.0)),
        Vec3::new(s(0.0), s(1.0), s(0.0)),
    );
    for _ in 0..100 {
        orbit(&mut camera, 0.0, 10.0);
        assert!(recovered_pitch(&camera) <= limit + 1e-5);
    }
    for _ in 0..100 {
        orbit(&mut camera, 0.0, -10.0);
        assert!(recovered_pitch(&camera) >= -limit - 1e-5);
    }
}

#[test]
fn min_and_max_agree_with_the_hardware() {
    let same = |got: Scalar, want: f32| {
        let got = f32::from_bits(got.to_bits());
        got == want || (got.is_nan() && want.is_nan())
    };
    for a in samples() {
        for b in samples() {
            // the plain comparison, bit for bit
            let min2 = if a <= b { a } else { b };
            let max2 = if a >= b { a } else { b };
            assert_eq!(s(a).min2(s(b)).to_bits(), min2.to_bits(), "{a:?} {b:?}");
            assert_eq!(s(a).max2(s(b)).to_bits(), max2.to_bits(), "{a:?} {b:?}");
            // the minimum and maximum that pass over what is not a number
            assert!(same(s(a).min(s(b)), a.min(b)), "{a:?} {b:?}");
            assert!(same(s(a).max(s(b)), a.max(b)), "{a:?} {b:?}");
        }
    }
    assert_eq!(s(1.0).max(s(f32::NAN)), s(1.0));
    assert_eq!(s(f32::NAN).max(s(1.0)), s(1.0));
    assert_eq!(s(1.0).min(s(f32::NAN)), s(1.0));
    assert_eq!(s(f32::NAN).min(s(1.0)), s(1.0));
    assert_eq!(s(2.0).max(s(3.0)), s(3.0));
    assert_eq!(s(2.0).min(s(3.0)), s(2.0));
}
