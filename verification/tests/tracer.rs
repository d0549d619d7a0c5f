use raytracer::color::Color;
use raytracer::materials::Material;
use raytracer::ray_intersect::Intersect;
use raytracer::scalar::{Scalar, Vec3};
use raytracer::tracer::{Action, Expect, Ray, Tracer, MAX_DEPTH};

fn s(x: f32) -> Scalar {
    Scalar::from_bits(x.to_bits())
}

fn f(x: Scalar) -> f32 {
    f32::from_bits(x.to_bits())
}

fn ray(tag: f32) -> Ray {
    Ray { origin: Vec3::new(s(tag), s(0.0), s(0.0)), direction: Vec3::new(s(0.0), s(0.0), s(-1.0)) }
}

fn tag(ray: &Ray) -> f32 {
    f(ray.origin.x)
}

fn background() -> Color {
    Color::new(130, 189, 188)
}

fn surface(reflectivity: f32, transparency: f32) -> Material {
    Material::new(Color::new(10, 20, 30), s(10.0), [s(0.9), s(0.1)], s(reflectivity), s(transparency), s(1.5))
}

fn hit_with(material: Material, distance: f32) -> Intersect {
    let at = Vec3::new(s(0.0), s(0.0), s(0.0));
    Intersect::new(at, at, s(distance), material, s(0.0), s(0.0))
}

/// A made-up world: what a ray hits, how a hit is shaded, how colours blend.
struct World {
    material: Material,
    /// rays whose tag is at least this hit nothing
    horizon: f32,
}

impl World {
    fn hits(&self, ray: &Ray) -> Vec<Intersect> {
        if tag(ray) >= self.horizon {
            vec![Intersect::empty(), Intersect::empty()]
        } else {
            vec![hit_with(self.material, 9.0), Intersect::empty(), hit_with(self.material, 4.0)]
        }
    }

    fn shade(&self, ray: &Ray, hit: &Intersect) -> (Color, Ray, Ray) {
        assert_eq!(hit.distance, s(4.0));
        let t = tag(ray);
        (Color::new(t as u8, 100, 7), self::ray(2.0 * t + 1.0), self::ray(2.0 * t + 2.0))
    }

    fn blend(local: Color, reflected: Color, refracted: Color, reflectivity: f32, transparency: f32) -> Color {
        let mix = |l: u8, a: u8, b: u8| {
            let v = l as f32 * (1.0 - reflectivity - transparency)
                + a as f32 * reflectivity
                + b as f32 * transparency;
            v.clamp(0.0, 255.0) as u8
        };
        Color::new(
            mix(local.red, reflected.red, refracted.red),
            mix(local.green, reflected.green, refracted.green),
            mix(local.blue, reflected.blue, refracted.blue),
        )
    }

    /// The colour evaluation written as the plain recursion.
    fn recurse(&self, ray: &Ray, depth: u32, deepest: &mut u32) -> Color {
        *deepest = (*deepest).max(depth);
        if depth > 3 {
            return background();
        }
        let hits = self.hits(ray);
        let mut best: Option<Intersect> = None;
        for h in hits {
            if h.is_intersecting && best.map_or(true, |b| f(h.distance) < f(b.distance)) {
                best = Some(h);
            }
        }
        let hit = match best {
            None => return background(),
            Some(h) => h,
        };
        let (local, reflected_ray, refracted_ray) = self.shade(ray, &hit);
        let reflectivity = f(hit.material.reflectivity);
        let transparency = f(hit.material.transparency);
        let mut reflected = Color::black();
        if reflectivity > 0.0 {
            reflected = self.recurse(&reflected_ray, depth + 1, deepest);
        }
        let mut refracted = Color::black();
        if transparency > 0.0 {
            refracted = self.recurse(&refracted_ray, depth + 1, deepest);
        }
        World::blend(local, reflected, refracted, reflectivity, transparency)
    }
}

struct Run {
    color: Color,
    answers: usize,
    intersects: usize,
    deepest_call: u32,
    order: Vec<f32>,
}

fn run(world: &World, first: Ray, depth: u32) -> Run {
    let (mut tracer, mut action) = Tracer::start(first, depth, background());
    let mut out = Run { color: Color::black(), answers: 0, intersects: 0, deepest_call: depth, order: vec![] };
    loop {
        if !tracer.frames.is_empty() {
            let innermost = tracer.root_depth + tracer.frames.len() as u32 - 1;
            out.deepest_call = out.deepest_call.max(innermost);
            assert!(innermost <= MAX_DEPTH);
        }
        action = match action {
            Action::Done { color } => {
                assert_eq!(tracer.expects(), Expect::Nothing);
                assert!(tracer.frames.is_empty());
                out.color = color;
                return out;
            }
            Action::Intersect { ray } => {
                assert_eq!(tracer.expects(), Expect::Hits);
                out.intersects += 1;
                out.order.push(tag(&ray));
                tracer.on_hits(&world.hits(&ray))
            }
            Action::Shade { ray, hit } => {
                assert_eq!(tracer.expects(), Expect::Shaded);
                let (local, reflected_ray, refracted_ray) = world.shade(&ray, &hit);
                tracer.on_shaded(local, reflected_ray, refracted_ray)
            }
            Action::Blend { local, reflected, refracted, reflectivity, transparency } => {
                assert_eq!(tracer.expects(), Expect::Blended);
                tracer.on_blended(World::blend(local, reflected, refracted, f(reflectivity), f(transparency)))
            }
        };
        out.answers += 1;
        assert!(out.answers <= 45);
    }
}

#[test]
fn a_miss_shows_the_background_at_every_depth() {
    let world = World { material: surface(0.5, 0.5), horizon: 0.0 };
    for depth in 0..=MAX_DEPTH {
        let done = run(&world, ray(0.0), depth);
        assert_eq!(done.color, background());
        assert_eq!(done.answers, 1);
        assert_eq!(done.intersects, 1);
    }
    for depth in [4, 5, 100, u32::MAX] {
        let (tracer, action) = Tracer::start(ray(0.0), depth, background());
        assert!(tracer.frames.is_empty());
        assert!(matches!(action, Action::Done { color } if color == background()));
    }
}

#[test]
fn an_opaque_surface_needs_three_answers() {
    let world = World { material: surface(0.0, 0.0), horizon: 1000.0 };
    let done = run(&world, ray(0.0), 0);
    assert_eq!(done.answers, 3);
    assert_eq!(done.intersects, 1);
    assert_eq!(done.deepest_call, 0);
    assert_eq!(done.color, Color::new(0, 100, 7));
}

#[test]
fn facing_mirrors_stop_at_the_cutoff() {
    let world = World { material: surface(0.5, 0.0), horizon: 1000.0 };
    let done = run(&world, ray(0.0), 0);
    // the calls at depths 0, 1, 2 and 3 are traced; the one at depth 4 is the background
    assert_eq!(done.intersects, 4);
    assert_eq!(done.answers, 12);
    assert_eq!(done.deepest_call, 3);
    assert_eq!(done.order, vec![0.0, 1.0, 3.0, 7.0]);
    let mut deepest = 0;
    assert_eq!(done.color, world.recurse(&ray(0.0), 0, &mut deepest));
    assert_eq!(deepest, 4);
}

#[test]
fn glass_mirrors_take_every_answer_of_the_budget() {
    let world = World { material: surface(0.3, 0.3), horizon: 1000.0 };
    let done = run(&world, ray(0.0), 0);
    assert_eq!(done.intersects, 15);
    assert_eq!(done.answers, 45);
    assert_eq!(done.deepest_call, 3);
    // reflection first, then refraction, in each call
    assert_eq!(
        done.order,
        vec![0.0, 1.0, 3.0, 7.0, 8.0, 4.0, 9.0, 10.0, 2.0, 5.0, 11.0, 12.0, 6.0, 13.0, 14.0]
    );
    let mut deepest = 0;
    assert_eq!(done.color, world.recurse(&ray(0.0), 0, &mut deepest));
    assert_eq!(deepest, 4);
}

#[test]
fn the_machine_agrees_with_the_recursion() {
    let materials = [
        surface(0.0, 0.0),
        surface(0.4, 0.0),
        surface(0.0, 0.6),
        surface(0.4, 0.6),
        surface(-1.0, f32::NAN),
        surface(1.0, 1.0),
    ];
    for material in materials {
        for horizon in [0.0f32, 1.0, 2.0, 3.0, 5.0, 8.0, 1000.0] {
            for depth in 0..=5u32 {
                let world = World { material, horizon };
                let done = run(&world, ray(0.0), depth);
                let mut deepest = depth;
                assert_eq!(done.color, world.recurse(&ray(0.0), depth, &mut deepest));
                assert!(done.deepest_call <= 3 || depth > 3);
            }
        }
    }
}

#[test]
fn the_blend_gets_the_weights_of_the_material() {
    let world = World { material: surface(0.4, 0.6), horizon: 1.0 };
    let (mut tracer, action) = Tracer::start(ray(0.0), 0, background());
    let first = match action {
        Action::Intersect { ray } => ray,
        _ => panic!("the first ray is to be tested"),
    };
    let (shade_ray, hit) = match tracer.on_hits(&world.hits(&first)) {
        Action::Shade { ray, hit } => (ray, hit),
        _ => panic!("the hit is to be shaded"),
    };
    let (local, reflected_ray, refracted_ray) = world.shade(&shade_ray, &hit);
    // both secondary rays miss
    let second = match tracer.on_shaded(local, reflected_ray, refracted_ray) {
        Action::Intersect { ray } => ray,
        _ => panic!("the reflected ray is to be tested"),
    };
    assert_eq!(tag(&second), 1.0);
    let third = match tracer.on_hits(&world.hits(&second)) {
        Action::Intersect { ray } => ray,
        _ => panic!("the refracted ray is to be tested"),
    };
    assert_eq!(tag(&third), 2.0);
    match tracer.on_hits(&world.hits(&third)) {
        Action::Blend { local: l, reflected, refracted, reflectivity, transparency } => {
            assert_eq!(l, local);
            assert_eq!(reflected, background());
            assert_eq!(refracted, background());
            assert_eq!(reflectivity, s(0.4));
            assert_eq!(transparency, s(0.6));
            let weights = (1.0 - f(reflectivity) - f(transparency), f(reflectivity), f(transparency));
            assert_eq!(weights, (0.0, 0.4, 0.6));
        }
        _ => panic!("the three colours are to be blended"),
    }
    assert_eq!(tracer.expects(), Expect::Blended);
    assert!(matches!(tracer.on_blended(Color::new(1, 2, 3)), Action::Done { color } if color == Color::new(1, 2, 3)));
}

#[test]
fn a_call_at_the_cutoff_sees_the_background_in_its_mirror() {
    let world = World { material: surface(0.5, 0.0), horizon: 1000.0 };
    let (mut tracer, action) = Tracer::start(ray(0.0), 3, background());
    let first = match action {
        Action::Intersect { ray } => ray,
        _ => panic!("the first ray is to be tested"),
    };
    let (shade_ray, hit) = match tracer.on_hits(&world.hits(&first)) {
        Action::Shade { ray, hit } => (ray, hit),
        _ => panic!("the hit is to be shaded"),
    };
    let (local, reflected_ray, refracted_ray) = world.shade(&shade_ray, &hit);
    match tracer.on_shaded(local, reflected_ray, refracted_ray) {
        Action::Blend { reflected, refracted, .. } => {
            assert_eq!(reflected, background());
            assert_eq!(refracted, Color::black());
        }
        _ => panic!("no secondary ray is traced at the cutoff"),
    }
    assert_eq!(tracer.frames.len(), 1);
}
