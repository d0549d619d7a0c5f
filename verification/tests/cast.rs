use raytracer::color::Color;
use raytracer::materials::Material;
use raytracer::ray_intersect::{intersect_all, Intersect, RayIntersect};
use raytracer::scalar::{Scalar, Vec3};
use raytracer::tracer::{cast_ray, Ray, Shaded};
use std::cell::Cell;

fn s(x: f32) -> Scalar {
    Scalar::from_bits(x.to_bits())
}

fn f(x: Scalar) -> f32 {
    f32::from_bits(x.to_bits())
}

fn at(tag: f32) -> Vec3 {
    Vec3::new(s(tag), s(0.0), s(0.0))
}

fn down() -> Vec3 {
    Vec3::new(s(0.0), s(0.0), s(-1.0))
}

fn background() -> Color {
    Color::new(130, 189, 188)
}

/// A shape that every ray whose tag is below `horizon` hits at `distance`.
/// A ray towards the light carries a negative tag.
struct Wall {
    material: Material,
    distance: f32,
    horizon: f32,
    blocks_light: bool,
}

impl RayIntersect for Wall {
    fn intersection(&self, ray_origin: Vec3, ray_direction: Vec3) -> Intersect {
        self.ray_intersect(&ray_origin, &ray_direction)
    }

    fn ray_intersect(&self, ray_origin: &Vec3, _ray_direction: &Vec3) -> Intersect {
        let tag = f(ray_origin.x);
        let hit = if tag < 0.0 { self.blocks_light } else { tag < self.horizon };
        if hit {
            Intersect::new(at(0.0), down(), s(self.distance), self.material, s(0.0), s(0.0))
        } else {
            Intersect::empty()
        }
    }
}

struct Flat {
    shaded: Cell<u32>,
}

fn mix(local: Color, reflected: Color, refracted: Color, reflectivity: f32, transparency: f32) -> Color {
    let channel = |l: u8, a: u8, b: u8| {
        let v = l as f32 * (1.0 - reflectivity - transparency) + a as f32 * reflectivity + b as f32 * transparency;
        v.clamp(0.0, 255.0) as u8
    };
    Color::new(
        channel(local.red, reflected.red, refracted.red),
        channel(local.green, reflected.green, refracted.green),
        channel(local.blue, reflected.blue, refracted.blue),
    )
}

fn local_colour(tag: f32, distance: f32, shadow: f32) -> Color {
    Color::new(tag as u8 * 10, distance as u8, (200.0 * (1.0 - shadow)) as u8)
}

impl Flat {
    fn shadow_ray(&self, _hit: &Intersect) -> Ray {
        Ray { origin: at(-1.0), direction: down() }
    }

    fn shade(&self, ray: &Ray, hit: &Intersect, shadow: Scalar) -> Shaded {
        self.shaded.set(self.shaded.get() + 1);
        let tag = f(ray.origin.x);
        Shaded {
            local: local_colour(tag, f(hit.distance), f(shadow)),
            reflected_ray: Ray { origin: at(2.0 * tag + 1.0), direction: down() },
            refracted_ray: Ray { origin: at(2.0 * tag + 2.0), direction: down() },
        }
    }

    fn blend(&self, local: Color, reflected: Color, refracted: Color, reflectivity: Scalar, transparency: Scalar) -> Color {
        mix(local, reflected, refracted, f(reflectivity), f(transparency))
    }
}

fn surface(reflectivity: f32, transparency: f32) -> Material {
    Material::new(Color::new(10, 20, 30), s(10.0), [s(0.9), s(0.1)], s(reflectivity), s(transparency), s(1.5))
}

fn walls(material: Material, horizon: f32, blocks_light: bool) -> Vec<Wall> {
    vec![
        Wall { material, distance: 9.0, horizon, blocks_light: false },
        Wall { material: Material::black(), distance: 1.0, horizon: 0.0, blocks_light },
        Wall { material, distance: 4.0, horizon, blocks_light: false },
    ]
}

/// The colour evaluation written as the plain recursion.
fn recurse(objects: &[Wall], tag: f32, depth: u32, deepest: &mut u32) -> Color {
    *deepest = (*deepest).max(depth);
    if depth > 3 {
        return background();
    }
    let mut best: Option<Intersect> = None;
    let mut zbuffer = f32::INFINITY;
    for object in objects {
        let tmp = object.ray_intersect(&at(tag), &down());
        if tmp.is_intersecting && f(tmp.distance) < zbuffer {
            zbuffer = f(tmp.distance);
            best = Some(tmp);
        }
    }
    let hit = match best {
        None => return background(),
        Some(h) => h,
    };
    let mut shadow = 0.0;
    for object in objects {
        if object.ray_intersect(&at(-1.0), &down()).is_intersecting {
            shadow = 0.7;
            break;
        }
    }
    let local = local_colour(tag, f(hit.distance), shadow);
    let reflectivity = f(hit.material.reflectivity);
    let transparency = f(hit.material.transparency);
    let mut reflected = Color::black();
    if reflectivity > 0.0 {
        reflected = recurse(objects, 2.0 * tag + 1.0, depth + 1, deepest);
    }
    let mut refracted = Color::black();
    if transparency > 0.0 {
        refracted = recurse(objects, 2.0 * tag + 2.0, depth + 1, deepest);
    }
    mix(local, reflected, refracted, reflectivity, transparency)
}

fn flat() -> Flat {
    Flat { shaded: Cell::new(0) }
}

fn trace(objects: &[Wall], shader: &Flat, tag: f32, depth: u32, background: Color) -> Color {
    cast_ray(
        &at(tag),
        &down(),
        objects,
        &|hit: &Intersect| shader.shadow_ray(hit),
        &|ray: &Ray, hit: &Intersect, shadow: Scalar| shader.shade(ray, hit, shadow),
        &|local: Color, reflected: Color, refracted: Color, reflectivity: Scalar, transparency: Scalar| {
            shader.blend(local, reflected, refracted, reflectivity, transparency)
        },
        depth,
        background,
    )
}

#[test]
fn cast_ray_shows_the_background_where_nothing_is_hit() {
    let objects = walls(surface(0.5, 0.5), 0.0, true);
    for depth in [0, 1, 2, 3, 4, 5, 1000] {
        let shader = flat();
        assert_eq!(trace(&objects, &shader, 0.0, depth, background()), background());
        assert_eq!(shader.shaded.get(), 0);
    }
    let none: Vec<Wall> = vec![];
    assert_eq!(trace(&none, &flat(), 0.0, 0, Color::new(1, 2, 3)), Color::new(1, 2, 3));
}

#[test]
fn cast_ray_shows_the_background_beyond_the_cutoff() {
    let objects = walls(surface(0.5, 0.5), 1000.0, false);
    for depth in [4, 5, u32::MAX] {
        let shader = flat();
        assert_eq!(trace(&objects, &shader, 0.0, depth, background()), background());
        assert_eq!(shader.shaded.get(), 0);
    }
}

#[test]
fn cast_ray_shades_the_closest_hit() {
    let objects = walls(surface(0.0, 0.0), 1000.0, false);
    let shader = flat();
    let color = trace(&objects, &shader, 3.0, 0, background());
    // the wall at distance 4 is the closest; nothing blocks the light
    assert_eq!(color, Color::new(30, 4, 200));
    assert_eq!(shader.shaded.get(), 1);
}

#[test]
fn cast_ray_darkens_what_lies_in_shadow() {
    let lit = trace(&walls(surface(0.0, 0.0), 1000.0, false), &flat(), 3.0, 0, background());
    let dark = trace(&walls(surface(0.0, 0.0), 1000.0, true), &flat(), 3.0, 0, background());
    assert_eq!(lit, Color::new(30, 4, 200));
    assert_eq!(dark, Color::new(30, 4, 60));
    assert!(dark.blue < lit.blue);
}

#[test]
fn cast_ray_between_mirrors_ends_at_the_cutoff() {
    let objects = walls(surface(0.5, 0.0), 1000.0, false);
    let shader = flat();
    let color = trace(&objects, &shader, 0.0, 0, background());
    // the calls at depths 0 to 3 are shaded; the call at depth 4 is the background
    assert_eq!(shader.shaded.get(), 4);
    let mut deepest = 0;
    assert_eq!(color, recurse(&objects, 0.0, 0, &mut deepest));
    assert_eq!(deepest, 4);
}

#[test]
fn cast_ray_agrees_with_the_recursion() {
    let materials = [
        surface(0.0, 0.0),
        surface(0.4, 0.0),
        surface(0.0, 0.6),
        surface(0.4, 0.6),
        surface(0.3, 0.3),
        surface(-1.0, f32::NAN),
    ];
    for material in materials {
        for horizon in [0.0f32, 1.0, 2.0, 3.0, 5.0, 8.0, 1000.0] {
            for blocks_light in [false, true] {
                for depth in 0..=5u32 {
                    let objects = walls(material, horizon, blocks_light);
                    let shader = flat();
                    let got = trace(&objects, &shader, 0.0, depth, background());
                    let mut deepest = depth;
                    assert_eq!(got, recurse(&objects, 0.0, depth, &mut deepest));
                    assert!(shader.shaded.get() <= 15);
                }
            }
        }
    }
}

#[test]
fn cast_ray_blends_with_the_weights_of_the_material() {
    // reflectivity 0.4 and transparency 0.6 leave nothing of the local colour
    let objects = walls(surface(0.4, 0.6), 1.0, false);
    let color = trace(&objects, &flat(), 0.0, 0, background());
    let expected = mix(Color::new(0, 4, 200), background(), background(), 0.4, 0.6);
    assert_eq!(color, expected);
    assert_eq!(1.0f32 - 0.4 - 0.6, 0.0);
    assert_eq!(color, mix(Color::new(255, 255, 255), background(), background(), 0.4, 0.6));
}

#[test]
fn intersect_all_keeps_the_order_of_the_shapes() {
    let objects = walls(surface(0.0, 0.0), 5.0, false);
    let hits = intersect_all(&objects, &at(1.0), &down());
    assert_eq!(hits.len(), 3);
    assert!(hits[0].is_intersecting && !hits[1].is_intersecting && hits[2].is_intersecting);
    assert_eq!((hits[0].distance, hits[2].distance), (s(9.0), s(4.0)));
    let hits = intersect_all(&objects, &at(5.0), &down());
    assert!(hits.iter().all(|h| !h.is_intersecting));
}
