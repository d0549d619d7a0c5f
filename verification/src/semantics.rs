//! What the tracer computes: the colour that the recursive definition gives.

use vstd::prelude::*;
use crate::color::Color;
use crate::materials::Material;
use crate::ray_intersect::{
    all_miss, closest_index, intersections, lemma_closest_exists, shadow_of, Intersect, RayIntersect,
};
use crate::scalar::Scalar;
use crate::tracer::{
    cost, shades_to, to_blend, to_caller, to_hits, to_reflection, to_refraction, to_shade, traces_to,
    Action, Frame, Outcome, Pending, Ray, Shaded, MAX_DEPTH,
};

verus! {

/// The answers that the arithmetic gives, as functions of what it is asked.
pub struct World {
    /// What testing a ray against every primitive gives.
    pub hits: spec_fn(Ray) -> Seq<Intersect>,
    /// The local colour and the secondary rays at a hit seen along a ray.
    pub shade: spec_fn(Ray, Intersect) -> Shaded,
    /// The blend of a local, a reflected and a refracted colour by two weights.
    pub blend: spec_fn(Color, Color, Color, Scalar, Scalar) -> Color,
}

/// The colour seen along `ray` by a call at `depth`, as the recursion defines
/// it: the background beyond the cutoff and where nothing is hit; else the
/// blend of the local colour at the closest hit with the colours seen along
/// the reflected and the refracted ray, each one call deeper, and each black
/// where the material does not ask for it.
pub open spec fn colour(world: World, ray: Ray, depth: int, background: Color) -> Color
    decreases MAX_DEPTH + 1 - depth,
{
    if depth > MAX_DEPTH || all_miss((world.hits)(ray)) {
        background
    } else {
        let hit = (world.hits)(ray)[closest_index((world.hits)(ray))];
        let shaded = (world.shade)(ray, hit);
        let reflected = if hit.material.reflectivity.positive() {
            colour(world, shaded.reflected_ray, depth + 1, background)
        } else {
            Color { red: 0, green: 0, blue: 0 }
        };
        let refracted = if hit.material.transparency.positive() {
            colour(world, shaded.refracted_ray, depth + 1, background)
        } else {
            Color { red: 0, green: 0, blue: 0 }
        };
        (world.blend)(
            shaded.local,
            reflected,
            refracted,
            hit.material.reflectivity,
            hit.material.transparency,
        )
    }
}

/// How many answers the tracer takes to find `colour`.
pub open spec fn answers(world: World, ray: Ray, depth: int) -> nat
    decreases MAX_DEPTH + 1 - depth,
{
    if depth > MAX_DEPTH {
        0
    } else if all_miss((world.hits)(ray)) {
        1
    } else {
        let hit = (world.hits)(ray)[closest_index((world.hits)(ray))];
        let shaded = (world.shade)(ray, hit);
        let reflected = if hit.material.reflectivity.positive() {
            answers(world, shaded.reflected_ray, depth + 1)
        } else {
            0
        };
        let refracted = if hit.material.transparency.positive() {
            answers(world, shaded.refracted_ray, depth + 1)
        } else {
            0
        };
        3 + reflected + refracted
    }
}

/// The tracer's state after the world has answered what the state asks for.
/// A state that asks for nothing stays.
pub open spec fn answer(
    world: World,
    root_depth: int,
    background: Color,
    state: Outcome,
) -> Outcome {
    match state.action {
        Action::Intersect { ray } => to_hits(state.frames, root_depth, background, (world.hits)(ray)),
        Action::Shade { ray, hit } => to_reflection(
            state.frames,
            root_depth,
            background,
            hit.material,
            (world.shade)(ray, hit).local,
            (world.shade)(ray, hit).reflected_ray,
            (world.shade)(ray, hit).refracted_ray,
        ),
        Action::Blend { local, reflected, refracted, reflectivity, transparency } => to_caller(
            state.frames,
            root_depth,
            background,
            (world.blend)(local, reflected, refracted, reflectivity, transparency),
        ),
        Action::Done { .. } => state,
    }
}

/// The tracer's state after `n` answers of the world.
pub open spec fn after(
    world: World,
    root_depth: int,
    background: Color,
    state: Outcome,
    n: nat,
) -> Outcome
    decreases n,
{
    if n == 0 {
        state
    } else {
        after(world, root_depth, background, answer(world, root_depth, background, state), (n - 1) as nat)
    }
}

/// Answers add up: `a + b` answers are `a` answers and then `b` more.
pub proof fn lemma_after_add(
    world: World,
    root_depth: int,
    background: Color,
    state: Outcome,
    a: nat,
    b: nat,
)
    ensures
        after(world, root_depth, background, state, a + b) == after(
            world,
            root_depth,
            background,
            after(world, root_depth, background, state, a),
            b,
        ),
    decreases a,
{
    if a > 0 {
        lemma_after_add(
            world,
            root_depth,
            background,
            answer(world, root_depth, background, state),
            (a - 1) as nat,
            b,
        );
        assert((a + b - 1) as nat == (a - 1) as nat + b);
    }
}

/// One answer takes a state to `answer` of it.
proof fn lemma_after_one(world: World, root_depth: int, background: Color, state: Outcome)
    ensures
        after(world, root_depth, background, state, 1) == answer(world, root_depth, background, state),
{
    let next = answer(world, root_depth, background, state);
    assert(after(world, root_depth, background, next, 0) == next);
}

/// What a call does next depends on the calls that wait for it, and on its
/// own ray, not on what it has waited for itself.
proof fn lemma_innermost_is_replaced(
    f1: Seq<Frame>,
    f2: Seq<Frame>,
    root_depth: int,
    background: Color,
    material: Material,
    local: Color,
    first: Color,
    second: Color,
    refracted_ray: Ray,
)
    requires
        f1.len() == f2.len(),
        f1.len() > 0,
        f1.drop_last() == f2.drop_last(),
        f1.last().ray == f2.last().ray,
    ensures
        to_blend(f1, material, local, first, second) == to_blend(f2, material, local, first, second),
        to_refraction(f1, root_depth, background, material, local, first, refracted_ray) == to_refraction(
            f2,
            root_depth,
            background,
            material,
            local,
            first,
            refracted_ray,
        ),
        to_caller(f1, root_depth, background, first) == to_caller(f2, root_depth, background, first),
{
    let n = f1.len() - 1;
    assert forall|frame: Frame| f1.update(n, frame) == f2.update(n, frame) by {
        assert forall|i: int| 0 <= i < n implies f1[i] == f2[i] by {
            assert(f1[i] == f1.drop_last()[i]);
            assert(f2[i] == f2.drop_last()[i]);
        }
        assert(f1.update(n, frame) =~= f2.update(n, frame));
    }
}

/// A call that has begun returns `colour` to its caller, after `answers`
/// answers of the world, which are at most `cost` of its depth.
pub proof fn lemma_call_returns_colour(
    world: World,
    root_depth: int,
    background: Color,
    frames: Seq<Frame>,
    ray: Ray,
)
    requires
        frames.len() > 0,
        frames.last() == (Frame { ray, pending: Pending::Hits }),
        0 <= root_depth,
        root_depth + frames.len() <= MAX_DEPTH + 1,
    ensures
        after(
            world,
            root_depth,
            background,
            Outcome { frames, action: Action::Intersect { ray } },
            answers(world, ray, root_depth + frames.len() - 1),
        ) == to_caller(
            frames,
            root_depth,
            background,
            colour(world, ray, root_depth + frames.len() - 1, background),
        ),
        1 <= answers(world, ray, root_depth + frames.len() - 1) <= cost(root_depth + frames.len() - 1),
    decreases MAX_DEPTH + 1 - (root_depth + frames.len()),
{
    let depth = root_depth + frames.len() - 1;
    let black = Color { red: 0, green: 0, blue: 0 };
    let s0 = Outcome { frames, action: Action::Intersect { ray } };
    let hits = (world.hits)(ray);
    lemma_after_one(world, root_depth, background, s0);
    if all_miss(hits) {
    } else {
        lemma_closest_exists(hits);
        let hit = hits[closest_index(hits)];
        let material = hit.material;
        let shaded = (world.shade)(ray, hit);
        let local = shaded.local;
        let r1 = shaded.reflected_ray;
        let r2 = shaded.refracted_ray;
        let n1: nat = if material.reflectivity.positive() {
            answers(world, r1, depth + 1)
        } else {
            0
        };
        let n2: nat = if material.transparency.positive() {
            answers(world, r2, depth + 1)
        } else {
            0
        };
        let x = if material.reflectivity.positive() {
            colour(world, r1, depth + 1, background)
        } else {
            black
        };
        let y = if material.transparency.positive() {
            colour(world, r2, depth + 1, background)
        } else {
            black
        };
        let last = frames.len() - 1;
        // the hit is found, and its shading asked for
        let s1 = answer(world, root_depth, background, s0);
        let frames1 = frames.update(last, Frame { ray, pending: Pending::Shade { hit } });
        assert(s1 == to_shade(frames, hit));
        assert(s1.frames == frames1);
        assert(frames1.drop_last() =~= frames.drop_last());
        // the shading is in: the reflected ray has its turn
        let s2 = answer(world, root_depth, background, s1);
        assert(s2 == to_reflection(frames1, root_depth, background, material, local, r1, r2));
        let t1 = to_refraction(frames1, root_depth, background, material, local, x, r2);
        assert(after(world, root_depth, background, s2, n1) == t1 && n1 <= cost(depth + 1)) by {
            if material.reflectivity.positive() && root_depth + frames1.len() <= MAX_DEPTH {
                let waiting = frames1.update(
                    last,
                    Frame { ray, pending: Pending::Reflection { material, local, refracted_ray: r2 } },
                );
                let deeper = waiting.push(Frame { ray: r1, pending: Pending::Hits });
                assert(s2 == Outcome { frames: deeper, action: Action::Intersect { ray: r1 } });
                lemma_call_returns_colour(world, root_depth, background, deeper, r1);
                assert(deeper.drop_last() =~= waiting);
                assert(to_caller(deeper, root_depth, background, x) == to_refraction(
                    waiting,
                    root_depth,
                    background,
                    material,
                    local,
                    x,
                    r2,
                ));
                assert(waiting.drop_last() =~= frames1.drop_last());
                lemma_innermost_is_replaced(
                    waiting,
                    frames1,
                    root_depth,
                    background,
                    material,
                    local,
                    x,
                    black,
                    r2,
                );
            }
        }
        // then the refracted ray
        let t2 = to_blend(frames1, material, local, x, y);
        assert(after(world, root_depth, background, t1, n2) == t2 && n2 <= cost(depth + 1)) by {
            if material.transparency.positive() && root_depth + frames1.len() <= MAX_DEPTH {
                let waiting = frames1.update(
                    last,
                    Frame { ray, pending: Pending::Refraction { material, local, reflected: x } },
                );
                let deeper = waiting.push(Frame { ray: r2, pending: Pending::Hits });
                assert(t1 == Outcome { frames: deeper, action: Action::Intersect { ray: r2 } });
                lemma_call_returns_colour(world, root_depth, background, deeper, r2);
                assert(deeper.drop_last() =~= waiting);
                assert(to_caller(deeper, root_depth, background, y) == to_blend(
                    waiting,
                    material,
                    local,
                    x,
                    y,
                ));
                assert(waiting.drop_last() =~= frames1.drop_last());
                lemma_innermost_is_replaced(
                    waiting,
                    frames1,
                    root_depth,
                    background,
                    material,
                    local,
                    x,
                    y,
                    r2,
                );
            }
        }
        // and the blend of the three is the colour that the call returns
        let mixed = (world.blend)(local, x, y, material.reflectivity, material.transparency);
        let s5 = answer(world, root_depth, background, t2);
        assert(s5 == to_caller(t2.frames, root_depth, background, mixed));
        assert(t2.frames.drop_last() =~= frames.drop_last());
        lemma_innermost_is_replaced(
            t2.frames,
            frames,
            root_depth,
            background,
            material,
            local,
            mixed,
            black,
            r2,
        );
        assert(colour(world, ray, depth, background) == mixed);
        assert(answers(world, ray, depth) == 3 + n1 + n2);
        // the answers in a row
        lemma_after_one(world, root_depth, background, s1);
        lemma_after_one(world, root_depth, background, t2);
        lemma_after_add(world, root_depth, background, s0, 1, 2 + n1 + n2);
        lemma_after_add(world, root_depth, background, s1, 1, 1 + n1 + n2);
        lemma_after_add(world, root_depth, background, s2, n1, 1 + n2);
        lemma_after_add(world, root_depth, background, t1, n2, 1);
    }
}

/// The tracer finds the colour that the recursion defines: begun on a ray at
/// a depth up to the cutoff, and answered by the world, it is done after
/// `answers` answers, at most 45 of them, with `colour` of the ray.
pub proof fn lemma_tracer_finds_colour(world: World, ray: Ray, depth: int, background: Color)
    requires
        0 <= depth <= MAX_DEPTH,
    ensures
        after(
            world,
            depth,
            background,
            Outcome {
                frames: seq![Frame { ray, pending: Pending::Hits }],
                action: Action::Intersect { ray },
            },
            answers(world, ray, depth),
        ) == (Outcome {
            frames: Seq::<Frame>::empty(),
            action: Action::Done { color: colour(world, ray, depth, background) },
        }),
        1 <= answers(world, ray, depth) <= cost(depth),
{
    let frames = seq![Frame { ray, pending: Pending::Hits }];
    lemma_call_returns_colour(world, depth, background, frames, ray);
    assert(frames.drop_last() =~= Seq::<Frame>::empty());
}

/// A ray that hits nothing shows the background, at whatever depth.
pub proof fn lemma_colour_of_a_miss(world: World, ray: Ray, depth: int, background: Color)
    requires
        all_miss((world.hits)(ray)),
    ensures
        colour(world, ray, depth, background) == background,
{
}

/// Where the three functions that `cast_ray` is given are functions indeed,
/// each result fixed by its arguments, the colour that `cast_ray` gives is
/// `colour` of the world that they and the shapes make up: the colour that
/// the tracer finds as well.
pub proof fn lemma_cast_ray_gives_colour<
    T: RayIntersect,
    F1: Fn(&Intersect) -> Ray,
    F2: Fn(&Ray, &Intersect, Scalar) -> Shaded,
    F3: Fn(Color, Color, Color, Scalar, Scalar) -> Color,
>(
    world: World,
    toward_light: spec_fn(Intersect) -> Ray,
    objects: Seq<T>,
    shadow_ray: &F1,
    shade: &F2,
    blend: &F3,
    ray: Ray,
    depth: int,
    background: Color,
    color: Color,
)
    requires
        forall|r: Ray| #[trigger] (world.hits)(r) == intersections(objects, r.origin, r.direction),
        forall|hit: Intersect, out: Ray| #[trigger]
            call_ensures(*shadow_ray, (&hit,), out) ==> out == toward_light(hit),
        forall|r: Ray, hit: Intersect, out: Shaded| #[trigger]
            call_ensures(
                *shade,
                (
                    &r,
                    &hit,
                    shadow_of(
                        intersections(objects, toward_light(hit).origin, toward_light(hit).direction),
                    ),
                ),
                out,
            ) ==> out == (world.shade)(r, hit),
        forall|local: Color, reflected: Color, refracted: Color, a: Scalar, b: Scalar, out: Color| #[trigger]
            call_ensures(*blend, (local, reflected, refracted, a, b), out) ==> out == (world.blend)(
                local,
                reflected,
                refracted,
                a,
                b,
            ),
        traces_to(objects, shadow_ray, shade, blend, ray, depth, background, color),
    ensures
        color == colour(world, ray, depth, background),
    decreases MAX_DEPTH + 1 - depth,
{
    let hits = intersections(objects, ray.origin, ray.direction);
    assert((world.hits)(ray) == hits);
    if depth > MAX_DEPTH || all_miss(hits) {
    } else {
        let hit = hits[closest_index(hits)];
        let (light, shaded, reflected, refracted) = choose|
            light: Ray,
            shaded: Shaded,
            reflected: Color,
            refracted: Color,
        |
            {
                &&& #[trigger] shades_to(
                    objects,
                    shadow_ray,
                    shade,
                    blend,
                    ray,
                    hit,
                    light,
                    shaded,
                    reflected,
                    refracted,
                    color,
                )
                &&& if hit.material.reflectivity.positive() {
                    traces_to(
                        objects,
                        shadow_ray,
                        shade,
                        blend,
                        shaded.reflected_ray,
                        depth + 1,
                        background,
                        reflected,
                    )
                } else {
                    reflected == (Color { red: 0, green: 0, blue: 0 })
                }
                &&& if hit.material.transparency.positive() {
                    traces_to(
                        objects,
                        shadow_ray,
                        shade,
                        blend,
                        shaded.refracted_ray,
                        depth + 1,
                        background,
                        refracted,
                    )
                } else {
                    refracted == (Color { red: 0, green: 0, blue: 0 })
                }
            };
        assert(light == toward_light(hit));
        assert(shaded == (world.shade)(ray, hit));
        if hit.material.reflectivity.positive() {
            lemma_cast_ray_gives_colour(
                world,
                toward_light,
                objects,
                shadow_ray,
                shade,
                blend,
                shaded.reflected_ray,
                depth + 1,
                background,
                reflected,
            );
        }
        if hit.material.transparency.positive() {
            lemma_cast_ray_gives_colour(
                world,
                toward_light,
                objects,
                shadow_ray,
                shade,
                blend,
                shaded.refracted_ray,
                depth + 1,
                background,
                refracted,
            );
        }
    }
}

} // verus!
