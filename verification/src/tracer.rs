use vstd::prelude::*;
use crate::color::Color;
use crate::materials::Material;
use crate::ray_intersect::{
    all_miss, cast_shadow, closest_hit, closest_index, intersect_all, intersections, shadow_of, Intersect,
    RayIntersect,
};
use crate::scalar::{Scalar, Vec3};

verus! {

/// The deepest call that is traced. A deeper one is answered with the
/// background at once.
pub const MAX_DEPTH: u32 = 3;

/// An origin and a direction.
#[derive(Debug, Clone, Copy)]
pub struct Ray {
    pub origin: Vec3,
    pub direction: Vec3,
}

/// What a call of the recursive colour evaluation waits for.
#[derive(Debug, Clone, Copy)]
pub enum Pending {
    /// The results of testing its ray against every primitive.
    Hits,
    /// The local shading at its closest hit, and the two secondary rays.
    Shade { hit: Intersect },
    /// The colour of its reflected ray, which the call above it finds.
    Reflection { material: Material, local: Color, refracted_ray: Ray },
    /// The colour of its refracted ray, which the call above it finds.
    Refraction { material: Material, local: Color, reflected: Color },
    /// The weighted blend of its three colours.
    Blend,
}

/// One call of the recursive colour evaluation.
#[derive(Debug, Clone, Copy)]
pub struct Frame {
    pub ray: Ray,
    pub pending: Pending,
}

/// The numeric work that the tracer asks for next, or the finished colour.
#[derive(Debug, Clone, Copy)]
pub enum Action {
    /// Test the ray against every primitive; answer with `on_hits`.
    Intersect { ray: Ray },
    /// Shade the hit as seen along the ray, and work out the reflected and
    /// the refracted ray; answer with `on_shaded`.
    Shade { ray: Ray, hit: Intersect },
    /// Weigh `reflected` by `reflectivity`, `refracted` by `transparency` and
    /// `local` by what is left of one; answer with `on_blended`.
    Blend { local: Color, reflected: Color, refracted: Color, reflectivity: Scalar, transparency: Scalar },
    /// The colour of the first ray.
    Done { color: Color },
}

/// What the tracer waits for.
#[derive(Debug, Clone, Copy, PartialEq, Eq, Structural)]
pub enum Expect {
    /// An answer through `on_hits`.
    Hits,
    /// An answer through `on_shaded`.
    Shaded,
    /// An answer through `on_blended`.
    Blended,
    /// Nothing: the colour of the first ray was handed out.
    Nothing,
}

/// The state of tracing one ray: the calls in progress, outermost first.
pub struct Tracer {
    pub frames: Vec<Frame>,
    pub background: Color,
    pub root_depth: u32,
}

/// The calls in progress after a step, and what the step asks for.
pub struct Outcome {
    pub frames: Seq<Frame>,
    pub action: Action,
}

/// The most answers that a call at `depth` can still need before it returns:
/// three of its own, and those of its two secondary rays.
pub open spec fn cost(depth: int) -> nat
    decreases MAX_DEPTH + 1 - depth,
{
    if depth > MAX_DEPTH {
        0
    } else {
        3 + 2 * cost(depth + 1)
    }
}

/// The most answers that a call at `depth` can still need, apart from those
/// of a secondary ray that is already in progress.
pub open spec fn remaining(pending: Pending, depth: int) -> nat {
    match pending {
        Pending::Hits => cost(depth),
        Pending::Shade { .. } => 2 + 2 * cost(depth + 1),
        Pending::Reflection { .. } => 1 + cost(depth + 1),
        Pending::Refraction { .. } => 1,
        Pending::Blend => 1,
    }
}

/// The most answers that the calls in progress can still need.
pub open spec fn budget(frames: Seq<Frame>, root_depth: int) -> nat
    decreases frames.len(),
{
    if frames.len() == 0 {
        0
    } else {
        budget(frames.drop_last(), root_depth) + remaining(
            frames.last().pending,
            root_depth + frames.len() - 1,
        )
    }
}

/// The calls in progress are nested as the recursion nests them: none is
/// deeper than the cutoff, every call but the innermost waits for a
/// secondary ray, and the innermost waits for an answer.
pub open spec fn nested(frames: Seq<Frame>, root_depth: int) -> bool {
    &&& 0 <= root_depth
    &&& root_depth + frames.len() <= MAX_DEPTH + 1
    &&& forall|i: int|
        0 <= i < frames.len() - 1 ==> (#[trigger] frames[i]).pending is Reflection || frames[i].pending is Refraction
    &&& frames.len() > 0 ==> (frames.last().pending is Hits || frames.last().pending is Shade
        || frames.last().pending is Blend)
}

/// The innermost call has its three colours: it asks for their blend.
pub open spec fn to_blend(
    frames: Seq<Frame>,
    material: Material,
    local: Color,
    reflected: Color,
    refracted: Color,
) -> Outcome {
    Outcome {
        frames: frames.update(
            frames.len() - 1,
            Frame { ray: frames.last().ray, pending: Pending::Blend },
        ),
        action: Action::Blend {
            local,
            reflected,
            refracted,
            reflectivity: material.reflectivity,
            transparency: material.transparency,
        },
    }
}

/// The innermost call has its local and its reflected colour. Where the
/// material is transparent the refracted ray is traced, or answered with the
/// background where it would be too deep; where it is not, the refracted
/// colour is black.
pub open spec fn to_refraction(
    frames: Seq<Frame>,
    root_depth: int,
    background: Color,
    material: Material,
    local: Color,
    reflected: Color,
    refracted_ray: Ray,
) -> Outcome {
    if !material.transparency.positive() {
        to_blend(frames, material, local, reflected, Color { red: 0, green: 0, blue: 0 })
    } else if root_depth + frames.len() > MAX_DEPTH {
        to_blend(frames, material, local, reflected, background)
    } else {
        Outcome {
            frames: frames.update(
                frames.len() - 1,
                Frame {
                    ray: frames.last().ray,
                    pending: Pending::Refraction { material, local, reflected },
                },
            ).push(Frame { ray: refracted_ray, pending: Pending::Hits }),
            action: Action::Intersect { ray: refracted_ray },
        }
    }
}

/// The innermost call has its local colour. Where the material is reflective
/// the reflected ray is traced, or answered with the background where it
/// would be too deep; where it is not, the reflected colour is black. Then
/// the refracted ray has its turn.
pub open spec fn to_reflection(
    frames: Seq<Frame>,
    root_depth: int,
    background: Color,
    material: Material,
    local: Color,
    reflected_ray: Ray,
    refracted_ray: Ray,
) -> Outcome {
    if !material.reflectivity.positive() {
        to_refraction(
            frames,
            root_depth,
            background,
            material,
            local,
            Color { red: 0, green: 0, blue: 0 },
            refracted_ray,
        )
    } else if root_depth + frames.len() > MAX_DEPTH {
        to_refraction(frames, root_depth, background, material, local, background, refracted_ray)
    } else {
        Outcome {
            frames: frames.update(
                frames.len() - 1,
                Frame {
                    ray: frames.last().ray,
                    pending: Pending::Reflection { material, local, refracted_ray },
                },
            ).push(Frame { ray: reflected_ray, pending: Pending::Hits }),
            action: Action::Intersect { ray: reflected_ray },
        }
    }
}

/// The innermost call returns `color`. The first call's colour is the
/// result; any other goes to the call that waits for it.
pub open spec fn to_caller(
    frames: Seq<Frame>,
    root_depth: int,
    background: Color,
    color: Color,
) -> Outcome {
    let callers = frames.drop_last();
    if callers.len() == 0 {
        Outcome { frames: callers, action: Action::Done { color } }
    } else {
        match callers.last().pending {
            Pending::Reflection { material, local, refracted_ray } => to_refraction(
                callers,
                root_depth,
                background,
                material,
                local,
                color,
                refracted_ray,
            ),
            Pending::Refraction { material, local, reflected } => to_blend(
                callers,
                material,
                local,
                reflected,
                color,
            ),
            _ => Outcome { frames: callers, action: Action::Done { color } },
        }
    }
}

/// The innermost call has the results of testing its ray against every
/// primitive: where nothing is hit it returns the background, else it asks
/// for the shading of the closest hit.
pub open spec fn to_hits(
    frames: Seq<Frame>,
    root_depth: int,
    background: Color,
    hits: Seq<Intersect>,
) -> Outcome {
    if all_miss(hits) {
        to_caller(frames, root_depth, background, background)
    } else {
        to_shade(frames, hits[closest_index(hits)])
    }
}

/// The innermost call has found `hit` to be its closest: it asks for the shading.
pub open spec fn to_shade(frames: Seq<Frame>, hit: Intersect) -> Outcome {
    Outcome {
        frames: frames.update(
            frames.len() - 1,
            Frame { ray: frames.last().ray, pending: Pending::Shade { hit } },
        ),
        action: Action::Shade { ray: frames.last().ray, hit },
    }
}

/// Asking for a blend keeps the nesting and lowers the budget, as long as the
/// innermost call had more than one answer to wait for.
proof fn lemma_to_blend(
    frames: Seq<Frame>,
    root_depth: int,
    material: Material,
    local: Color,
    reflected: Color,
    refracted: Color,
)
    requires
        frames.len() > 0,
        0 <= root_depth,
        root_depth + frames.len() <= MAX_DEPTH + 1,
        forall|i: int|
            0 <= i < frames.len() - 1 ==> (#[trigger] frames[i]).pending is Reflection || frames[i].pending is Refraction,
    ensures
        nested(to_blend(frames, material, local, reflected, refracted).frames, root_depth),
        budget(to_blend(frames, material, local, reflected, refracted).frames, root_depth) == budget(
            frames.drop_last(),
            root_depth,
        ) + 1,
        to_blend(frames, material, local, reflected, refracted).frames.len() == frames.len(),
        !(to_blend(frames, material, local, reflected, refracted).action is Done),
        expected(to_blend(frames, material, local, reflected, refracted).frames) == awaited(
            to_blend(frames, material, local, reflected, refracted).action,
        ),
{
    let after = to_blend(frames, material, local, reflected, refracted).frames;
    assert(after.drop_last() =~= frames.drop_last());
}

proof fn lemma_to_refraction(
    frames: Seq<Frame>,
    root_depth: int,
    background: Color,
    material: Material,
    local: Color,
    reflected: Color,
    refracted_ray: Ray,
)
    requires
        frames.len() > 0,
        0 <= root_depth,
        root_depth + frames.len() <= MAX_DEPTH + 1,
        forall|i: int|
            0 <= i < frames.len() - 1 ==> (#[trigger] frames[i]).pending is Reflection || frames[i].pending is Refraction,
    ensures
        nested(
            to_refraction(frames, root_depth, background, material, local, reflected, refracted_ray).frames,
            root_depth,
        ),
        budget(
            to_refraction(frames, root_depth, background, material, local, reflected, refracted_ray).frames,
            root_depth,
        ) <= budget(frames.drop_last(), root_depth) + 1 + cost(root_depth + frames.len()),
        to_refraction(frames, root_depth, background, material, local, reflected, refracted_ray).frames.len()
            > 0,
        !(to_refraction(frames, root_depth, background, material, local, reflected, refracted_ray).action is Done),
        expected(
            to_refraction(frames, root_depth, background, material, local, reflected, refracted_ray).frames,
        ) == awaited(
            to_refraction(frames, root_depth, background, material, local, reflected, refracted_ray).action,
        ),
{
    let out = to_refraction(frames, root_depth, background, material, local, reflected, refracted_ray);
    if !material.transparency.positive() {
        lemma_to_blend(frames, root_depth, material, local, reflected, Color { red: 0, green: 0, blue: 0 });
    } else if root_depth + frames.len() > MAX_DEPTH {
        lemma_to_blend(frames, root_depth, material, local, reflected, background);
    } else {
        let waiting = frames.update(
            frames.len() - 1,
            Frame { ray: frames.last().ray, pending: Pending::Refraction { material, local, reflected } },
        );
        assert(out.frames.drop_last() =~= waiting);
        assert(waiting.drop_last() =~= frames.drop_last());
        assert(budget(waiting, root_depth) == budget(frames.drop_last(), root_depth) + 1);
        assert(budget(out.frames, root_depth) == budget(waiting, root_depth) + cost(
            root_depth + frames.len(),
        ));
    }
}

proof fn lemma_to_reflection(
    frames: Seq<Frame>,
    root_depth: int,
    background: Color,
    material: Material,
    local: Color,
    reflected_ray: Ray,
    refracted_ray: Ray,
)
    requires
        frames.len() > 0,
        0 <= root_depth,
        root_depth + frames.len() <= MAX_DEPTH + 1,
        forall|i: int|
            0 <= i < frames.len() - 1 ==> (#[trigger] frames[i]).pending is Reflection || frames[i].pending is Refraction,
    ensures
        nested(
            to_reflection(frames, root_depth, background, material, local, reflected_ray, refracted_ray).frames,
            root_depth,
        ),
        budget(
            to_reflection(frames, root_depth, background, material, local, reflected_ray, refracted_ray).frames,
            root_depth,
        ) <= budget(frames.drop_last(), root_depth) + 1 + 2 * cost(root_depth + frames.len()),
        to_reflection(frames, root_depth, background, material, local, reflected_ray, refracted_ray).frames.len()
            > 0,
        !(to_reflection(frames, root_depth, background, material, local, reflected_ray, refracted_ray).action is Done),
        expected(
            to_reflection(frames, root_depth, background, material, local, reflected_ray, refracted_ray).frames,
        ) == awaited(
            to_reflection(frames, root_depth, background, material, local, reflected_ray, refracted_ray).action,
        ),
{
    let out = to_reflection(frames, root_depth, background, material, local, reflected_ray, refracted_ray);
    if !material.reflectivity.positive() {
        lemma_to_refraction(
            frames,
            root_depth,
            background,
            material,
            local,
            Color { red: 0, green: 0, blue: 0 },
            refracted_ray,
        );
    } else if root_depth + frames.len() > MAX_DEPTH {
        lemma_to_refraction(frames, root_depth, background, material, local, background, refracted_ray);
    } else {
        let waiting = frames.update(
            frames.len() - 1,
            Frame {
                ray: frames.last().ray,
                pending: Pending::Reflection { material, local, refracted_ray },
            },
        );
        assert(out.frames.drop_last() =~= waiting);
        assert(waiting.drop_last() =~= frames.drop_last());
        assert(budget(waiting, root_depth) == budget(frames.drop_last(), root_depth) + 1 + cost(
            root_depth + frames.len(),
        ));
        assert(budget(out.frames, root_depth) == budget(waiting, root_depth) + cost(
            root_depth + frames.len(),
        ));
    }
}

proof fn lemma_to_caller(frames: Seq<Frame>, root_depth: int, background: Color, color: Color)
    requires
        frames.len() > 0,
        nested(frames, root_depth),
    ensures
        nested(to_caller(frames, root_depth, background, color).frames, root_depth),
        budget(to_caller(frames, root_depth, background, color).frames, root_depth) + remaining(
            frames.last().pending,
            root_depth + frames.len() - 1,
        ) <= budget(frames, root_depth),
        to_caller(frames, root_depth, background, color).action is Done <==> frames.len() == 1,
        to_caller(frames, root_depth, background, color).action is Done <==> to_caller(
            frames,
            root_depth,
            background,
            color,
        ).frames.len() == 0,
        frames.len() == 1 ==> to_caller(frames, root_depth, background, color).action == (Action::Done {
            color,
        }),
        expected(to_caller(frames, root_depth, background, color).frames) == awaited(
            to_caller(frames, root_depth, background, color).action,
        ),
{
    let callers = frames.drop_last();
    if callers.len() > 0 {
        assert(callers.last() == frames[frames.len() - 2]);
        assert(budget(callers, root_depth) == budget(callers.drop_last(), root_depth) + remaining(
            callers.last().pending,
            root_depth + callers.len() - 1,
        ));
        assert forall|i: int| 0 <= i < callers.len() - 1 implies (#[trigger] callers[i]).pending is Reflection
            || callers[i].pending is Refraction by {
            assert(callers[i] == frames[i]);
        }
        match callers.last().pending {
            Pending::Reflection { material, local, refracted_ray } => {
                lemma_to_refraction(callers, root_depth, background, material, local, color, refracted_ray);
            },
            Pending::Refraction { material, local, reflected } => {
                lemma_to_blend(callers, root_depth, material, local, reflected, color);
            },
            _ => {},
        }
    }
}


/// The answer that an action asks for.
pub open spec fn awaited(action: Action) -> Expect {
    match action {
        Action::Intersect { .. } => Expect::Hits,
        Action::Shade { .. } => Expect::Shaded,
        Action::Blend { .. } => Expect::Blended,
        Action::Done { .. } => Expect::Nothing,
    }
}

/// What the calls in progress wait for, read off the innermost.
pub open spec fn expected(frames: Seq<Frame>) -> Expect {
    if frames.len() == 0 {
        Expect::Nothing
    } else {
        match frames.last().pending {
            Pending::Hits => Expect::Hits,
            Pending::Shade { .. } => Expect::Shaded,
            Pending::Blend => Expect::Blended,
            _ => Expect::Nothing,
        }
    }
}

impl Tracer {
    /// The calls in progress are nested as the recursion nests them.
    pub open spec fn wf(&self) -> bool {
        nested(self.frames@, self.root_depth as int)
    }

    /// The most answers that can still be needed before the colour is done.
    pub open spec fn budget(&self) -> nat {
        budget(self.frames@, self.root_depth as int)
    }

    /// What the tracer waits for, read off the innermost call.
    pub open spec fn expects_spec(&self) -> Expect {
        expected(self.frames@)
    }

    /// Begins the colour evaluation of `ray` as a call at `depth`. Beyond the
    /// cutoff the colour is the background at once; else the first thing
    /// asked for is the ray's hits.
    pub fn start(ray: Ray, depth: u32, background: Color) -> (begun: (Tracer, Action))
        ensures
            begun.0.wf(),
            begun.0.background == background,
            depth > MAX_DEPTH ==> begun.0.frames@.len() == 0 && begun.1 == (Action::Done {
                color: background,
            }),
            depth <= MAX_DEPTH ==> begun.0.root_depth == depth && begun.0.frames@ == seq![
                Frame { ray, pending: Pending::Hits },
            ] && begun.1 == (Action::Intersect { ray }),
            begun.0.budget() == cost(depth as int),
            begun.0.expects_spec() == awaited(begun.1),
    {
        let mut frames: Vec<Frame> = Vec::new();
        if depth > MAX_DEPTH {
            let tracer = Tracer { frames, background, root_depth: 0 };
            assert(budget(tracer.frames@, 0) == 0);
            (tracer, Action::Done { color: background })
        } else {
            frames.push(Frame { ray, pending: Pending::Hits });
            let tracer = Tracer { frames, background, root_depth: depth };
            proof {
                assert(tracer.frames@ =~= seq![Frame { ray, pending: Pending::Hits }]);
                assert(tracer.frames@.drop_last() =~= Seq::<Frame>::empty());
                assert(budget(tracer.frames@.drop_last(), depth as int) == 0);
            }
            (tracer, Action::Intersect { ray })
        }
    }

    /// What the tracer waits for.
    pub fn expects(&self) -> (e: Expect)
        ensures
            e == self.expects_spec(),
    {
        let n: usize = self.frames.len();
        if n == 0 {
            return Expect::Nothing;
        }
        match self.frames[n - 1].pending {
            Pending::Hits => Expect::Hits,
            Pending::Shade { .. } => Expect::Shaded,
            Pending::Blend => Expect::Blended,
            _ => Expect::Nothing,
        }
    }

    fn blend(&mut self, material: Material, local: Color, reflected: Color, refracted: Color) -> (action: Action)
        requires
            old(self).frames@.len() > 0,
        ensures
            final(self).background == old(self).background,
            final(self).root_depth == old(self).root_depth,
            final(self).frames@ == to_blend(old(self).frames@, material, local, reflected, refracted).frames,
            action == to_blend(old(self).frames@, material, local, reflected, refracted).action,
    {
        let n: usize = self.frames.len();
        let ray = self.frames[n - 1].ray;
        self.frames.set(n - 1, Frame { ray, pending: Pending::Blend });
        Action::Blend {
            local,
            reflected,
            refracted,
            reflectivity: material.reflectivity,
            transparency: material.transparency,
        }
    }

    fn refraction(&mut self, material: Material, local: Color, reflected: Color, refracted_ray: Ray) -> (action: Action)
        requires
            old(self).frames@.len() > 0,
            old(self).root_depth + old(self).frames@.len() <= MAX_DEPTH + 1,
        ensures
            final(self).background == old(self).background,
            final(self).root_depth == old(self).root_depth,
            final(self).frames@ == to_refraction(
                old(self).frames@,
                old(self).root_depth as int,
                old(self).background,
                material,
                local,
                reflected,
                refracted_ray,
            ).frames,
            action == to_refraction(
                old(self).frames@,
                old(self).root_depth as int,
                old(self).background,
                material,
                local,
                reflected,
                refracted_ray,
            ).action,
    {
        let n: usize = self.frames.len();
        if !material.is_transparent() {
            self.blend(material, local, reflected, Color::black())
        } else if self.root_depth as usize + n > MAX_DEPTH as usize {
            self.blend(material, local, reflected, self.background)
        } else {
            let ray = self.frames[n - 1].ray;
            self.frames.set(n - 1, Frame { ray, pending: Pending::Refraction { material, local, reflected } });
            self.frames.push(Frame { ray: refracted_ray, pending: Pending::Hits });
            Action::Intersect { ray: refracted_ray }
        }
    }

    fn reflection(&mut self, material: Material, local: Color, reflected_ray: Ray, refracted_ray: Ray) -> (action: Action)
        requires
            old(self).frames@.len() > 0,
            old(self).root_depth + old(self).frames@.len() <= MAX_DEPTH + 1,
        ensures
            final(self).background == old(self).background,
            final(self).root_depth == old(self).root_depth,
            final(self).frames@ == to_reflection(
                old(self).frames@,
                old(self).root_depth as int,
                old(self).background,
                material,
                local,
                reflected_ray,
                refracted_ray,
            ).frames,
            action == to_reflection(
                old(self).frames@,
                old(self).root_depth as int,
                old(self).background,
                material,
                local,
                reflected_ray,
                refracted_ray,
            ).action,
    {
        let n: usize = self.frames.len();
        if !material.is_reflective() {
            self.refraction(material, local, Color::black(), refracted_ray)
        } else if self.root_depth as usize + n > MAX_DEPTH as usize {
            self.refraction(material, local, self.background, refracted_ray)
        } else {
            let ray = self.frames[n - 1].ray;
            self.frames.set(
                n - 1,
                Frame { ray, pending: Pending::Reflection { material, local, refracted_ray } },
            );
            self.frames.push(Frame { ray: reflected_ray, pending: Pending::Hits });
            Action::Intersect { ray: reflected_ray }
        }
    }

    fn finish(&mut self, color: Color) -> (action: Action)
        requires
            old(self).frames@.len() > 0,
            old(self).wf(),
        ensures
            final(self).background == old(self).background,
            final(self).root_depth == old(self).root_depth,
            final(self).frames@ == to_caller(
                old(self).frames@,
                old(self).root_depth as int,
                old(self).background,
                color,
            ).frames,
            action == to_caller(
                old(self).frames@,
                old(self).root_depth as int,
                old(self).background,
                color,
            ).action,
    {
        self.frames.pop();
        let n: usize = self.frames.len();
        if n == 0 {
            return Action::Done { color };
        }
        match self.frames[n - 1].pending {
            Pending::Reflection { material, local, refracted_ray } => self.refraction(
                material,
                local,
                color,
                refracted_ray,
            ),
            Pending::Refraction { material, local, reflected } => self.blend(
                material,
                local,
                reflected,
                color,
            ),
            _ => Action::Done { color },
        }
    }

    /// Takes the results of testing the innermost call's ray against every
    /// primitive. Where nothing is hit the call returns the background;
    /// else the shading of the closest hit is asked for.
    pub fn on_hits(&mut self, hits: &Vec<Intersect>) -> (action: Action)
        requires
            old(self).wf(),
            old(self).expects_spec() == Expect::Hits,
        ensures
            final(self).wf(),
            final(self).background == old(self).background,
            final(self).root_depth == old(self).root_depth,
            final(self).frames@ == to_hits(
                old(self).frames@,
                old(self).root_depth as int,
                old(self).background,
                hits@,
            ).frames,
            action == to_hits(
                old(self).frames@,
                old(self).root_depth as int,
                old(self).background,
                hits@,
            ).action,
            all_miss(hits@) && old(self).frames@.len() == 1 ==> action == (Action::Done {
                color: old(self).background,
            }),
            final(self).budget() < old(self).budget(),
            action is Done <==> final(self).frames@.len() == 0,
            final(self).expects_spec() == awaited(action),
    {
        let n: usize = self.frames.len();
        proof {
            lemma_cost_positive(self.root_depth + n - 1);
        }
        match closest_hit(hits) {
            None => {
                proof {
                    lemma_to_caller(
                        self.frames@,
                        self.root_depth as int,
                        self.background,
                        self.background,
                    );
                }
                self.finish(self.background)
            },
            Some(k) => {
                let hit = hits[k];
                let ray = self.frames[n - 1].ray;
                proof {
                    assert(hits@[k as int].counts());
                    let after = to_shade(self.frames@, hit).frames;
                    assert(after.drop_last() =~= self.frames@.drop_last());
                }
                self.frames.set(n - 1, Frame { ray, pending: Pending::Shade { hit } });
                Action::Shade { ray, hit }
            },
        }
    }

    /// Takes the local colour at the innermost call's hit and its two
    /// secondary rays. A reflective material has the reflected ray traced
    /// first, a transparent one the refracted ray after it; a secondary ray
    /// beyond the cutoff shows the background, and one that the material
    /// does not ask for is black. With all three colours the blend is asked for.
    pub fn on_shaded(&mut self, local: Color, reflected_ray: Ray, refracted_ray: Ray) -> (action: Action)
        requires
            old(self).wf(),
            old(self).expects_spec() == Expect::Shaded,
        ensures
            final(self).wf(),
            final(self).background == old(self).background,
            final(self).root_depth == old(self).root_depth,
            final(self).frames@ == to_reflection(
                old(self).frames@,
                old(self).root_depth as int,
                old(self).background,
                old(self).frames@.last().pending->Shade_hit.material,
                local,
                reflected_ray,
                refracted_ray,
            ).frames,
            action == to_reflection(
                old(self).frames@,
                old(self).root_depth as int,
                old(self).background,
                old(self).frames@.last().pending->Shade_hit.material,
                local,
                reflected_ray,
                refracted_ray,
            ).action,
            final(self).budget() < old(self).budget(),
            !(action is Done),
            final(self).frames@.len() > 0,
            final(self).expects_spec() == awaited(action),
    {
        let n: usize = self.frames.len();
        match self.frames[n - 1].pending {
            Pending::Shade { hit } => {
                proof {
                    lemma_to_reflection(
                        self.frames@,
                        self.root_depth as int,
                        self.background,
                        hit.material,
                        local,
                        reflected_ray,
                        refracted_ray,
                    );
                }
                self.reflection(hit.material, local, reflected_ray, refracted_ray)
            },
            _ => Action::Done { color: local },
        }
    }

    /// Takes the blended colour of the innermost call, which returns it: to
    /// the call that waits for it, or as the colour of the first ray.
    pub fn on_blended(&mut self, color: Color) -> (action: Action)
        requires
            old(self).wf(),
            old(self).expects_spec() == Expect::Blended,
        ensures
            final(self).wf(),
            final(self).background == old(self).background,
            final(self).root_depth == old(self).root_depth,
            final(self).frames@ == to_caller(
                old(self).frames@,
                old(self).root_depth as int,
                old(self).background,
                color,
            ).frames,
            action == to_caller(
                old(self).frames@,
                old(self).root_depth as int,
                old(self).background,
                color,
            ).action,
            old(self).frames@.len() == 1 ==> action == (Action::Done { color }),
            final(self).budget() < old(self).budget(),
            action is Done <==> final(self).frames@.len() == 0,
            final(self).expects_spec() == awaited(action),
    {
        proof {
            lemma_to_caller(self.frames@, self.root_depth as int, self.background, color);
        }
        self.finish(color)
    }
}

/// A call that is traced needs at least three answers.
pub proof fn lemma_cost_positive(depth: int)
    requires
        depth <= MAX_DEPTH,
    ensures
        cost(depth) >= 3,
{
}

/// A call at depth 0 needs at most 45 answers, one at the cutoff at most 3,
/// and one beyond it none.
pub proof fn lemma_cost_bound(depth: int)
    requires
        0 <= depth,
    ensures
        cost(depth) <= 45,
        cost(0) == 45,
        cost(MAX_DEPTH as int) == 3,
        depth > MAX_DEPTH ==> cost(depth) == 0,
{
    reveal_with_fuel(cost, 6);
}

/// While a ray is traced, no call in progress is deeper than the cutoff.
pub proof fn lemma_depth_is_bounded(tracer: Tracer, i: int)
    requires
        tracer.wf(),
        0 <= i < tracer.frames@.len(),
    ensures
        tracer.root_depth + i <= MAX_DEPTH,
{
}

/// A call at the cutoff traces no secondary ray. It goes straight to the
/// blend, where each secondary colour that its material asks for is the
/// background and each other one is black, and the weights are the
/// material's own reflectivity and transparency.
pub proof fn lemma_cutoff_shows_background(
    frames: Seq<Frame>,
    root_depth: int,
    background: Color,
    material: Material,
    local: Color,
    reflected_ray: Ray,
    refracted_ray: Ray,
)
    requires
        frames.len() > 0,
        root_depth + frames.len() == MAX_DEPTH + 1,
    ensures
        to_reflection(frames, root_depth, background, material, local, reflected_ray, refracted_ray).frames.len()
            == frames.len(),
        to_reflection(frames, root_depth, background, material, local, reflected_ray, refracted_ray).action
            == (Action::Blend {
            local,
            reflected: if material.reflectivity.positive() {
                background
            } else {
                Color { red: 0, green: 0, blue: 0 }
            },
            refracted: if material.transparency.positive() {
                background
            } else {
                Color { red: 0, green: 0, blue: 0 }
            },
            reflectivity: material.reflectivity,
            transparency: material.transparency,
        }),
{
}

/// A ray that hits nothing shows the background: as the colour of the first
/// ray where the call is the first, at whatever depth it began, and as the
/// colour handed to the waiting call where it is not.
pub proof fn lemma_miss_shows_background(frames: Seq<Frame>, root_depth: int, background: Color)
    requires
        frames.len() > 0,
        nested(frames, root_depth),
    ensures
        frames.len() == 1 ==> to_caller(frames, root_depth, background, background).action == (Action::Done {
            color: background,
        }),
        frames.len() > 1 ==> match frames[frames.len() - 2].pending {
            Pending::Reflection { material, local, refracted_ray } => to_caller(
                frames,
                root_depth,
                background,
                background,
            ) == to_refraction(
                frames.drop_last(),
                root_depth,
                background,
                material,
                local,
                background,
                refracted_ray,
            ),
            Pending::Refraction { material, local, reflected } => to_caller(
                frames,
                root_depth,
                background,
                background,
            ) == to_blend(frames.drop_last(), material, local, reflected, background),
            _ => false,
        },
{
    if frames.len() > 1 {
        assert(frames.drop_last().last() == frames[frames.len() - 2]);
    }
}

/// While a call is in progress the budget is not spent: at least one answer
/// is still owed.
pub proof fn lemma_budget_is_positive(tracer: Tracer)
    requires
        tracer.wf(),
        tracer.frames@.len() > 0,
    ensures
        tracer.budget() >= 1,
        tracer.expects_spec() != Expect::Nothing,
{
    lemma_cost_positive(tracer.root_depth + tracer.frames@.len() - 1);
}

/// The local colour at a hit, and the two rays that leave it.
#[derive(Debug, Clone, Copy)]
pub struct Shaded {
    pub local: Color,
    pub reflected_ray: Ray,
    pub refracted_ray: Ray,
}

/// Whether `color` is what the shading gives for `hit` as seen along `ray`,
/// with `reflected` and `refracted` for the colours of its secondary rays:
/// the ray towards the light is the one that `shadow_ray` gives for the hit,
/// the shadow is found by testing that ray against every shape, `shaded` is
/// what `shade` gives under that shadow, and `color` is what `blend` gives
/// for the local colour, the two secondary colours and the material's
/// reflectivity and transparency.
pub open spec fn shades_to<
    T: RayIntersect,
    F1: Fn(&Intersect) -> Ray,
    F2: Fn(&Ray, &Intersect, Scalar) -> Shaded,
    F3: Fn(Color, Color, Color, Scalar, Scalar) -> Color,
>(
    objects: Seq<T>,
    shadow_ray: &F1,
    shade: &F2,
    blend: &F3,
    ray: Ray,
    hit: Intersect,
    toward_light: Ray,
    shaded: Shaded,
    reflected: Color,
    refracted: Color,
    color: Color,
) -> bool {
    &&& call_ensures(*shadow_ray, (&hit,), toward_light)
    &&& call_ensures(
        *shade,
        (&ray, &hit, shadow_of(intersections(objects, toward_light.origin, toward_light.direction))),
        shaded,
    )
    &&& call_ensures(
        *blend,
        (shaded.local, reflected, refracted, hit.material.reflectivity, hit.material.transparency),
        color,
    )
}

/// Whether `color` is a colour that the recursive evaluation of `ray` as a
/// call at `depth` can give: the background beyond the cutoff and where the
/// ray hits nothing; else what the shading gives at the closest hit, where
/// the colour of a secondary ray is black unless the material asks for it,
/// and else a colour that the evaluation of that ray one call deeper can give.
pub open spec fn traces_to<
    T: RayIntersect,
    F1: Fn(&Intersect) -> Ray,
    F2: Fn(&Ray, &Intersect, Scalar) -> Shaded,
    F3: Fn(Color, Color, Color, Scalar, Scalar) -> Color,
>(
    objects: Seq<T>,
    shadow_ray: &F1,
    shade: &F2,
    blend: &F3,
    ray: Ray,
    depth: int,
    background: Color,
    color: Color,
) -> bool
    decreases MAX_DEPTH + 1 - depth,
{
    let hits = intersections(objects, ray.origin, ray.direction);
    if depth > MAX_DEPTH || all_miss(hits) {
        color == background
    } else {
        let hit = hits[closest_index(hits)];
        exists|toward_light: Ray, shaded: Shaded, reflected: Color, refracted: Color|
            {
                &&& #[trigger] shades_to(
                    objects,
                    shadow_ray,
                    shade,
                    blend,
                    ray,
                    hit,
                    toward_light,
                    shaded,
                    reflected,
                    refracted,
                    color,
                )
                &&& if hit.material.reflectivity.positive() {
                    traces_to(
                        objects,
                        shadow_ray,
                        shade,
                        blend,
                        shaded.reflected_ray,
                        depth + 1,
                        background,
                        reflected,
                    )
                } else {
                    reflected == (Color { red: 0, green: 0, blue: 0 })
                }
                &&& if hit.material.transparency.positive() {
                    traces_to(
                        objects,
                        shadow_ray,
                        shade,
                        blend,
                        shaded.refracted_ray,
                        depth + 1,
                        background,
                        refracted,
                    )
                } else {
                    refracted == (Color { red: 0, green: 0, blue: 0 })
                }
            }
    }
}

/// The colour seen along a ray, found as a call at `depth` of the recursive
/// evaluation: the background beyond the cutoff and where the ray hits
/// nothing; else the blend of the local colour at the closest hit with what
/// the reflected and the refracted ray see, each traced one call deeper.
///
/// The arithmetic is the caller's: `shadow_ray` gives the ray from a hit
/// towards the light, `shade` the local colour and the two secondary rays
/// under a shadow, `blend` the weighted sum of three colours. Each must be
/// callable on every input.
pub fn cast_ray<
    T: RayIntersect,
    F1: Fn(&Intersect) -> Ray,
    F2: Fn(&Ray, &Intersect, Scalar) -> Shaded,
    F3: Fn(Color, Color, Color, Scalar, Scalar) -> Color,
>(
    ray_origin: &Vec3,
    ray_direction: &Vec3,
    objects: &[T],
    shadow_ray: &F1,
    shade: &F2,
    blend: &F3,
    depth: u32,
    background: Color,
) -> (color: Color)
    requires
        forall|hit: &Intersect| call_requires(*shadow_ray, (hit,)),
        forall|ray: &Ray, hit: &Intersect, shadow: Scalar| call_requires(*shade, (ray, hit, shadow)),
        forall|local: Color, reflected: Color, refracted: Color, reflectivity: Scalar, transparency: Scalar|
            call_requires(*blend, (local, reflected, refracted, reflectivity, transparency)),
    ensures
        traces_to(
            objects@,
            shadow_ray,
            shade,
            blend,
            Ray { origin: *ray_origin, direction: *ray_direction },
            depth as int,
            background,
            color,
        ),
        depth > MAX_DEPTH ==> color == background,
        all_miss(intersections(objects@, *ray_origin, *ray_direction)) ==> color == background,
    decreases MAX_DEPTH + 1 - depth,
{
    if depth > MAX_DEPTH {
        return background;
    }
    let ray = Ray { origin: *ray_origin, direction: *ray_direction };
    let hits = intersect_all(objects, ray_origin, ray_direction);
    match closest_hit(&hits) {
        None => background,
        Some(k) => {
            let hit = hits[k];
            let toward_light = shadow_ray(&hit);
            let blockers = intersect_all(objects, &toward_light.origin, &toward_light.direction);
            let shadow = cast_shadow(&blockers);
            let shaded = shade(&ray, &hit, shadow);
            let reflected = if hit.material.is_reflective() {
                cast_ray(
                    &shaded.reflected_ray.origin,
                    &shaded.reflected_ray.direction,
                    objects,
                    shadow_ray,
                    shade,
                    blend,
                    depth + 1,
                    background,
                )
            } else {
                Color::black()
            };
            let refracted = if hit.material.is_transparent() {
                cast_ray(
                    &shaded.refracted_ray.origin,
                    &shaded.refracted_ray.direction,
                    objects,
                    shadow_ray,
                    shade,
                    blend,
                    depth + 1,
                    background,
                )
            } else {
                Color::black()
            };
            let color = blend(
                shaded.local,
                reflected,
                refracted,
                hit.material.reflectivity,
                hit.material.transparency,
            );
            proof {
                assert(shades_to(
                    objects@,
                    shadow_ray,
                    shade,
                    blend,
                    ray,
                    hit,
                    toward_light,
                    shaded,
                    reflected,
                    refracted,
                    color,
                ));
            }
            color
        },
    }
}

} // verus!
