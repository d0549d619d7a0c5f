use vstd::prelude::*;
use crate::color::Color;
use crate::materials::Material;
use crate::scalar::{Scalar, Vec3, INFINITY_BITS};

verus! {

/// The bit pattern of seven tenths: the share of the light that a shadow takes away.
pub const SHADOW_BITS: u32 = 0x3f33_3333;

/// What testing one ray against one primitive gave.
///
/// Where `is_intersecting` is false, the other fields mean nothing.
#[derive(Debug, Clone, Copy)]
pub struct Intersect {
    pub point: Vec3,
    pub normal: Vec3,
    pub distance: Scalar,
    pub is_intersecting: bool,
    pub material: Material,
    pub u: Scalar,
    pub v: Scalar,
}

impl Intersect {
    /// Whether this record can become the closest hit of a search that starts
    /// with nothing: it is a hit, at a distance below infinity.
    pub open spec fn counts(&self) -> bool {
        self.is_intersecting && self.distance.lt_spec(Scalar { bits: INFINITY_BITS })
    }

    /// A hit at `point`, `distance` along the ray.
    pub fn new(
        point: Vec3,
        normal: Vec3,
        distance: Scalar,
        material: Material,
        u: Scalar,
        v: Scalar,
    ) -> (hit: Intersect)
        ensures
            hit.point == point,
            hit.normal == normal,
            hit.distance == distance,
            hit.is_intersecting,
            hit.material == material,
            hit.u == u,
            hit.v == v,
    {
        Intersect { point, normal, distance, is_intersecting: true, material, u, v }
    }

    /// The record of a miss: not intersecting, at distance zero, and every
    /// other field at its zero: the point and the normal at the origin, the
    /// texture coordinates zero, the material black with every weight zero.
    pub fn empty() -> (miss: Intersect)
        ensures
            !miss.is_intersecting,
            miss.distance.bits == 0,
            !miss.counts(),
            miss.point.x.bits == 0 && miss.point.y.bits == 0 && miss.point.z.bits == 0,
            miss.normal.x.bits == 0 && miss.normal.y.bits == 0 && miss.normal.z.bits == 0,
            miss.u.bits == 0 && miss.v.bits == 0,
            miss.material.diffuse == (Color { red: 0, green: 0, blue: 0 }),
            miss.material.specular.bits == 0,
            miss.material.albedo[0].bits == 0 && miss.material.albedo[1].bits == 0,
            miss.material.reflectivity.bits == 0 && miss.material.transparency.bits == 0,
            miss.material.refraction_index.bits == 0,
            miss.material.texture_index.is_none() && miss.material.emissive_color.is_none(),
            miss.material.emissive_intensity.bits == 0,
    {
        let origin = Vec3::new(Scalar::zero(), Scalar::zero(), Scalar::zero());
        Intersect {
            point: origin,
            normal: origin,
            distance: Scalar::zero(),
            is_intersecting: false,
            material: Material::black(),
            u: Scalar::zero(),
            v: Scalar::zero(),
        }
    }
}

/// A shape that a ray can be tested against.
///
/// The test is a function of the shape and the ray: the same ray gives the
/// same record. Nothing else is asked of an implementation here. Code that
/// is not verified writes `intersection` as a call of `ray_intersect`.
pub trait RayIntersect {
    /// The record that testing the ray against the shape gives.
    spec fn intersection(&self, ray_origin: Vec3, ray_direction: Vec3) -> Intersect;

    /// Tests the ray against the shape: the nearest hit ahead of the origin,
    /// or the record of a miss.
    fn ray_intersect(&self, ray_origin: &Vec3, ray_direction: &Vec3) -> (hit: Intersect)
        ensures
            hit == self.intersection(*ray_origin, *ray_direction),
    ;
}

/// What testing one ray against each shape gives, in the order of the shapes.
pub open spec fn intersections<T: RayIntersect>(
    objects: Seq<T>,
    ray_origin: Vec3,
    ray_direction: Vec3,
) -> Seq<Intersect> {
    Seq::new(objects.len(), |i: int| objects[i].intersection(ray_origin, ray_direction))
}

/// Tests one ray against every shape.
pub fn intersect_all<T: RayIntersect>(objects: &[T], ray_origin: &Vec3, ray_direction: &Vec3) -> (hits: Vec<Intersect>)
    ensures
        hits@ == intersections(objects@, *ray_origin, *ray_direction),
{
    let mut hits: Vec<Intersect> = Vec::new();
    let mut n: usize = 0;
    while n < objects.len()
        invariant
            0 <= n <= objects@.len(),
            hits@.len() == n,
            forall|i: int|
                0 <= i < n ==> hits@[i] == (#[trigger] objects@[i]).intersection(*ray_origin, *ray_direction),
        decreases objects@.len() - n,
    {
        let hit = objects[n].ray_intersect(ray_origin, ray_direction);
        hits.push(hit);
        n += 1;
    }
    assert(hits@ =~= intersections(objects@, *ray_origin, *ray_direction));
    hits
}

/// Whether hit `k` is the one a linear search keeps: it counts, no hit is
/// nearer, and every hit listed before it is strictly farther.
pub open spec fn is_closest(hits: Seq<Intersect>, k: int) -> bool {
    &&& 0 <= k < hits.len()
    &&& hits[k].counts()
    &&& forall|i: int|
        0 <= i < hits.len() && hits[i].is_intersecting ==> !(#[trigger] hits[i]).distance.lt_spec(
            hits[k].distance,
        )
    &&& forall|i: int|
        0 <= i < k && hits[i].is_intersecting ==> !(#[trigger] hits[i]).distance.le_spec(
            hits[k].distance,
        )
}

/// Whether every record is a miss for the search: none counts.
pub open spec fn all_miss(hits: Seq<Intersect>) -> bool {
    forall|i: int| 0 <= i < hits.len() ==> !(#[trigger] hits[i]).counts()
}

/// The closest hit of a list that has one.
pub open spec fn closest_index(hits: Seq<Intersect>) -> int {
    choose|k: int| is_closest(hits, k)
}

/// A list of hits has at most one closest hit.
pub proof fn lemma_closest_is_unique(hits: Seq<Intersect>, a: int, b: int)
    requires
        is_closest(hits, a),
        is_closest(hits, b),
    ensures
        a == b,
{
    if a < b {
        assert(!hits[a].distance.le_spec(hits[b].distance));
        assert(!hits[b].distance.lt_spec(hits[a].distance));
    } else if b < a {
        assert(!hits[b].distance.le_spec(hits[a].distance));
        assert(!hits[a].distance.lt_spec(hits[b].distance));
    }
}

/// The index that a search of the first `n` records keeps, or -1.
proof fn lemma_closest_among(hits: Seq<Intersect>, n: int) -> (k: int)
    requires
        0 <= n <= hits.len(),
    ensures
        -1 <= k < n,
        k == -1 ==> forall|i: int| 0 <= i < n ==> !(#[trigger] hits[i]).counts(),
        k >= 0 ==> hits[k].counts(),
        k >= 0 ==> forall|i: int|
            0 <= i < n && hits[i].is_intersecting ==> !(#[trigger] hits[i]).distance.lt_spec(
                hits[k].distance,
            ),
        k >= 0 ==> forall|i: int|
            0 <= i < k && hits[i].is_intersecting ==> !(#[trigger] hits[i]).distance.le_spec(
                hits[k].distance,
            ),
    decreases n,
{
    if n == 0 {
        -1
    } else {
        let before = lemma_closest_among(hits, n - 1);
        let bound = if before == -1 {
            Scalar { bits: INFINITY_BITS }
        } else {
            hits[before].distance
        };
        if hits[n - 1].is_intersecting && hits[n - 1].distance.lt_spec(bound) {
            n - 1
        } else {
            before
        }
    }
}

/// A list in which some record counts has a closest hit.
pub proof fn lemma_closest_exists(hits: Seq<Intersect>)
    requires
        !all_miss(hits),
    ensures
        is_closest(hits, closest_index(hits)),
{
    let k = lemma_closest_among(hits, hits.len() as int);
    assert(is_closest(hits, k));
}

/// The closest hit among the results of testing one ray against every
/// primitive, by position in the list. Of hits at one distance the first
/// listed is kept. `None` where the ray hits nothing.
pub fn closest_hit(hits: &Vec<Intersect>) -> (best: Option<usize>)
    ensures
        best.is_none() <==> all_miss(hits@),
        best.is_some() ==> is_closest(hits@, best.unwrap() as int),
        best.is_some() ==> best.unwrap() == closest_index(hits@),
{
    let mut best: Option<usize> = None;
    let mut zbuffer: Scalar = Scalar::infinity();
    let mut n: usize = 0;
    while n < hits.len()
        invariant
            0 <= n <= hits@.len(),
            !zbuffer.nan(),
            zbuffer.rank() <= INFINITY_BITS,
            best.is_none() ==> zbuffer.bits == INFINITY_BITS,
            best.is_none() ==> forall|i: int| 0 <= i < n ==> !(#[trigger] hits@[i]).counts(),
            best.is_some() ==> best.unwrap() < n && zbuffer == hits@[best.unwrap() as int].distance
                && hits@[best.unwrap() as int].counts(),
            forall|i: int|
                0 <= i < n && hits@[i].is_intersecting ==> !(#[trigger] hits@[i]).distance.lt_spec(
                    zbuffer,
                ),
            best.is_some() ==> forall|i: int|
                0 <= i < best.unwrap() && hits@[i].is_intersecting ==> !(#[trigger] hits@[
                    i
                ]).distance.le_spec(zbuffer),
        decreases hits@.len() - n,
    {
        let candidate = &hits[n];
        if candidate.is_intersecting && candidate.distance.lt(zbuffer) {
            zbuffer = candidate.distance;
            best = Some(n);
        }
        n += 1;
    }
    proof {
        if best.is_some() {
            assert(is_closest(hits@, best.unwrap() as int));
            lemma_closest_is_unique(hits@, best.unwrap() as int, closest_index(hits@));
        }
    }
    best
}

/// The share of the light that a shadow takes away where the ray towards the
/// light gave `hits`: seven tenths where anything is hit, else nothing.
pub open spec fn shadow_of(hits: Seq<Intersect>) -> Scalar {
    if exists|i: int| 0 <= i < hits.len() && (#[trigger] hits[i]).is_intersecting {
        Scalar { bits: SHADOW_BITS }
    } else {
        Scalar { bits: 0 }
    }
}

/// How much of the light a shadow takes away at a point, given the results of
/// testing the ray from that point towards the light against every
/// primitive: seven tenths where anything is hit, whatever it is made of,
/// else nothing.
pub fn cast_shadow(hits: &Vec<Intersect>) -> (shadow: Scalar)
    ensures
        shadow == shadow_of(hits@),
        shadow.bits == (if exists|i: int| 0 <= i < hits@.len() && (#[trigger] hits@[i]).is_intersecting {
            SHADOW_BITS
        } else {
            0u32
        }),
{
    let mut n: usize = 0;
    while n < hits.len()
        invariant
            0 <= n <= hits@.len(),
            forall|i: int| 0 <= i < n ==> !(#[trigger] hits@[i]).is_intersecting,
        decreases hits@.len() - n,
    {
        if hits[n].is_intersecting {
            return Scalar::from_bits(SHADOW_BITS);
        }
        n += 1;
    }
    Scalar::zero()
}

/// Where no record is a hit, every record is a miss for the search, and no
/// hit is the closest.
pub proof fn lemma_no_hit_is_all_miss(hits: Seq<Intersect>)
    requires
        forall|i: int| 0 <= i < hits.len() ==> !(#[trigger] hits[i]).is_intersecting,
    ensures
        all_miss(hits),
        forall|k: int| !is_closest(hits, k),
{
}

/// The closest hit is a hit, and where the distances are numbers it is at the
/// least of them: no hit is below it, and a hit of the same rank comes after it.
pub proof fn lemma_closest_is_least(hits: Seq<Intersect>, k: int, i: int)
    requires
        is_closest(hits, k),
        0 <= i < hits.len(),
        hits[i].is_intersecting,
        !hits[i].distance.nan(),
    ensures
        hits[k].is_intersecting,
        !hits[k].distance.nan(),
        hits[k].distance.rank() <= hits[i].distance.rank(),
        hits[k].distance.rank() == hits[i].distance.rank() ==> k <= i,
{
}

} // verus!
