//! A scene: an ordered list of spheres, resolved to the nearest hit.
use vstd::prelude::*;
use crate::fixed::{isqrt, lemma_isqrt_exists, lemma_quot_monotone};
use crate::hittable::{
    far_root, lemma_dot_self_nonneg, lemma_hit_in_range, near_root, quad_a, quad_disc, quad_half_b, sphere_hit,
    HitRecord, Hittable, Sphere,
};
use crate::ray::Ray;

verus! {

pub struct HittableList {
    pub objects: Vec<Sphere>,
}

/// The result of scanning `objs` in order with a shrinking upper bound: a
/// later hit replaces the current one only when it is strictly nearer.
pub open spec fn scene_hit(objs: Seq<Sphere>, r: Ray, t_min: i64, t_max: i64) -> Option<
    HitRecord,
>
    decreases objs.len(),
{
    if objs.len() == 0 {
        None
    } else {
        let prev = scene_hit(objs.drop_last(), r, t_min, t_max);
        let bound = match prev {
            Some(h) => h.t,
            None => t_max,
        };
        match sphere_hit(objs.last(), r, t_min, bound) {
            Some(h) => if prev is None || h.t < bound {
                Some(h)
            } else {
                prev
            },
            None => prev,
        }
    }
}

/// Lowering the upper bound to no less than a hit's parameter keeps that hit.
pub proof fn lemma_hit_under_lower_bound(
    s: Sphere,
    r: Ray,
    t_min: i64,
    t_max: i64,
    bound: i64,
)
    requires
        sphere_hit(s, r, t_min, t_max) is Some,
        sphere_hit(s, r, t_min, t_max)->0.t <= bound <= t_max,
    ensures
        sphere_hit(s, r, t_min, bound) == sphere_hit(s, r, t_min, t_max),
{
    reveal(sphere_hit);
}

/// The nearer root never exceeds the farther one.
proof fn lemma_near_le_far(s: Sphere, r: Ray)
    requires
        quad_disc(s, r) >= 0,
    ensures
        near_root(s, r) <= far_root(s, r),
{
    lemma_dot_self_nonneg(r.direction);
    lemma_isqrt_exists(quad_disc(s, r));
    let hb = quad_half_b(s, r) as int;
    let sq = isqrt(quad_disc(s, r));
    lemma_quot_monotone(-hb - sq, -hb + sq, quad_a(s, r));
}

/// A hit beyond a lower bound disappears under that bound.
proof fn lemma_hit_beyond_bound(s: Sphere, r: Ray, t_min: i64, t_max: i64, bound: i64)
    requires
        sphere_hit(s, r, t_min, t_max) is Some,
        sphere_hit(s, r, t_min, t_max)->0.t > bound,
        bound <= t_max,
    ensures
        sphere_hit(s, r, t_min, bound) is None,
{
    reveal(sphere_hit);
    if quad_disc(s, r) >= 0 {
        lemma_near_le_far(s, r);
    }
}

/// Every sphere before index `i` is missed or hit strictly beyond `t`.
pub open spec fn farther_before(
    objs: Seq<Sphere>,
    i: int,
    r: Ray,
    t_min: i64,
    t_max: i64,
    t: i64,
) -> bool {
    forall|k: int|
        0 <= k < i ==> (sphere_hit(#[trigger] objs[k], r, t_min, t_max) is None || sphere_hit(
            objs[k],
            r,
            t_min,
            t_max,
        )->0.t > t)
}

/// The scene reports no hit exactly when no sphere is hit; otherwise it
/// reports the own hit of one sphere, before which every sphere is missed or
/// hit strictly farther, and no sphere is hit strictly nearer.
pub proof fn lemma_scene_hit_is_nearest(objs: Seq<Sphere>, r: Ray, t_min: i64, t_max: i64)
    ensures
        scene_hit(objs, r, t_min, t_max) is None <==> forall|i: int|
            0 <= i < objs.len() ==> sphere_hit(#[trigger] objs[i], r, t_min, t_max) is None,
        scene_hit(objs, r, t_min, t_max) is Some ==> exists|i: int|
            0 <= i < objs.len() && sphere_hit(#[trigger] objs[i], r, t_min, t_max) == scene_hit(
                objs,
                r,
                t_min,
                t_max,
            ) && farther_before(objs, i, r, t_min, t_max, scene_hit(objs, r, t_min, t_max)->0.t),
        scene_hit(objs, r, t_min, t_max) is Some ==> forall|i: int|
            0 <= i < objs.len() && sphere_hit(#[trigger] objs[i], r, t_min, t_max) is Some
                ==> scene_hit(objs, r, t_min, t_max)->0.t <= sphere_hit(
                objs[i],
                r,
                t_min,
                t_max,
            )->0.t,
    decreases objs.len(),
{
    if objs.len() > 0 {
        let prefix = objs.drop_last();
        let last = objs.last();
        lemma_scene_hit_is_nearest(prefix, r, t_min, t_max);
        assert forall|i: int| 0 <= i < prefix.len() implies prefix[i] == objs[i] by {}
        assert(objs[objs.len() - 1] == last);
        let prev = scene_hit(prefix, r, t_min, t_max);
        let full = sphere_hit(last, r, t_min, t_max);
        let n = objs.len() - 1;
        match prev {
            None => {
                if full is Some {
                    assert(sphere_hit(objs[n], r, t_min, t_max) == scene_hit(
                        objs,
                        r,
                        t_min,
                        t_max,
                    ));
                    assert(farther_before(objs, n, r, t_min, t_max, full->0.t));
                }
            },
            Some(p) => {
                let i = choose|i: int|
                    0 <= i < prefix.len() && sphere_hit(#[trigger] prefix[i], r, t_min, t_max)
                        == prev && farther_before(prefix, i, r, t_min, t_max, p.t);
                assert(farther_before(objs, i, r, t_min, t_max, p.t)) by {
                    assert forall|k: int| 0 <= k < i implies objs[k] == prefix[k] by {}
                }
                lemma_hit_in_range(prefix[i], r, t_min, t_max);
                assert(objs[i] == prefix[i]);
                match full {
                    None => {
                        assert(sphere_hit(last, r, t_min, p.t) is None) by {
                            reveal(sphere_hit);
                        }
                        assert(sphere_hit(objs[i], r, t_min, t_max) == scene_hit(
                            objs,
                            r,
                            t_min,
                            t_max,
                        ));
                    },
                    Some(f) => {
                        if f.t < p.t {
                            lemma_hit_under_lower_bound(last, r, t_min, t_max, p.t);
                            assert(farther_before(objs, n, r, t_min, t_max, f.t)) by {
                                assert forall|k: int| 0 <= k < n implies objs[k] == prefix[k] by {}
                            }
                            assert(sphere_hit(objs[n], r, t_min, t_max) == scene_hit(
                                objs,
                                r,
                                t_min,
                                t_max,
                            ));
                        } else if f.t == p.t {
                            lemma_hit_under_lower_bound(last, r, t_min, t_max, p.t);
                            assert(sphere_hit(objs[i], r, t_min, t_max) == scene_hit(
                                objs,
                                r,
                                t_min,
                                t_max,
                            ));
                        } else {
                            lemma_hit_beyond_bound(last, r, t_min, t_max, p.t);
                            assert(sphere_hit(objs[i], r, t_min, t_max) == scene_hit(
                                objs,
                                r,
                                t_min,
                                t_max,
                            ));
                        }
                    },
                }
            },
        }
    }
}

/// When spheres `i < j` are both hit at the nearest parameter of the scene,
/// the scene reports the hit of a sphere no later than `i`: never the later
/// of two equally near hits.
pub proof fn lemma_tie_keeps_earlier(
    objs: Seq<Sphere>,
    i: int,
    j: int,
    r: Ray,
    t_min: i64,
    t_max: i64,
)
    requires
        0 <= i < j < objs.len(),
        sphere_hit(objs[i], r, t_min, t_max) is Some,
        sphere_hit(objs[j], r, t_min, t_max) is Some,
        sphere_hit(objs[i], r, t_min, t_max)->0.t == sphere_hit(objs[j], r, t_min, t_max)->0.t,
        forall|k: int|
            0 <= k < objs.len() && sphere_hit(#[trigger] objs[k], r, t_min, t_max) is Some
                ==> sphere_hit(objs[k], r, t_min, t_max)->0.t >= sphere_hit(
                objs[i],
                r,
                t_min,
                t_max,
            )->0.t,
    ensures
        scene_hit(objs, r, t_min, t_max) is Some,
        exists|k: int|
            0 <= k <= i && sphere_hit(#[trigger] objs[k], r, t_min, t_max) == scene_hit(
                objs,
                r,
                t_min,
                t_max,
            ),
{
    lemma_scene_hit_is_nearest(objs, r, t_min, t_max);
    assert(sphere_hit(objs[i], r, t_min, t_max) is Some);
    let h = scene_hit(objs, r, t_min, t_max)->0;
    let k = choose|k: int|
        0 <= k < objs.len() && sphere_hit(#[trigger] objs[k], r, t_min, t_max) == scene_hit(
            objs,
            r,
            t_min,
            t_max,
        ) && farther_before(objs, k, r, t_min, t_max, h.t);
    assert(h.t == sphere_hit(objs[i], r, t_min, t_max)->0.t);
    if k > i {
        assert(sphere_hit(objs[i], r, t_min, t_max) is None || sphere_hit(
            objs[i],
            r,
            t_min,
            t_max,
        )->0.t > h.t);
    }
}

/// When two spheres are hit at exactly the same parameter, the scene reports
/// the hit on the one that comes first.
pub proof fn lemma_tie_keeps_first(s1: Sphere, s2: Sphere, r: Ray, t_min: i64, t_max: i64)
    requires
        sphere_hit(s1, r, t_min, t_max) is Some,
        sphere_hit(s2, r, t_min, t_max) is Some,
        sphere_hit(s1, r, t_min, t_max)->0.t == sphere_hit(s2, r, t_min, t_max)->0.t,
    ensures
        scene_hit(seq![s1, s2], r, t_min, t_max) == sphere_hit(s1, r, t_min, t_max),
{
    let objs = seq![s1, s2];
    assert(objs.drop_last() =~= seq![s1]);
    assert(seq![s1].drop_last() =~= Seq::<Sphere>::empty());
    let h1 = sphere_hit(s1, r, t_min, t_max)->0;
    lemma_hit_in_range(s1, r, t_min, t_max);
    lemma_hit_in_range(s2, r, t_min, t_max);
    lemma_hit_under_lower_bound(s1, r, t_min, t_max, t_max);
    lemma_hit_under_lower_bound(s2, r, t_min, t_max, h1.t);
    assert(scene_hit(Seq::<Sphere>::empty(), r, t_min, t_max) is None);
    assert(seq![s1].last() == s1);
    assert(scene_hit(seq![s1], r, t_min, t_max) == Some(h1));
    assert(objs.last() == s2);
}

impl HittableList {
    pub fn new() -> (r: HittableList)
        ensures
            r.objects@ == Seq::<Sphere>::empty(),
    {
        HittableList { objects: Vec::new() }
    }

    /// Appends a sphere to the end of the scan order.
    pub fn add(&mut self, object: Sphere)
        ensures
            final(self).objects@ == old(self).objects@.push(object),
    {
        self.objects.push(object);
    }

}

impl Hittable for HittableList {
    open spec fn hit_spec(&self, ray: Ray, t_min: i64, t_max: i64) -> Option<HitRecord> {
        scene_hit(self.objects@, ray, t_min, t_max)
    }

    /// The nearest hit within `[t_min, t_max]` over all spheres; on equal
    /// parameters the earliest sphere wins.
    fn hit(&self, ray: &Ray, t_min: i64, t_max: i64) -> (r: Option<HitRecord>) {
        let mut closest_so_far = t_max;
        let mut result: Option<HitRecord> = None;
        let mut i: usize = 0;
        while i < self.objects.len()
            invariant
                i <= self.objects@.len(),
                result == scene_hit(self.objects@.subrange(0, i as int), *ray, t_min, t_max),
                closest_so_far == match result {
                    Some(h) => h.t,
                    None => t_max,
                },
            decreases self.objects@.len() - i,
        {
            let object = &self.objects[i];
            match object.hit(ray, t_min, closest_so_far) {
                Some(hit_record) => {
                    let nearer = match result {
                        Some(_) => hit_record.t < closest_so_far,
                        None => true,
                    };
                    if nearer {
                        closest_so_far = hit_record.t;
                        result = Some(hit_record);
                    }
                },
                None => {},
            }
            proof {
                assert(self.objects@.subrange(0, i + 1).drop_last() =~= self.objects@.subrange(
                    0,
                    i as int,
                ));
            }
            i += 1;
        }
        proof {
            assert(self.objects@.subrange(0, i as int) =~= self.objects@);
        }
        result
    }
}

} // verus!
