//! Random sampling: uniform draws, and points of the unit ball and disk
//! found by rejection.
use vstd::prelude::*;
use rand::Rng;
use crate::fixed::{is_isqrt, isqrt, lemma_isqrt_exists, lemma_isqrt_unique, ONE};
use crate::vec3::{dot, vdot, vlength, vunit, Vec3};

verus! {

/// How many candidates a rejection sampler draws before it settles for a
/// fixed unit vector. Each candidate is accepted with probability above one
/// third, so the fallback is practically never taken.
pub const MAX_SAMPLE_TRIES: u32 = 64;

/// Smallest squared length, 1/16, that a candidate of the unit ball may have:
/// a shorter one would lose its direction to rounding. Leaving out an inner
/// ball keeps the directions uniform.
pub const BALL_INNER: i64 = 4096;

/// Largest distance from 1, in raw units, allowed for the length of a
/// normalised direction.
pub const UNIT_TOL: i64 = 16;

/// `v` has unit length up to `UNIT_TOL` raw units.
pub open spec fn near_unit(v: Vec3) -> bool {
    ONE - UNIT_TOL <= vlength(v) <= ONE + UNIT_TOL
}

/// The direction a candidate `p` of the cube yields: `p` normalised when it
/// lies in the shell `1/16 <= |p|^2 < 1` and normalises to unit length
/// within rounding, and nothing otherwise.
pub open spec fn ball_candidate_spec(p: Vec3) -> Option<Vec3> {
    if BALL_INNER <= vdot(p, p) < ONE && near_unit(vunit(p)) {
        Some(vunit(p))
    } else {
        None
    }
}

/// `r` is the direction that some candidate yields.
pub open spec fn is_ball_direction(r: Vec3) -> bool {
    exists|p: Vec3| ball_candidate_spec(p) == Some(r)
}

/// `p` lies strictly inside the unit disk of the plane `z = 0`.
pub open spec fn in_unit_disk(p: Vec3) -> bool {
    p.2 == 0 && vdot(p, p) < ONE
}

/// Relies on rand::Rng::gen_range, on the generator of rand::thread_rng: a
/// value drawn from `lo..hi`; it panics on an empty range.
#[verifier::external_body]
pub(crate) fn random_range(lo: i64, hi: i64) -> (r: i64)
    requires
        lo < hi,
    ensures
        lo <= r < hi,
{
    rand::thread_rng().gen_range(lo..hi)
}

/// A uniform draw from `[0, 1)`.
pub fn random_unit() -> (r: i64)
    ensures
        0 <= r < ONE,
{
    random_range(0, ONE)
}

/// Accepts or rejects one candidate of the unit-ball sampler.
pub fn ball_candidate(p: Vec3) -> (r: Option<Vec3>)
    ensures
        r == ball_candidate_spec(p),
{
    let d = dot(&p, &p);
    if BALL_INNER <= d && d < ONE {
        let u = p.to_unit();
        let len = u.length();
        if ONE - UNIT_TOL <= len && len <= ONE + UNIT_TOL {
            return Some(u);
        }
    }
    None
}

/// Accepts or rejects one candidate of the unit-disk sampler.
pub fn disk_candidate(p: Vec3) -> (r: Option<Vec3>)
    ensures
        r == (if in_unit_disk(p) {
            Some(p)
        } else {
            None
        }),
{
    if p.2 == 0 && dot(&p, &p) < ONE {
        Some(p)
    } else {
        None
    }
}

/// A unit direction, uniform over the sphere: a point of the cube
/// `[-1, 1)^3` drawn until it falls in the shell `1/16 <= |p|^2 < 1`, then
/// normalised.
pub fn random_in_unit_sphere() -> (r: Vec3)
    ensures
        near_unit(r),
        is_ball_direction(r) || r == Vec3(0, 0, ONE),
{
    let mut tries: u32 = 0;
    while tries < MAX_SAMPLE_TRIES
        decreases MAX_SAMPLE_TRIES - tries,
    {
        let p = Vec3(random_range(-ONE, ONE), random_range(-ONE, ONE), random_range(-ONE, ONE));
        match ball_candidate(p) {
            Some(r) => {
                return r;
            },
            None => {},
        }
        tries += 1;
    }
    let r = Vec3(0, 0, ONE);
    proof {
        let n = (ONE as int) * (ONE as int);
        assert(is_isqrt(n, ONE as int)) by (nonlinear_arith)
            requires
                n == (ONE as int) * (ONE as int),
        ;
        lemma_isqrt_exists(n);
        lemma_isqrt_unique(n, ONE as int, isqrt(n));
        assert(vdot(r, r) == ONE);
    }
    r
}

/// A uniform point of the unit disk: a point of the square `[-1, 1)^2`
/// drawn until it falls inside the disk; the disk's center if none does.
pub fn random_in_unit_disk() -> (r: Vec3)
    ensures
        in_unit_disk(r),
{
    let mut tries: u32 = 0;
    while tries < MAX_SAMPLE_TRIES
        decreases MAX_SAMPLE_TRIES - tries,
    {
        let p = Vec3(random_range(-ONE, ONE), random_range(-ONE, ONE), 0);
        match disk_candidate(p) {
            Some(r) => {
                return r;
            },
            None => {},
        }
        tries += 1;
    }
    Vec3(0, 0, 0)
}

} // verus!
