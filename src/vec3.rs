//! Three-component vectors of fixed-point scalars, used for points,
//! directions and colors alike.
use vstd::prelude::*;
use crate::fixed::{
    add_fixed, div_fixed, fx_add, fx_div, fx_mul, fx_neg, fx_sqrt, fx_sub, mul_fixed, neg_fixed,
    sqrt_fixed, sub_fixed,
};

verus! {

/// Largest component difference that still counts as "close": one unit in
/// the last place.
pub const CLOSE_EPS: i64 = 1;

#[derive(Clone, Copy, Debug, PartialEq, Eq, Structural)]
pub struct Vec3(pub i64, pub i64, pub i64);

/// A point in space.
pub type Point3 = Vec3;

/// A linear RGB color.
pub type Color3 = Vec3;

pub open spec fn vadd(a: Vec3, b: Vec3) -> Vec3 {
    Vec3(fx_add(a.0, b.0), fx_add(a.1, b.1), fx_add(a.2, b.2))
}

pub open spec fn vsub(a: Vec3, b: Vec3) -> Vec3 {
    Vec3(fx_sub(a.0, b.0), fx_sub(a.1, b.1), fx_sub(a.2, b.2))
}

pub open spec fn vneg(a: Vec3) -> Vec3 {
    Vec3(fx_neg(a.0), fx_neg(a.1), fx_neg(a.2))
}

/// Component-wise product.
pub open spec fn vmul(a: Vec3, b: Vec3) -> Vec3 {
    Vec3(fx_mul(a.0, b.0), fx_mul(a.1, b.1), fx_mul(a.2, b.2))
}

/// Component-wise quotient.
pub open spec fn vdiv(a: Vec3, b: Vec3) -> Vec3 {
    Vec3(fx_div(a.0, b.0), fx_div(a.1, b.1), fx_div(a.2, b.2))
}

pub open spec fn vscale(a: Vec3, k: i64) -> Vec3 {
    Vec3(fx_mul(a.0, k), fx_mul(a.1, k), fx_mul(a.2, k))
}

pub open spec fn vshrink(a: Vec3, k: i64) -> Vec3 {
    Vec3(fx_div(a.0, k), fx_div(a.1, k), fx_div(a.2, k))
}

pub open spec fn vdot(a: Vec3, b: Vec3) -> i64 {
    fx_add(fx_add(fx_mul(a.0, b.0), fx_mul(a.1, b.1)), fx_mul(a.2, b.2))
}

pub open spec fn vcross(a: Vec3, b: Vec3) -> Vec3 {
    Vec3(
        fx_sub(fx_mul(a.1, b.2), fx_mul(a.2, b.1)),
        fx_sub(fx_mul(a.2, b.0), fx_mul(a.0, b.2)),
        fx_sub(fx_mul(a.0, b.1), fx_mul(a.1, b.0)),
    )
}

pub open spec fn vlength(a: Vec3) -> i64 {
    fx_sqrt(vdot(a, a))
}

pub open spec fn vunit(a: Vec3) -> Vec3 {
    vshrink(a, vlength(a))
}

pub open spec fn component(a: Vec3, i: int) -> i64 {
    if i == 0 {
        a.0
    } else if i == 1 {
        a.1
    } else {
        a.2
    }
}

pub open spec fn abs_less(d: i64, eps: i64) -> bool {
    -eps < d < eps
}

pub open spec fn vclose(a: Vec3, b: Vec3) -> bool {
    let d = vsub(a, b);
    abs_less(d.0, CLOSE_EPS) && abs_less(d.1, CLOSE_EPS) && abs_less(d.2, CLOSE_EPS)
}

/// A vector with the same whole number in every component.
pub open spec fn splat(k: i64) -> Vec3 {
    Vec3(k, k, k)
}

impl Vec3 {
    pub fn new(x: i64, y: i64, z: i64) -> (r: Vec3)
        ensures
            r == Vec3(x, y, z),
    {
        Vec3(x, y, z)
    }

    pub fn x(&self) -> (r: i64)
        ensures
            r == self.0,
    {
        self.0
    }

    pub fn y(&self) -> (r: i64)
        ensures
            r == self.1,
    {
        self.1
    }

    pub fn z(&self) -> (r: i64)
        ensures
            r == self.2,
    {
        self.2
    }

    pub fn add(self, other: Vec3) -> (r: Vec3)
        ensures
            r == vadd(self, other),
    {
        Vec3(add_fixed(self.0, other.0), add_fixed(self.1, other.1), add_fixed(self.2, other.2))
    }

    /// Adds the scalar `k` to every component.
    pub fn add_scalar(self, k: i64) -> (r: Vec3)
        ensures
            r == vadd(self, splat(k)),
    {
        self.add(Vec3(k, k, k))
    }

    pub fn add_assign(&mut self, other: Vec3)
        ensures
            *final(self) == vadd(*old(self), other),
    {
        *self = self.add(other);
    }

    pub fn add_assign_scalar(&mut self, k: i64)
        ensures
            *final(self) == vadd(*old(self), splat(k)),
    {
        *self = self.add_scalar(k);
    }

    pub fn neg(self) -> (r: Vec3)
        ensures
            r == vneg(self),
    {
        Vec3(neg_fixed(self.0), neg_fixed(self.1), neg_fixed(self.2))
    }

    pub fn sub(self, other: Vec3) -> (r: Vec3)
        ensures
            r == vsub(self, other),
    {
        Vec3(sub_fixed(self.0, other.0), sub_fixed(self.1, other.1), sub_fixed(self.2, other.2))
    }

    /// Subtracts the scalar `k` from every component.
    pub fn sub_scalar(self, k: i64) -> (r: Vec3)
        ensures
            r == vsub(self, splat(k)),
    {
        self.sub(Vec3(k, k, k))
    }

    /// Scales every component by `k`.
    pub fn mul_scalar(self, k: i64) -> (r: Vec3)
        ensures
            r == vscale(self, k),
    {
        Vec3(mul_fixed(self.0, k), mul_fixed(self.1, k), mul_fixed(self.2, k))
    }

    /// Component-wise product.
    pub fn mul(self, other: Vec3) -> (r: Vec3)
        ensures
            r == vmul(self, other),
    {
        Vec3(mul_fixed(self.0, other.0), mul_fixed(self.1, other.1), mul_fixed(self.2, other.2))
    }

    /// Divides every component by `k`.
    pub fn div_scalar(self, k: i64) -> (r: Vec3)
        ensures
            r == vshrink(self, k),
    {
        Vec3(div_fixed(self.0, k), div_fixed(self.1, k), div_fixed(self.2, k))
    }

    /// Component-wise quotient.
    pub fn div(self, other: Vec3) -> (r: Vec3)
        ensures
            r == vdiv(self, other),
    {
        Vec3(div_fixed(self.0, other.0), div_fixed(self.1, other.1), div_fixed(self.2, other.2))
    }

    /// The component at `index` (0, 1 or 2).
    pub fn index(&self, index: usize) -> (r: i64)
        requires
            index < 3,
        ensures
            r == component(*self, index as int),
    {
        if index == 0 {
            self.0
        } else if index == 1 {
            self.1
        } else {
            self.2
        }
    }

    /// Replaces the component at `index` (0, 1 or 2) by `value`.
    pub fn set_index(&mut self, index: usize, value: i64)
        requires
            index < 3,
        ensures
            component(*final(self), index as int) == value,
            forall|i: int|
                0 <= i < 3 && i != index ==> component(*final(self), i) == component(
                    *old(self),
                    i,
                ),
    {
        if index == 0 {
            self.0 = value;
        } else if index == 1 {
            self.1 = value;
        } else {
            self.2 = value;
        }
    }

    /// Whether every component differs from `other`'s by less than
    /// `CLOSE_EPS`.
    pub fn is_close(&self, other: Vec3) -> (r: bool)
        ensures
            r == vclose(*self, other),
    {
        let d = self.sub(other);
        -CLOSE_EPS < d.0 && d.0 < CLOSE_EPS && -CLOSE_EPS < d.1 && d.1 < CLOSE_EPS && -CLOSE_EPS
            < d.2 && d.2 < CLOSE_EPS
    }

    /// Whether every component differs from the scalar `k` by less than
    /// `CLOSE_EPS`.
    pub fn is_close_scalar(&self, k: i64) -> (r: bool)
        ensures
            r == vclose(*self, splat(k)),
    {
        self.is_close(Vec3(k, k, k))
    }

    /// Euclidean length.
    pub fn length(&self) -> (r: i64)
        ensures
            r == vlength(*self),
            r >= 0,
    {
        sqrt_fixed(dot(self, self))
    }

    /// The vector divided by its length.
    pub fn to_unit(&self) -> (r: Vec3)
        ensures
            r == vunit(*self),
    {
        let len = self.length();
        self.div_scalar(len)
    }
}

pub fn dot(v1: &Vec3, v2: &Vec3) -> (r: i64)
    ensures
        r == vdot(*v1, *v2),
{
    add_fixed(add_fixed(mul_fixed(v1.0, v2.0), mul_fixed(v1.1, v2.1)), mul_fixed(v1.2, v2.2))
}

pub fn cross(v1: &Vec3, v2: &Vec3) -> (r: Vec3)
    ensures
        r == vcross(*v1, *v2),
{
    Vec3(
        sub_fixed(mul_fixed(v1.1, v2.2), mul_fixed(v1.2, v2.1)),
        sub_fixed(mul_fixed(v1.2, v2.0), mul_fixed(v1.0, v2.2)),
        sub_fixed(mul_fixed(v1.0, v2.1), mul_fixed(v1.1, v2.0)),
    )
}

} // verus!
