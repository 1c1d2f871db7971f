//! Two-dimensional vectors over a scalar type.
use vstd::prelude::*;
use crate::scalar::Scalar;

verus! {

/// A vector in the plane.
pub struct Vector2<S> {
    pub x: S,
    pub y: S,
}

impl<S: Copy> Clone for Vector2<S> {
    fn clone(&self) -> (r: Self)
        ensures
            r == *self,
    {
        *self
    }
}

impl<S: Copy> Copy for Vector2<S> {

}

impl<S: Scalar> Vector2<S> {
    pub open spec fn zero_spec() -> Self {
        Vector2 { x: S::zero_spec(), y: S::zero_spec() }
    }

    pub open spec fn add_spec(self, rhs: Self) -> Self {
        Vector2 { x: self.x.add_spec(rhs.x), y: self.y.add_spec(rhs.y) }
    }

    pub open spec fn sub_spec(self, rhs: Self) -> Self {
        Vector2 { x: self.x.sub_spec(rhs.x), y: self.y.sub_spec(rhs.y) }
    }

    pub open spec fn mul_spec(self, rhs: S) -> Self {
        Vector2 { x: self.x.mul_spec(rhs), y: self.y.mul_spec(rhs) }
    }

    pub open spec fn div_spec(self, rhs: S) -> Self {
        Vector2 { x: self.x.div_spec(rhs), y: self.y.div_spec(rhs) }
    }

    pub open spec fn neg_spec(self) -> Self {
        Vector2 { x: self.x.neg_spec(), y: self.y.neg_spec() }
    }

    /// The Euclidean norm: the root of the sum of the squared coordinates.
    pub open spec fn abs_spec(self) -> S {
        self.x.mul_spec(self.x).add_spec(self.y.mul_spec(self.y)).sqrt_spec()
    }

    /// Both coordinates numerically equal.
    pub open spec fn same_spec(self, rhs: Self) -> bool {
        self.x.same_spec(rhs.x) && self.y.same_spec(rhs.y)
    }

    pub fn zero() -> (r: Self)
        ensures
            r == Self::zero_spec(),
    {
        Vector2 { x: S::zero(), y: S::zero() }
    }

    pub fn abs(&self) -> (r: S)
        ensures
            r == self.abs_spec(),
    {
        self.x.mul(self.x).add(self.y.mul(self.y)).sqrt()
    }

    pub fn same(&self, rhs: &Self) -> (r: bool)
        ensures
            r == self.same_spec(*rhs),
    {
        self.x.same(rhs.x) && self.y.same(rhs.y)
    }

    pub fn add(self, rhs: Self) -> (r: Self)
        ensures
            r == self.add_spec(rhs),
    {
        Vector2 { x: self.x.add(rhs.x), y: self.y.add(rhs.y) }
    }

    pub fn add_assign(&mut self, rhs: Self)
        ensures
            *final(self) == old(self).add_spec(rhs),
    {
        self.x = self.x.add(rhs.x);
        self.y = self.y.add(rhs.y);
    }

    pub fn sub(self, rhs: Self) -> (r: Self)
        ensures
            r == self.sub_spec(rhs),
    {
        Vector2 { x: self.x.sub(rhs.x), y: self.y.sub(rhs.y) }
    }

    pub fn sub_assign(&mut self, rhs: Self)
        ensures
            *final(self) == old(self).sub_spec(rhs),
    {
        self.x = self.x.sub(rhs.x);
        self.y = self.y.sub(rhs.y);
    }

    pub fn mul(self, rhs: S) -> (r: Self)
        ensures
            r == self.mul_spec(rhs),
    {
        Vector2 { x: self.x.mul(rhs), y: self.y.mul(rhs) }
    }

    pub fn mul_assign(&mut self, rhs: S)
        ensures
            *final(self) == old(self).mul_spec(rhs),
    {
        self.x = self.x.mul(rhs);
        self.y = self.y.mul(rhs);
    }

    pub fn div(self, rhs: S) -> (r: Self)
        ensures
            r == self.div_spec(rhs),
    {
        Vector2 { x: self.x.div(rhs), y: self.y.div(rhs) }
    }

    pub fn div_assign(&mut self, rhs: S)
        ensures
            *final(self) == old(self).div_spec(rhs),
    {
        self.x = self.x.div(rhs);
        self.y = self.y.div(rhs);
    }

    pub fn neg(self) -> (r: Self)
        ensures
            r == self.neg_spec(),
    {
        Vector2 { x: self.x.neg(), y: self.y.neg() }
    }
}

} // verus!
