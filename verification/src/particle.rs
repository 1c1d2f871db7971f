//! A point mass and its one-step integrator.
use vstd::prelude::*;
use crate::scalar::Scalar;
use crate::vector::Vector2;

verus! {

/// A body: a point mass with a position, a velocity and a colour to draw
/// it in.
pub struct Particle<S> {
    pub mass: S,
    pub position: Vector2<S>,
    pub velocity: Vector2<S>,
    pub color: (S, S, S),
}

impl<S: Copy> Clone for Particle<S> {
    fn clone(&self) -> (r: Self)
        ensures
            r == *self,
    {
        *self
    }
}

impl<S: Copy> Copy for Particle<S> {

}

impl<S: Scalar> Particle<S> {
    /// The velocity after one step: the old one plus acceleration times the
    /// step, the acceleration being the force over the mass.
    pub open spec fn kicked_velocity(self, delta_time: S, force: Vector2<S>) -> Vector2<S> {
        self.velocity.add_spec(force.div_spec(self.mass).mul_spec(delta_time))
    }

    /// The particle after one semi-implicit Euler step: the velocity is
    /// advanced first, and the position then moves by the new velocity.
    pub open spec fn update_spec(self, delta_time: S, force: Vector2<S>) -> Self {
        let velocity = self.kicked_velocity(delta_time, force);
        Particle {
            mass: self.mass,
            position: self.position.add_spec(velocity.mul_spec(delta_time)),
            velocity,
            color: self.color,
        }
    }

    /// Advances the particle by one step of length `delta_time` under `force`.
    pub fn update(&mut self, delta_time: S, force: Vector2<S>)
        ensures
            *final(self) == old(self).update_spec(delta_time, force),
    {
        let acceleration = force.div(self.mass);
        self.velocity.add_assign(acceleration.mul(delta_time));
        self.position.add_assign(self.velocity.mul(delta_time));
    }
}

} // verus!
