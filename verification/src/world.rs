//! The simulated world: its bodies, its settings, and the exact field.
use vstd::prelude::*;
use crate::scalar::Scalar;
use crate::vector::Vector2;
use crate::particle::Particle;
use crate::quadtree::{
    Quadtree, QuadtreeNode, MAX_DEPTH, aggregated, insert_spec, shape, splits_left,
    tree_gravity_spec,
};
use crate::tree_laws::{
    leaves_hold, lemma_insert_keeps_aggregated, lemma_insert_leaves_hold, lemma_insert_shape,
};
use crate::chunks::{
    chunk_start_spec, gathered_spec, lemma_chunks_cover, lemma_gathered_is_prefix,
    particles_per_thread, particles_per_thread_spec,
};

verus! {

/// The constants of the force law and the choice of method.
pub struct WorldSettings<S> {
    pub gravity_strength: S,
    pub softening_length: S,
    /// The opening angle below which a distant cell stands for its bodies.
    pub accuracy: S,
    pub quadtree: bool,
    pub multiprocessing: bool,
}

impl<S: Copy> Clone for WorldSettings<S> {
    fn clone(&self) -> (r: Self)
        ensures
            r == *self,
    {
        *self
    }
}

impl<S: Copy> Copy for WorldSettings<S> {

}

/// The softened inverse-square field that a point `mass` at `source` exerts
/// at `at`: the unit vector from `at` to `source`, scaled by the strength
/// times the mass over the squared distance plus the squared softening.
pub open spec fn point_gravity_spec<S: Scalar>(
    settings: WorldSettings<S>,
    source: Vector2<S>,
    mass: S,
    at: Vector2<S>,
) -> Vector2<S> {
    let difference = source.sub_spec(at);
    let distance = difference.abs_spec();
    let direction = difference.div_spec(distance);
    let magnitude = settings.gravity_strength.mul_spec(mass).div_spec(
        distance.mul_spec(distance).add_spec(
            settings.softening_length.mul_spec(settings.softening_length),
        ),
    );
    direction.mul_spec(magnitude)
}

pub fn point_gravity<S: Scalar>(
    settings: &WorldSettings<S>,
    source: Vector2<S>,
    mass: S,
    at: Vector2<S>,
) -> (gravity: Vector2<S>)
    ensures
        gravity == point_gravity_spec(*settings, source, mass, at),
{
    let difference = source.sub(at);
    let distance = difference.abs();
    let direction = difference.div(distance);
    let magnitude = settings.gravity_strength.mul(mass).div(
        distance.mul(distance).add(settings.softening_length.mul(settings.softening_length)),
    );
    direction.mul(magnitude)
}

/// The field at `position` of the bodies `particles`, summed in order from a
/// zero vector. A body whose two coordinates both equal those of `position`
/// contributes nothing.
pub open spec fn gravity_spec<S: Scalar>(
    particles: Seq<Particle<S>>,
    settings: WorldSettings<S>,
    position: Vector2<S>,
) -> Vector2<S>
    decreases particles.len(),
{
    if particles.len() == 0 {
        Vector2::zero_spec()
    } else {
        let before = gravity_spec(particles.drop_last(), settings, position);
        let particle = particles.last();
        if particle.position.same_spec(position) {
            before
        } else {
            before.add_spec(
                point_gravity_spec(settings, particle.position, particle.mass, position),
            )
        }
    }
}

/// The field at `position`: read off the tree where one is given, else
/// summed over the bodies one by one.
pub open spec fn field_spec<S: Scalar>(
    particles: Seq<Particle<S>>,
    settings: WorldSettings<S>,
    tree: Option<Seq<QuadtreeNode<S>>>,
    position: Vector2<S>,
) -> Vector2<S> {
    match tree {
        Some(nodes) => tree_gravity_spec(nodes, settings, position, 0),
        None => gravity_spec(particles, settings, position),
    }
}

/// The force on the body at `index`: the field at its position times its mass.
pub open spec fn force_spec<S: Scalar>(
    particles: Seq<Particle<S>>,
    settings: WorldSettings<S>,
    tree: Option<Seq<QuadtreeNode<S>>>,
    index: int,
) -> Vector2<S> {
    field_spec(particles, settings, tree, particles[index].position).mul_spec(
        particles[index].mass,
    )
}

/// The forces on all bodies, in the bodies' order.
pub open spec fn forces_spec<S: Scalar>(
    particles: Seq<Particle<S>>,
    settings: WorldSettings<S>,
    tree: Option<Seq<QuadtreeNode<S>>>,
) -> Seq<Vector2<S>> {
    Seq::new(particles.len(), |i: int| force_spec(particles, settings, tree, i))
}

/// The corners of the tight box around the first body and the first `k`
/// bodies: the minimum and the maximum of their coordinates, taken in order.
pub open spec fn bounds_spec<S: Scalar>(particles: Seq<Particle<S>>, k: int) -> (
    Vector2<S>,
    Vector2<S>,
)
    decreases k,
{
    if k <= 0 {
        (particles[0].position, particles[0].position)
    } else {
        let (min, max) = bounds_spec(particles, k - 1);
        let position = particles[k - 1].position;
        (
            Vector2 { x: min.x.min_spec(position.x), y: min.y.min_spec(position.y) },
            Vector2 { x: max.x.max_spec(position.x), y: max.y.max_spec(position.y) },
        )
    }
}

/// The tree over the tight box around all bodies after the first `k` of
/// them have been inserted at the root, in order.
pub open spec fn tree_spec<S: Scalar>(particles: Seq<Particle<S>>, k: int) -> Seq<QuadtreeNode<S>>
    decreases k,
{
    if k <= 0 {
        let (min, max) = bounds_spec(particles, particles.len() as int);
        seq![QuadtreeNode::new_spec(min, max, 0)]
    } else {
        insert_spec(tree_spec(particles, k - 1), particles[k - 1].position, particles[k - 1].mass, 0)
    }
}

/// The positions and masses of the first `k` bodies.
pub open spec fn bodies_spec<S: Scalar>(particles: Seq<Particle<S>>, k: int) -> Set<
    (Vector2<S>, S),
> {
    Set::new(|body: (Vector2<S>, S)| is_body_of(particles, k, body))
}

/// `body` is the position and the mass of one of the first `k` bodies.
pub open spec fn is_body_of<S: Scalar>(
    particles: Seq<Particle<S>>,
    k: int,
    body: (Vector2<S>, S),
) -> bool {
    exists|j: int| 0 <= j < k && #[trigger] body_at(particles, j) == body
}

/// The position and the mass of body `j`.
pub open spec fn body_at<S: Scalar>(particles: Seq<Particle<S>>, j: int) -> (Vector2<S>, S) {
    (particles[j].position, particles[j].mass)
}

/// The tree that the settings ask for: one over all bodies, or none.
pub open spec fn chosen_tree_spec<S: Scalar>(
    particles: Seq<Particle<S>>,
    settings: WorldSettings<S>,
) -> Option<Seq<QuadtreeNode<S>>> {
    if settings.quadtree {
        Some(tree_spec(particles, particles.len() as int))
    } else {
        None
    }
}

/// The bodies after one step of length `delta_time`, each integrated under
/// the force at its index, in its old place.
pub open spec fn integrate_spec<S: Scalar>(
    particles: Seq<Particle<S>>,
    forces: Seq<Vector2<S>>,
    delta_time: S,
) -> Seq<Particle<S>> {
    Seq::new(particles.len(), |i: int| particles[i].update_spec(delta_time, forces[i]))
}

/// The bodies after one step of length `delta_time` under the forces that
/// the settings' method finds.
pub open spec fn update_spec<S: Scalar>(
    particles: Seq<Particle<S>>,
    settings: WorldSettings<S>,
    delta_time: S,
) -> Seq<Particle<S>> {
    integrate_spec(
        particles,
        forces_spec(particles, settings, chosen_tree_spec(particles, settings)),
        delta_time,
    )
}

/// A tree can be built over `count` bodies: there is at least one, and the
/// cells that they can need, four for each level and body, fit the array.
pub open spec fn tree_fits_spec(count: int) -> bool {
    count >= 1 && 1 + 4 * MAX_DEPTH * count <= usize::MAX
}

/// The forces on `count` bodies can be evaluated by the method that the
/// settings name: a tree needs a body to span its box, and workers need
/// to be at least one.
pub open spec fn can_evaluate_spec<S>(
    count: int,
    settings: WorldSettings<S>,
    num_threads: usize,
) -> bool {
    &&& settings.quadtree ==> tree_fits_spec(count)
    &&& settings.multiprocessing ==> num_threads >= 1 && count + num_threads - 1 <= usize::MAX
}

/// The velocity on which a body circles the origin under `force`: at right
/// angles to the direction of the origin, with the speed whose square is
/// the acceleration times the distance. A body at the origin rests.
pub open spec fn circle_velocity_spec<S: Scalar>(particle: Particle<S>, force: Vector2<S>) -> Vector2<
    S,
> {
    if particle.position.same_spec(Vector2::zero_spec()) {
        Vector2::zero_spec()
    } else {
        let acceleration = force.div_spec(particle.mass);
        let velocity = acceleration.abs_spec().mul_spec(particle.position.abs_spec()).sqrt_spec();
        let vector_to_center = particle.position.neg_spec().div_spec(
            particle.position.abs_spec(),
        );
        (Vector2 { x: vector_to_center.y, y: vector_to_center.x.neg_spec() }).mul_spec(velocity)
    }
}

/// The bodies, each on its circle under the force at its index.
pub open spec fn orbit_spec<S: Scalar>(particles: Seq<Particle<S>>, forces: Seq<Vector2<S>>) -> Seq<
    Particle<S>,
> {
    Seq::new(
        particles.len(),
        |i: int|
            (Particle { velocity: circle_velocity_spec(particles[i], forces[i]), ..particles[i] }),
    )
}

/// The bodies, each on its circle under the force that the settings'
/// method finds for it.
pub open spec fn circle_speed_spec<S: Scalar>(
    particles: Seq<Particle<S>>,
    settings: WorldSettings<S>,
) -> Seq<Particle<S>> {
    orbit_spec(particles, forces_spec(particles, settings, chosen_tree_spec(particles, settings)))
}

/// One resting body of mass `mass` and colour `color` at each position.
pub open spec fn resting_spec<S: Scalar>(positions: Seq<Vector2<S>>, mass: S, color: (S, S, S)) -> Seq<
    Particle<S>,
> {
    Seq::new(
        positions.len(),
        |i: int| (Particle { mass, position: positions[i], velocity: Vector2::zero_spec(), color }),
    )
}

/// The bodies, in the order in which forces are reported, and the settings.
pub struct World<S> {
    pub particles: Vec<Particle<S>>,
    pub settings: WorldSettings<S>,
}

impl<S: Scalar> World<S> {
    pub fn new(settings: WorldSettings<S>) -> (world: Self)
        ensures
            world.particles@ == Seq::<Particle<S>>::empty(),
            world.settings == settings,
    {
        World { particles: Vec::new(), settings }
    }

    pub fn add_particle(&mut self, particle: Particle<S>)
        ensures
            final(self).particles@ == old(self).particles@.push(particle),
            final(self).settings == old(self).settings,
    {
        self.particles.push(particle);
    }

    /// The exact field of all bodies at `position`.
    pub fn calculate_gravity(&self, position: Vector2<S>) -> (gravity: Vector2<S>)
        ensures
            gravity == gravity_spec(self.particles@, self.settings, position),
    {
        let mut gravity = Vector2::zero();
        let mut i: usize = 0;
        while i < self.particles.len()
            invariant
                i <= self.particles.len(),
                gravity == gravity_spec(self.particles@.take(i as int), self.settings, position),
            decreases self.particles.len() - i,
        {
            let particle = self.particles[i];
            proof {
                assert(self.particles@.take(i + 1).drop_last() =~= self.particles@.take(i as int));
            }
            if !particle.position.same(&position) {
                gravity.add_assign(
                    point_gravity(&self.settings, particle.position, particle.mass, position),
                );
            }
            i += 1;
        }
        proof {
            assert(self.particles@.take(i as int) =~= self.particles@);
        }
        gravity
    }

    /// A tree can be built over the bodies.
    pub open spec fn tree_fits(&self) -> bool {
        tree_fits_spec(self.particles.len() as int)
    }

    /// The forces can be evaluated by the method that the settings name.
    pub open spec fn can_evaluate(&self, num_threads: usize) -> bool {
        can_evaluate_spec(self.particles.len() as int, self.settings, num_threads)
    }

    /// The tree over the tight box around all bodies, holding all of them.
    pub fn construct_quadtree(&self) -> (tree: Quadtree<S>)
        requires
            self.tree_fits(),
        ensures
            tree.nodes@ == tree_spec(self.particles@, self.particles.len() as int),
            tree.wf(),
            leaves_hold(
                tree.nodes@,
                bodies_spec(self.particles@, self.particles.len() as int),
            ),
    {
        let mut min = self.particles[0].position;
        let mut max = self.particles[0].position;
        let mut i: usize = 0;
        while i < self.particles.len()
            invariant
                i <= self.particles.len(),
                (min, max) == bounds_spec(self.particles@, i as int),
            decreases self.particles.len() - i,
        {
            let position = self.particles[i].position;
            min.x = min.x.min(position.x);
            min.y = min.y.min(position.y);
            max.x = max.x.max(position.x);
            max.y = max.y.max(position.y);
            i += 1;
        }
        let mut quadtree = Quadtree::new(min, max);
        assert(4 * MAX_DEPTH * self.particles.len() == 128 * self.particles.len());
        let mut i: usize = 0;
        while i < self.particles.len()
            invariant
                i <= self.particles.len(),
                1 + 128 * self.particles.len() <= usize::MAX,
                quadtree.nodes@ == tree_spec(self.particles@, i as int),
                quadtree.wf(),
                quadtree.nodes.len() <= 1 + 128 * i,
            decreases self.particles.len() - i,
        {
            let particle = self.particles[i];
            proof {
                assert(splits_left(quadtree.nodes@, 0) <= 32);
                lemma_insert_shape(quadtree.nodes@, particle.position, particle.mass, 0);
            }
            quadtree.insert(particle.position, particle.mass, 0);
            i += 1;
        }
        proof {
            lemma_tree_holds_bodies(self.particles@, self.particles.len() as int);
        }
        quadtree
    }

    /// The field at `position`, read off `tree` where one is given.
    pub fn field(&self, tree: &Option<Quadtree<S>>, position: Vector2<S>) -> (gravity: Vector2<S>)
        requires
            tree is Some ==> shape(tree.unwrap().nodes@),
        ensures
            gravity == field_spec(self.particles@, self.settings, nodes_of(*tree), position),
    {
        match tree {
            Some(quadtree) => quadtree.calculate_gravity(position, 0, &self.settings),
            None => self.calculate_gravity(position),
        }
    }

    /// The forces on the bodies of chunk `index`, where each chunk but the
    /// last holds `per` bodies: the work of one worker.
    pub fn chunk_forces(&self, tree: &Option<Quadtree<S>>, index: usize, per: usize) -> (forces:
        Vec<Vector2<S>>)
        requires
            tree is Some ==> shape(tree.unwrap().nodes@),
            (index + 1) * per <= usize::MAX,
        ensures
            forces@ == forces_spec(self.particles@, self.settings, nodes_of(*tree)).subrange(
                chunk_start_spec(index as int, per as int, self.particles.len() as int),
                chunk_start_spec(index + 1, per as int, self.particles.len() as int),
            ),
    {
        let ghost all = forces_spec(self.particles@, self.settings, nodes_of(*tree));
        let ghost start = chunk_start_spec(index as int, per as int, self.particles.len() as int);
        let ghost stop = chunk_start_spec(index + 1, per as int, self.particles.len() as int);
        assert(index * per <= (index + 1) * per) by (nonlinear_arith);
        assert((index + 1) * per == index * per + per) by (nonlinear_arith);
        let first: usize = index * per;
        let end: usize = first + per;
        let mut forces: Vec<Vector2<S>> = Vec::new();
        if first >= self.particles.len() {
            assert(forces@ =~= all.subrange(start, stop));
            return forces;
        }
        let mut j: usize = first;
        while j < end && j < self.particles.len()
            invariant
                first <= j <= end,
                j <= self.particles.len() || j == first,
                first < self.particles.len(),
                all == forces_spec(self.particles@, self.settings, nodes_of(*tree)),
                tree is Some ==> shape(tree.unwrap().nodes@),
                forces@ == all.subrange(first as int, j as int),
            decreases self.particles.len() - j,
        {
            let particle = self.particles[j];
            let gravity = self.field(tree, particle.position);
            let force = gravity.mul(particle.mass);
            forces.push(force);
            assert(forces@ =~= all.subrange(first as int, j + 1));
            j += 1;
        }
        forces
    }

    /// The forces on all bodies, worked out chunk by chunk for `num_threads`
    /// workers and put together in the order of the chunks.
    pub fn gather_forces(&self, tree: &Option<Quadtree<S>>, num_threads: usize) -> (forces: Vec<
        Vector2<S>,
    >)
        requires
            tree is Some ==> shape(tree.unwrap().nodes@),
            num_threads >= 1,
            self.particles.len() + num_threads - 1 <= usize::MAX,
        ensures
            forces@ == forces_spec(self.particles@, self.settings, nodes_of(*tree)),
    {
        let ghost all = forces_spec(self.particles@, self.settings, nodes_of(*tree));
        let ghost count = self.particles.len() as int;
        let per = particles_per_thread(self.particles.len(), num_threads);
        proof {
            lemma_chunks_cover(count, num_threads as int);
        }
        let mut all_forces: Vec<Vector2<S>> = Vec::new();
        assert(all_forces@ =~= all.subrange(0, chunk_start_spec(0, per as int, count)));
        let mut i: usize = 0;
        while i < num_threads
            invariant
                i <= num_threads,
                count == self.particles.len(),
                per == particles_per_thread_spec(count, num_threads as int),
                count <= num_threads * per <= count + num_threads - 1,
                count + num_threads - 1 <= usize::MAX,
                all == forces_spec(self.particles@, self.settings, nodes_of(*tree)),
                tree is Some ==> shape(tree.unwrap().nodes@),
                all_forces@ == all.subrange(0, chunk_start_spec(i as int, per as int, count)),
            decreases num_threads - i,
        {
            assert((i + 1) * per <= num_threads * per) by (nonlinear_arith)
                requires
                    i + 1 <= num_threads,
                    per >= 0,
            ;
            assert(i * per <= (i + 1) * per) by (nonlinear_arith)
                requires
                    per >= 0,
            ;
            let chunk = self.chunk_forces(tree, i, per);
            let ghost done = all_forces@;
            let mut k: usize = 0;
            while k < chunk.len()
                invariant
                    k <= chunk.len(),
                    all_forces@ == done + chunk@.take(k as int),
                decreases chunk.len() - k,
            {
                all_forces.push(chunk[k]);
                assert(all_forces@ =~= done + chunk@.take(k + 1));
                k += 1;
            }
            assert(all_forces@ =~= all.subrange(
                0,
                chunk_start_spec(i + 1, per as int, count),
            )) by {
                assert(chunk@.take(chunk.len() as int) =~= chunk@);
            }
            i += 1;
        }
        assert(all_forces@ =~= all);
        all_forces
    }

    /// The exact forces, body by body.
    pub fn calculate_forces(&self) -> (forces: Vec<Vector2<S>>)
        ensures
            forces@ == forces_spec(self.particles@, self.settings, None),
    {
        let ghost all = forces_spec(self.particles@, self.settings, None);
        let mut forces: Vec<Vector2<S>> = Vec::new();
        let mut i: usize = 0;
        while i < self.particles.len()
            invariant
                i <= self.particles.len(),
                all == forces_spec(self.particles@, self.settings, None),
                forces@ == all.take(i as int),
            decreases self.particles.len() - i,
        {
            let particle = self.particles[i];
            let gravity = self.calculate_gravity(particle.position);
            let force = gravity.mul(particle.mass);
            forces.push(force);
            assert(forces@ =~= all.take(i + 1));
            i += 1;
        }
        assert(forces@ =~= all);
        forces
    }

    /// The exact forces, worked out in chunks for `num_threads` workers.
    pub fn calculate_forces_multiprocessing(&self, num_threads: usize) -> (forces: Vec<Vector2<S>>)
        requires
            num_threads >= 1,
            self.particles.len() + num_threads - 1 <= usize::MAX,
        ensures
            forces@ == forces_spec(self.particles@, self.settings, None),
    {
        self.gather_forces(&None, num_threads)
    }

    /// The forces that the tree over all bodies gives, body by body.
    pub fn calculate_forces_quadtree(&self) -> (forces: Vec<Vector2<S>>)
        requires
            self.tree_fits(),
        ensures
            forces@ == forces_spec(
                self.particles@,
                self.settings,
                Some(tree_spec(self.particles@, self.particles.len() as int)),
            ),
    {
        let quadtree = self.construct_quadtree();
        let ghost all = forces_spec(self.particles@, self.settings, Some(quadtree.nodes@));
        let mut forces: Vec<Vector2<S>> = Vec::new();
        let mut i: usize = 0;
        while i < self.particles.len()
            invariant
                i <= self.particles.len(),
                shape(quadtree.nodes@),
                all == forces_spec(self.particles@, self.settings, Some(quadtree.nodes@)),
                forces@ == all.take(i as int),
            decreases self.particles.len() - i,
        {
            let particle = self.particles[i];
            let gravity = quadtree.calculate_gravity(particle.position, 0, &self.settings);
            let force = gravity.mul(particle.mass);
            forces.push(force);
            assert(forces@ =~= all.take(i + 1));
            i += 1;
        }
        assert(forces@ =~= all);
        forces
    }

    /// The forces that the tree over all bodies gives, worked out in chunks
    /// for `num_threads` workers.
    pub fn calculate_forces_multiprocessing_quadtree(&self, num_threads: usize) -> (forces: Vec<
        Vector2<S>,
    >)
        requires
            self.tree_fits(),
            num_threads >= 1,
            self.particles.len() + num_threads - 1 <= usize::MAX,
        ensures
            forces@ == forces_spec(
                self.particles@,
                self.settings,
                Some(tree_spec(self.particles@, self.particles.len() as int)),
            ),
    {
        let quadtree = Some(self.construct_quadtree());
        self.gather_forces(&quadtree, num_threads)
    }

    /// The forces by the method that the two flags of the settings name.
    pub fn calculate_forces_auto(&self, num_threads: usize) -> (forces: Vec<Vector2<S>>)
        requires
            self.can_evaluate(num_threads),
        ensures
            forces@ == forces_spec(
                self.particles@,
                self.settings,
                chosen_tree_spec(self.particles@, self.settings),
            ),
    {
        match (self.settings.multiprocessing, self.settings.quadtree) {
            (false, false) => self.calculate_forces(),
            (true, false) => self.calculate_forces_multiprocessing(num_threads),
            (false, true) => self.calculate_forces_quadtree(),
            (true, true) => self.calculate_forces_multiprocessing_quadtree(num_threads),
        }
    }

    /// Integrates every body over one step of length `delta_time` under the
    /// force at its index.
    pub fn integrate(&mut self, delta_time: S, forces: &Vec<Vector2<S>>)
        requires
            forces.len() == old(self).particles.len(),
        ensures
            final(self).settings == old(self).settings,
            final(self).particles@ == integrate_spec(old(self).particles@, forces@, delta_time),
    {
        let ghost before = self.particles@;
        let ghost after = integrate_spec(before, forces@, delta_time);
        let mut i: usize = 0;
        while i < self.particles.len()
            invariant
                i <= self.particles.len(),
                self.settings == old(self).settings,
                before == old(self).particles@,
                after == integrate_spec(before, forces@, delta_time),
                self.particles@.len() == before.len(),
                forces.len() == before.len(),
                forall|j: int| 0 <= j < i ==> self.particles@[j] == after[j],
                forall|j: int| i <= j < before.len() ==> self.particles@[j] == before[j],
            decreases self.particles.len() - i,
        {
            let force = forces[i];
            self.particles[i].update(delta_time, force);
            i += 1;
        }
        assert(self.particles@ =~= after);
    }

    /// Advances the world by one step of length `delta_time`: the forces
    /// are found by the method that the settings name, for `num_threads`
    /// workers, and every body is integrated under its own.
    pub fn update(&mut self, delta_time: S, num_threads: usize)
        requires
            old(self).can_evaluate(num_threads),
        ensures
            final(self).settings == old(self).settings,
            final(self).particles@ == update_spec(
                old(self).particles@,
                old(self).settings,
                delta_time,
            ),
            final(self).particles@.len() == old(self).particles@.len(),
            forall|i: int|
                0 <= i < old(self).particles@.len() ==> {
                    &&& (#[trigger] final(self).particles@[i]).mass == old(self).particles@[i].mass
                    &&& final(self).particles@[i].color == old(self).particles@[i].color
                },
    {
        let forces = self.calculate_forces_auto(num_threads);
        self.integrate(delta_time, &forces);
    }

    /// Puts every body on the circle round the origin that balances the
    /// force at its index.
    pub fn set_orbits(&mut self, forces: &Vec<Vector2<S>>)
        requires
            forces.len() == old(self).particles.len(),
        ensures
            final(self).settings == old(self).settings,
            final(self).particles@ == orbit_spec(old(self).particles@, forces@),
    {
        let ghost before = self.particles@;
        let ghost after = orbit_spec(before, forces@);
        let mut i: usize = 0;
        while i < self.particles.len()
            invariant
                i <= self.particles.len(),
                self.settings == old(self).settings,
                before == old(self).particles@,
                after == orbit_spec(before, forces@),
                self.particles@.len() == before.len(),
                forces.len() == before.len(),
                forall|j: int| 0 <= j < i ==> self.particles@[j] == after[j],
                forall|j: int| i <= j < before.len() ==> self.particles@[j] == before[j],
            decreases self.particles.len() - i,
        {
            let particle = self.particles[i];
            let force = forces[i];
            if particle.position.same(&Vector2::zero()) {
                self.particles[i].velocity = Vector2::zero();
            } else {
                let acceleration = force.div(particle.mass);
                let velocity = acceleration.abs().mul(particle.position.abs()).sqrt();
                let vector_to_center = particle.position.neg().div(particle.position.abs());
                let velocity_vector = (Vector2 {
                    x: vector_to_center.y,
                    y: vector_to_center.x.neg(),
                }).mul(velocity);
                self.particles[i].velocity = velocity_vector;
            }
            i += 1;
        }
        assert(self.particles@ =~= after);
    }

    /// Puts every body on a circle round the origin, under the forces that
    /// the method named by the settings finds for `num_threads` workers.
    pub fn set_circle_speed(&mut self, num_threads: usize)
        requires
            old(self).can_evaluate(num_threads),
        ensures
            final(self).settings == old(self).settings,
            final(self).particles@ == circle_speed_spec(old(self).particles@, old(self).settings),
    {
        let forces = self.calculate_forces_auto(num_threads);
        self.set_orbits(&forces);
    }

    /// Appends one resting body of mass `mass` at each position, in order.
    pub fn add_resting(&mut self, positions: &Vec<Vector2<S>>, mass: S, color: (S, S, S))
        ensures
            final(self).settings == old(self).settings,
            final(self).particles@ == old(self).particles@ + resting_spec(
                positions@,
                mass,
                color,
            ),
    {
        let ghost all = resting_spec(positions@, mass, color);
        let mut i: usize = 0;
        while i < positions.len()
            invariant
                i <= positions.len(),
                self.settings == old(self).settings,
                all == resting_spec(positions@, mass, color),
                self.particles@ == old(self).particles@ + all.take(i as int),
            decreases positions.len() - i,
        {
            self.add_particle(
                Particle { mass, position: positions[i], velocity: Vector2::zero(), color },
            );
            assert(self.particles@ =~= old(self).particles@ + all.take(i + 1));
            i += 1;
        }
        assert(all.take(i as int) =~= all);
    }

    /// Adds a disc of bodies at the sampled `positions`, which share half of
    /// `mass` equally, then puts every body of the world on a circle.
    /// `num_particles` is the number of positions as a scalar.
    pub fn new_galaxy(
        &mut self,
        positions: &Vec<Vector2<S>>,
        num_particles: S,
        mass: S,
        color: (S, S, S),
        num_threads: usize,
    )
        requires
            can_evaluate_spec(
                old(self).particles.len() + positions.len(),
                old(self).settings,
                num_threads,
            ),
        ensures
            final(self).settings == old(self).settings,
            final(self).particles@ == circle_speed_spec(
                old(self).particles@ + resting_spec(
                    positions@,
                    mass.div_spec(num_particles).div_spec(S::two_spec()),
                    color,
                ),
                old(self).settings,
            ),
    {
        self.add_resting(positions, mass.div(num_particles).div(S::two()), color);
        self.set_circle_speed(num_threads);
    }

    /// As `new_galaxy`, with a body of half of `mass` resting at the origin
    /// behind the sampled ones.
    pub fn new_galaxy_black_hole(
        &mut self,
        positions: &Vec<Vector2<S>>,
        num_particles: S,
        mass: S,
        color: (S, S, S),
        num_threads: usize,
    )
        requires
            can_evaluate_spec(
                old(self).particles.len() + positions.len() + 1,
                old(self).settings,
                num_threads,
            ),
        ensures
            final(self).settings == old(self).settings,
            final(self).particles@ == circle_speed_spec(
                (old(self).particles@ + resting_spec(
                    positions@,
                    mass.div_spec(num_particles).div_spec(S::two_spec()),
                    color,
                )).push(
                    Particle {
                        mass: mass.div_spec(S::two_spec()),
                        position: Vector2::zero_spec(),
                        velocity: Vector2::zero_spec(),
                        color,
                    },
                ),
                old(self).settings,
            ),
    {
        self.add_resting(positions, mass.div(num_particles).div(S::two()), color);
        self.add_particle(
            Particle {
                mass: mass.div(S::two()),
                position: Vector2::zero(),
                velocity: Vector2::zero(),
                color,
            },
        );
        self.set_circle_speed(num_threads);
    }

    /// Moves every body by `position`.
    pub fn add_position(&mut self, position: Vector2<S>)
        ensures
            final(self).settings == old(self).settings,
            final(self).particles@ == Seq::new(
                old(self).particles@.len(),
                |i: int|
                    (Particle {
                        position: old(self).particles@[i].position.add_spec(position),
                        ..old(self).particles@[i]
                    }),
            ),
    {
        let ghost before = self.particles@;
        let mut i: usize = 0;
        while i < self.particles.len()
            invariant
                i <= self.particles.len(),
                self.settings == old(self).settings,
                before == old(self).particles@,
                self.particles@.len() == before.len(),
                forall|j: int|
                    0 <= j < i ==> self.particles@[j] == (Particle {
                        position: before[j].position.add_spec(position),
                        ..before[j]
                    }),
                forall|j: int| i <= j < before.len() ==> self.particles@[j] == before[j],
            decreases self.particles.len() - i,
        {
            self.particles[i].position.add_assign(position);
            i += 1;
        }
        assert(self.particles@ =~= Seq::new(
            before.len(),
            |i: int| (Particle { position: before[i].position.add_spec(position), ..before[i] }),
        ));
    }

    /// Changes the velocity of every body by `velocity`.
    pub fn add_velocity(&mut self, velocity: Vector2<S>)
        ensures
            final(self).settings == old(self).settings,
            final(self).particles@ == Seq::new(
                old(self).particles@.len(),
                |i: int|
                    (Particle {
                        velocity: old(self).particles@[i].velocity.add_spec(velocity),
                        ..old(self).particles@[i]
                    }),
            ),
    {
        let ghost before = self.particles@;
        let mut i: usize = 0;
        while i < self.particles.len()
            invariant
                i <= self.particles.len(),
                self.settings == old(self).settings,
                before == old(self).particles@,
                self.particles@.len() == before.len(),
                forall|j: int|
                    0 <= j < i ==> self.particles@[j] == (Particle {
                        velocity: before[j].velocity.add_spec(velocity),
                        ..before[j]
                    }),
                forall|j: int| i <= j < before.len() ==> self.particles@[j] == before[j],
            decreases self.particles.len() - i,
        {
            self.particles[i].velocity.add_assign(velocity);
            i += 1;
        }
        assert(self.particles@ =~= Seq::new(
            before.len(),
            |i: int| (Particle { velocity: before[i].velocity.add_spec(velocity), ..before[i] }),
        ));
    }

    /// Appends a copy of every body of `other`, in order. The settings of
    /// `other` are not looked at.
    pub fn add_world(&mut self, other: &Self)
        ensures
            final(self).settings == old(self).settings,
            final(self).particles@ == old(self).particles@ + other.particles@,
    {
        let mut i: usize = 0;
        while i < other.particles.len()
            invariant
                i <= other.particles.len(),
                self.settings == old(self).settings,
                self.particles@ == old(self).particles@ + other.particles@.take(i as int),
            decreases other.particles.len() - i,
        {
            self.add_particle(other.particles[i]);
            assert(self.particles@ =~= old(self).particles@ + other.particles@.take(i + 1));
            i += 1;
        }
        assert(other.particles@.take(i as int) =~= other.particles@);
    }

    /// Gives every body the colour `color`.
    pub fn set_color(&mut self, color: (S, S, S))
        ensures
            final(self).settings == old(self).settings,
            final(self).particles@ == Seq::new(
                old(self).particles@.len(),
                |i: int| (Particle { color, ..old(self).particles@[i] }),
            ),
    {
        let ghost before = self.particles@;
        let mut i: usize = 0;
        while i < self.particles.len()
            invariant
                i <= self.particles.len(),
                self.settings == old(self).settings,
                before == old(self).particles@,
                self.particles@.len() == before.len(),
                forall|j: int|
                    0 <= j < i ==> self.particles@[j] == (Particle { color, ..before[j] }),
                forall|j: int| i <= j < before.len() ==> self.particles@[j] == before[j],
            decreases self.particles.len() - i,
        {
            self.particles[i].color = color;
            i += 1;
        }
        assert(self.particles@ =~= Seq::new(
            before.len(),
            |i: int| (Particle { color, ..before[i] }),
        ));
    }
}

/// The cells of the tree, where there is one.
pub open spec fn nodes_of<S>(tree: Option<Quadtree<S>>) -> Option<Seq<QuadtreeNode<S>>> {
    match tree {
        Some(quadtree) => Some(quadtree.nodes@),
        None => None,
    }
}

/// The tree over the first `k` bodies is a tree, each of its cells is
/// consistent with its children, and each of its occupied leaves above
/// `MAX_DEPTH` holds one of those bodies, position and mass unchanged.
pub proof fn lemma_tree_holds_bodies<S: Scalar>(particles: Seq<Particle<S>>, k: int)
    requires
        tree_fits_spec(particles.len() as int),
        0 <= k <= particles.len(),
    ensures
        shape(tree_spec(particles, k)),
        aggregated(tree_spec(particles, k)),
        tree_spec(particles, k).len() <= 1 + 4 * MAX_DEPTH * k,
        leaves_hold(tree_spec(particles, k), bodies_spec(particles, k)),
    decreases k,
{
    S::zero_is_not_positive();
    if k > 0 {
        lemma_tree_holds_bodies(particles, k - 1);
        let before = tree_spec(particles, k - 1);
        let after = tree_spec(particles, k);
        let position = particles[k - 1].position;
        let mass = particles[k - 1].mass;
        assert(4 * MAX_DEPTH * k == 128 * k);
        assert(4 * MAX_DEPTH * (k - 1) == 128 * (k - 1));
        assert(4 * MAX_DEPTH * particles.len() == 128 * particles.len());
        assert(splits_left(before, 0) <= 32);
        lemma_insert_shape(before, position, mass, 0);
        lemma_insert_keeps_aggregated(before, position, mass);
        lemma_insert_leaves_hold(before, position, mass, 0, bodies_spec(particles, k - 1));
        let more = bodies_spec(particles, k - 1).insert((position, mass));
        assert forall|i: int|
            0 <= i < after.len() && (#[trigger] after[i]).children is None && after[i].occupied()
                && after[i].depth < MAX_DEPTH implies bodies_spec(particles, k).contains(
            (after[i].position, after[i].mass),
        ) by {
            let body = (after[i].position, after[i].mass);
            assert(more.contains(body));
            if body == (position, mass) {
                assert(body_at(particles, k - 1) == body);
            } else {
                assert(is_body_of(particles, k - 1, body));
                let j = choose|j: int| 0 <= j < k - 1 && #[trigger] body_at(particles, j) == body;
                assert(body_at(particles, j) == body);
            }
        }
    }
}

/// Whatever the number of workers, their results put together in the order
/// of the chunks are the forces that one pass over all bodies finds, with
/// a tree or without.
pub proof fn lemma_parallel_is_sequential<S: Scalar>(
    particles: Seq<Particle<S>>,
    settings: WorldSettings<S>,
    tree: Option<Seq<QuadtreeNode<S>>>,
    num_threads: int,
)
    requires
        num_threads >= 1,
    ensures
        gathered_spec(
            forces_spec(particles, settings, tree),
            particles_per_thread_spec(particles.len() as int, num_threads),
            num_threads,
        ) == forces_spec(particles, settings, tree),
{
    let all = forces_spec(particles, settings, tree);
    let per = particles_per_thread_spec(particles.len() as int, num_threads);
    lemma_chunks_cover(particles.len() as int, num_threads);
    lemma_gathered_is_prefix(all, per, num_threads);
    assert(all.subrange(0, all.len() as int) =~= all);
}

/// In a world of two bodies at different places, the force on the first is
/// the point field of the second at the first's place, times the first's
/// mass: strength times both masses over the squared distance, where
/// nothing softens it.
pub proof fn lemma_two_body_force<S: Scalar>(
    first: Particle<S>,
    second: Particle<S>,
    settings: WorldSettings<S>,
)
    requires
        first.position.same_spec(first.position),
        !second.position.same_spec(first.position),
    ensures
        force_spec(seq![first, second], settings, None, 0) == Vector2::<S>::zero_spec().add_spec(
            point_gravity_spec(settings, second.position, second.mass, first.position),
        ).mul_spec(first.mass),
{
    let pair = seq![first, second];
    let one = pair.drop_last();
    assert(one =~= seq![first]);
    assert(one.drop_last() =~= Seq::<Particle<S>>::empty());
    reveal_with_fuel(gravity_spec, 3);
    assert(gravity_spec(one.drop_last(), settings, first.position) == Vector2::<S>::zero_spec());
    assert(gravity_spec(one, settings, first.position) == Vector2::<S>::zero_spec());
}

/// A step keeps the bodies in their places: the body at an index is, by
/// its mass and its colour, the one that was there before.
pub proof fn lemma_update_keeps_order<S: Scalar>(
    particles: Seq<Particle<S>>,
    settings: WorldSettings<S>,
    delta_time: S,
)
    ensures
        update_spec(particles, settings, delta_time).len() == particles.len(),
        forall|i: int|
            0 <= i < particles.len() ==> {
                &&& (#[trigger] update_spec(particles, settings, delta_time)[i]).mass
                    == particles[i].mass
                &&& update_spec(particles, settings, delta_time)[i].color == particles[i].color
            },
{
}

} // verus!
