use nbody::particle::Particle;
use nbody::quadtree::{Quadtree, QuadtreeNode, MAX_DEPTH};
use nbody::scalar::Scalar;
use nbody::scene::last_image_galaxy_collision;
use nbody::vector::Vector2;
use nbody::chunks::particles_per_thread;
use nbody::world::{point_gravity, World, WorldSettings};

#[derive(Clone, Copy, Debug, PartialEq)]
struct Real(f64);

// The items whose names end in `_spec`, and the law, are read by the verifier
// alone: compiled code never calls them, so any body will do.
impl Scalar for Real {
    fn zero_spec() -> Self {
        Real(0.0)
    }
    fn two_spec() -> Self {
        Real(2.0)
    }
    fn add_spec(self, rhs: Self) -> Self {
        Real(self.0 + rhs.0)
    }
    fn sub_spec(self, rhs: Self) -> Self {
        Real(self.0 - rhs.0)
    }
    fn mul_spec(self, rhs: Self) -> Self {
        Real(self.0 * rhs.0)
    }
    fn div_spec(self, rhs: Self) -> Self {
        Real(self.0 / rhs.0)
    }
    fn neg_spec(self) -> Self {
        Real(-self.0)
    }
    fn sqrt_spec(self) -> Self {
        Real(self.0.sqrt())
    }
    fn max_spec(self, rhs: Self) -> Self {
        Real(self.0.max(rhs.0))
    }
    fn min_spec(self, rhs: Self) -> Self {
        Real(self.0.min(rhs.0))
    }
    fn lt_spec(self, rhs: Self) -> bool {
        self.0 < rhs.0
    }
    fn same_spec(self, rhs: Self) -> bool {
        self.0 == rhs.0
    }
    fn zero_is_not_positive() {}
    fn zero() -> Self {
        Real(0.0)
    }
    fn two() -> Self {
        Real(2.0)
    }
    fn add(self, rhs: Self) -> Self {
        Real(self.0 + rhs.0)
    }
    fn sub(self, rhs: Self) -> Self {
        Real(self.0 - rhs.0)
    }
    fn mul(self, rhs: Self) -> Self {
        Real(self.0 * rhs.0)
    }
    fn div(self, rhs: Self) -> Self {
        Real(self.0 / rhs.0)
    }
    fn neg(self) -> Self {
        Real(-self.0)
    }
    fn sqrt(self) -> Self {
        Real(self.0.sqrt())
    }
    fn max(self, rhs: Self) -> Self {
        Real(self.0.max(rhs.0))
    }
    fn min(self, rhs: Self) -> Self {
        Real(self.0.min(rhs.0))
    }
    fn lt(self, rhs: Self) -> bool {
        self.0 < rhs.0
    }
    fn same(self, rhs: Self) -> bool {
        self.0 == rhs.0
    }
}

fn v(x: f64, y: f64) -> Vector2<Real> {
    Vector2 { x: Real(x), y: Real(y) }
}

fn white() -> (Real, Real, Real) {
    (Real(1.0), Real(1.0), Real(1.0))
}

fn body(mass: f64, x: f64, y: f64) -> Particle<Real> {
    Particle { mass: Real(mass), position: v(x, y), velocity: v(0.0, 0.0), color: white() }
}

fn settings(g: f64, quadtree: bool, multiprocessing: bool) -> WorldSettings<Real> {
    WorldSettings {
        gravity_strength: Real(g),
        softening_length: Real(0.0),
        accuracy: Real(0.5),
        quadtree,
        multiprocessing,
    }
}

fn world_of(settings: WorldSettings<Real>, bodies: &[(f64, f64, f64)]) -> World<Real> {
    let mut world = World::new(settings);
    for &(mass, x, y) in bodies {
        world.add_particle(body(mass, x, y));
    }
    world
}

fn scattered(count: usize) -> Vec<(f64, f64, f64)> {
    let mut state: u64 = 0x2545_f491_4f6c_dd1d;
    let mut out = Vec::new();
    for _ in 0..count {
        let mut draw = || {
            state = state.wrapping_mul(6364136223846793005).wrapping_add(1442695040888963407);
            ((state >> 11) as f64) / ((1u64 << 53) as f64)
        };
        let mass = 0.5 + draw();
        let x = draw() * 20.0 - 10.0;
        let y = draw() * 20.0 - 10.0;
        out.push((mass, x, y));
    }
    out
}

fn close(a: Real, b: f64, tolerance: f64) -> bool {
    (a.0 - b).abs() <= tolerance
}

#[test]
fn field_of_one_body_points_at_it() {
    let world = world_of(settings(3.0, false, false), &[(2.0, 2.0, 0.0)]);
    let g = world.calculate_gravity(v(0.0, 0.0));
    assert_eq!(g.x, Real(1.5));
    assert_eq!(g.y, Real(0.0));
}

#[test]
fn vector_operations() {
    let a = v(3.0, 4.0);
    let b = v(1.0, -2.0);
    assert_eq!(a.abs(), Real(5.0));
    let sum = a.add(b);
    assert_eq!((sum.x, sum.y), (Real(4.0), Real(2.0)));
    let difference = a.sub(b);
    assert_eq!((difference.x, difference.y), (Real(2.0), Real(6.0)));
    let scaled = a.mul(Real(2.0));
    assert_eq!((scaled.x, scaled.y), (Real(6.0), Real(8.0)));
    let shrunk = a.div(Real(2.0));
    assert_eq!((shrunk.x, shrunk.y), (Real(1.5), Real(2.0)));
    let turned = a.neg();
    assert_eq!((turned.x, turned.y), (Real(-3.0), Real(-4.0)));
    let mut c = a;
    c.add_assign(b);
    assert_eq!((c.x, c.y), (Real(4.0), Real(2.0)));
    c.sub_assign(b);
    assert_eq!((c.x, c.y), (Real(3.0), Real(4.0)));
    c.mul_assign(Real(3.0));
    assert_eq!((c.x, c.y), (Real(9.0), Real(12.0)));
    c.div_assign(Real(3.0));
    assert_eq!((c.x, c.y), (Real(3.0), Real(4.0)));
    assert!(a.same(&v(3.0, 4.0)));
    assert!(!a.same(&v(3.0, 4.5)));
}

#[test]
fn integrator_advances_velocity_before_position() {
    let mut particle = body(2.0, 1.0, 1.0);
    particle.velocity = v(1.0, 0.0);
    particle.update(Real(0.5), v(4.0, -8.0));
    // acceleration (2, -4); velocity (1, 0) + (1, -2); position moves by the new velocity
    assert_eq!((particle.velocity.x, particle.velocity.y), (Real(2.0), Real(-2.0)));
    assert_eq!((particle.position.x, particle.position.y), (Real(2.0), Real(0.0)));
    assert_eq!(particle.mass, Real(2.0));
}

#[test]
fn point_gravity_is_softened_inverse_square() {
    let mut s = settings(2.0, false, false);
    s.softening_length = Real(3.0);
    let g = point_gravity(&s, v(4.0, 0.0), Real(5.0), v(0.0, 0.0));
    // 2 * 5 / (16 + 9), along +x
    assert_eq!(g.x, Real(0.4));
    assert_eq!(g.y, Real(0.0));
}

#[test]
fn two_bodies_attract_with_the_analytic_force() {
    let world = world_of(settings(6.5, false, false), &[(2.0, 0.0, 0.0), (3.0, 4.0, 0.0)]);
    let forces = world.calculate_forces();
    assert_eq!(forces.len(), 2);
    let expected = 6.5 * 2.0 * 3.0 / 16.0;
    assert!(close(forces[0].x, expected, 1e-12));
    assert!(close(forces[0].y, 0.0, 1e-12));
    assert!(close(forces[1].x, -expected, 1e-12));
    assert!(close(forces[1].y, 0.0, 1e-12));
}

#[test]
fn two_bodies_one_step() {
    let g = 4.0;
    let dt = 0.5;
    let mut world = world_of(settings(g, false, false), &[(1.0, -1.0, 0.0), (1.0, 1.0, 0.0)]);
    world.update(Real(dt), 1);
    let acceleration = g * 1.0 * 1.0 / 4.0;
    let left = world.particles[0];
    let right = world.particles[1];
    assert_eq!(left.velocity.x, Real(acceleration * dt));
    assert_eq!(left.velocity.y, Real(0.0));
    assert_eq!(left.position.x, Real(-1.0 + acceleration * dt * dt));
    assert_eq!(left.position.y, Real(0.0));
    assert_eq!(right.velocity.x, Real(-acceleration * dt));
    assert_eq!(right.position.x, Real(1.0 - acceleration * dt * dt));
    assert_eq!(right.position.y, Real(0.0));
}

#[test]
fn a_body_does_not_pull_on_its_own_place() {
    let world = world_of(settings(1.0, false, false), &[(5.0, 1.0, 1.0), (2.0, 1.0, 3.0)]);
    let g = world.calculate_gravity(v(1.0, 1.0));
    // only the second body counts: 1 * 2 / 4 along +y
    assert_eq!((g.x, g.y), (Real(0.0), Real(0.5)));
    let alone = world_of(settings(1.0, false, false), &[(5.0, 1.0, 1.0)]);
    let none = alone.calculate_gravity(v(1.0, 1.0));
    assert_eq!((none.x, none.y), (Real(0.0), Real(0.0)));
}

#[test]
fn a_body_sharing_one_coordinate_still_pulls() {
    let world = world_of(settings(1.0, false, false), &[(8.0, 1.0, 3.0)]);
    let g = world.calculate_gravity(v(1.0, 1.0));
    assert_eq!((g.x, g.y), (Real(0.0), Real(2.0)));
}

#[test]
fn field_at_the_centre_of_a_ring_cancels() {
    let mut world = World::new(settings(1.0, false, false));
    let count = 16;
    for i in 0..count {
        let angle = 2.0 * std::f64::consts::PI * (i as f64) / (count as f64);
        world.add_particle(body(1.0, 3.0 * angle.cos(), 3.0 * angle.sin()));
    }
    world.add_particle(body(1.0, 0.0, 0.0));
    let g = world.calculate_gravity(v(0.0, 0.0));
    assert!(close(g.x, 0.0, 1e-12));
    assert!(close(g.y, 0.0, 1e-12));
}

#[test]
fn empty_world_has_no_field_and_no_forces() {
    let world = World::new(settings(1.0, false, true));
    let g = world.calculate_gravity(v(1.0, 2.0));
    assert_eq!((g.x, g.y), (Real(0.0), Real(0.0)));
    assert_eq!(world.calculate_forces().len(), 0);
    assert_eq!(world.calculate_forces_multiprocessing(4).len(), 0);
    assert_eq!(world.calculate_forces_auto(4).len(), 0);
}

#[test]
fn chunk_size_is_the_count_over_the_workers_rounded_up() {
    assert_eq!(particles_per_thread(10, 3), 4);
    assert_eq!(particles_per_thread(8, 4), 2);
    assert_eq!(particles_per_thread(0, 4), 0);
    assert_eq!(particles_per_thread(1, 16), 1);
    assert_eq!(particles_per_thread(7, 1), 7);
}

#[test]
fn parallel_exact_forces_equal_sequential_ones() {
    let bodies = scattered(23);
    let world = world_of(settings(1.5, false, true), &bodies);
    let sequential = world.calculate_forces();
    for workers in [1usize, 2, 3, 4, 7, 23, 24, 100] {
        let parallel = world.calculate_forces_multiprocessing(workers);
        assert_eq!(parallel.len(), sequential.len());
        for i in 0..sequential.len() {
            assert_eq!(parallel[i].x, sequential[i].x);
            assert_eq!(parallel[i].y, sequential[i].y);
        }
    }
}

#[test]
fn parallel_tree_forces_equal_sequential_ones() {
    let bodies = scattered(23);
    let world = world_of(settings(1.5, true, true), &bodies);
    let sequential = world.calculate_forces_quadtree();
    for workers in [1usize, 2, 5, 23, 64] {
        let parallel = world.calculate_forces_multiprocessing_quadtree(workers);
        assert_eq!(parallel.len(), sequential.len());
        for i in 0..sequential.len() {
            assert_eq!(parallel[i].x, sequential[i].x);
            assert_eq!(parallel[i].y, sequential[i].y);
        }
    }
}

#[test]
fn chunks_come_in_order_and_end_with_the_bodies() {
    let bodies = scattered(10);
    let world = world_of(settings(1.0, false, true), &bodies);
    let all = world.calculate_forces();
    let per = particles_per_thread(10, 4);
    assert_eq!(per, 3);
    let sizes: Vec<usize> = (0..4).map(|i| world.chunk_forces(&None, i, per).len()).collect();
    assert_eq!(sizes, vec![3, 3, 3, 1]);
    let last = world.chunk_forces(&None, 3, per);
    assert_eq!(last[0].x, all[9].x);
    assert_eq!(world.chunk_forces(&None, 5, per).len(), 0);
}

#[test]
fn the_two_flags_select_the_method() {
    let bodies = scattered(12);
    let exact = world_of(settings(1.0, false, false), &bodies).calculate_forces();
    let tree = world_of(settings(1.0, true, false), &bodies).calculate_forces_quadtree();
    for (quadtree, multiprocessing) in [(false, false), (false, true), (true, false), (true, true)] {
        let world = world_of(settings(1.0, quadtree, multiprocessing), &bodies);
        let got = world.calculate_forces_auto(3);
        let want = if quadtree { &tree } else { &exact };
        for i in 0..bodies.len() {
            assert_eq!(got[i].x, want[i].x);
            assert_eq!(got[i].y, want[i].y);
        }
    }
    let differs = (0..bodies.len()).any(|i| exact[i].x != tree[i].x || exact[i].y != tree[i].y);
    assert!(differs);
}

#[test]
fn tree_with_zero_opening_angle_matches_exact_forces() {
    let bodies = scattered(40);
    let mut s = settings(2.0, true, false);
    s.accuracy = Real(0.0);
    s.softening_length = Real(0.05);
    let world = world_of(s, &bodies);
    let exact = world.calculate_forces();
    let tree = world.calculate_forces_quadtree();
    for i in 0..bodies.len() {
        let scale = 1.0 + exact[i].x.0.abs() + exact[i].y.0.abs();
        assert!(close(tree[i].x, exact[i].x.0, 1e-9 * scale));
        assert!(close(tree[i].y, exact[i].y.0, 1e-9 * scale));
    }
}

#[test]
fn tree_error_shrinks_with_the_opening_angle() {
    let bodies = scattered(60);
    let error = |angle: f64| {
        let mut s = settings(1.0, true, false);
        s.accuracy = Real(angle);
        let world = world_of(s, &bodies);
        let exact = world.calculate_forces();
        let tree = world.calculate_forces_quadtree();
        let mut worst: f64 = 0.0;
        for i in 0..bodies.len() {
            worst = worst.max((tree[i].x.0 - exact[i].x.0).abs());
            worst = worst.max((tree[i].y.0 - exact[i].y.0).abs());
        }
        worst
    };
    let coarse = error(1.5);
    let fine = error(0.2);
    let finest = error(0.0);
    assert!(fine <= coarse);
    assert!(finest <= fine);
    assert!(finest < 1e-9);
}

#[test]
fn tree_forces_of_a_symmetric_square_sum_to_zero() {
    let mut s = settings(1.0, true, false);
    s.accuracy = Real(10.0);
    let world = world_of(s, &[(1.0, -1.0, -1.0), (1.0, 1.0, -1.0), (1.0, -1.0, 1.0), (1.0, 1.0, 1.0)]);
    let forces = world.calculate_forces_quadtree();
    let mut sum = (0.0, 0.0);
    for force in &forces {
        sum.0 += force.x.0;
        sum.1 += force.y.0;
    }
    assert!(sum.0.abs() < 1e-12);
    assert!(sum.1.abs() < 1e-12);
    assert!(forces[0].x.0 > 0.0 && forces[0].y.0 > 0.0);
}

#[test]
fn four_corners_split_the_root_once() {
    let mut tree = Quadtree::new(v(-1.0, -1.0), v(1.0, 1.0));
    assert_eq!(tree.nodes.len(), 1);
    tree.insert(v(-1.0, -1.0), Real(1.0), 0);
    assert_eq!(tree.nodes.len(), 1);
    assert!(tree.nodes[0].children.is_none());
    tree.insert(v(1.0, -1.0), Real(2.0), 0);
    tree.insert(v(-1.0, 1.0), Real(3.0), 0);
    tree.insert(v(1.0, 1.0), Real(4.0), 0);
    assert_eq!(tree.nodes.len(), 5);
    assert_eq!(tree.nodes[0].children, Some([1, 2, 3, 4]));
    for k in 1..5 {
        assert!(tree.nodes[k].children.is_none());
        assert_eq!(tree.nodes[k].depth, 1);
        assert_eq!(tree.nodes[k].mass, Real(k as f64));
    }
    assert_eq!((tree.nodes[1].position.x, tree.nodes[1].position.y), (Real(-1.0), Real(-1.0)));
    assert_eq!((tree.nodes[2].position.x, tree.nodes[2].position.y), (Real(1.0), Real(-1.0)));
    assert_eq!((tree.nodes[3].position.x, tree.nodes[3].position.y), (Real(-1.0), Real(1.0)));
    assert_eq!((tree.nodes[4].position.x, tree.nodes[4].position.y), (Real(1.0), Real(1.0)));
    assert_eq!(tree.nodes[0].mass, Real(10.0));
    // centre of mass: x = (-1 + 2 - 3 + 4) / 10, y = (-1 - 2 + 3 + 4) / 10
    assert_eq!((tree.nodes[0].position.x, tree.nodes[0].position.y), (Real(0.2), Real(0.4)));
}

#[test]
fn children_cover_the_bisected_box() {
    let mut tree = Quadtree::new(v(0.0, 0.0), v(4.0, 2.0));
    tree.add_children(0);
    let cells: Vec<(f64, f64, f64, f64)> = (1..5)
        .map(|k| {
            let n = &tree.nodes[k];
            (n.min.x.0, n.min.y.0, n.max.x.0, n.max.y.0)
        })
        .collect();
    assert_eq!(
        cells,
        vec![(0.0, 0.0, 2.0, 1.0), (2.0, 0.0, 4.0, 1.0), (0.0, 1.0, 2.0, 2.0), (2.0, 1.0, 4.0, 2.0)]
    );
    for k in 1..5 {
        assert_eq!(tree.nodes[k].mass, Real(0.0));
        assert_eq!(tree.nodes[k].depth, 1);
    }
}

#[test]
fn a_point_on_the_middle_goes_to_the_lower_half() {
    let node = QuadtreeNode::new(v(0.0, 0.0), v(2.0, 2.0), 0);
    assert_eq!(node.which_child(v(1.0, 1.0)), 0);
    assert_eq!(node.which_child(v(1.5, 1.0)), 1);
    assert_eq!(node.which_child(v(1.0, 1.5)), 2);
    assert_eq!(node.which_child(v(1.5, 1.5)), 3);
    assert_eq!(node.which_child(v(0.0, 0.0)), 0);
    assert_eq!(node.which_child(v(2.0, 2.0)), 3);
}

#[test]
fn inside_includes_the_boundary() {
    let node = QuadtreeNode::new(v(0.0, 0.0), v(2.0, 1.0), 0);
    assert!(node.inside(v(0.0, 0.0)));
    assert!(node.inside(v(2.0, 1.0)));
    assert!(node.inside(v(1.0, 0.5)));
    assert!(!node.inside(v(-0.1, 0.5)));
    assert!(!node.inside(v(2.1, 0.5)));
    assert!(!node.inside(v(1.0, -0.1)));
    assert!(!node.inside(v(1.0, 1.1)));
}

#[test]
fn far_away_compares_size_over_distance_with_the_angle() {
    let mut node = QuadtreeNode::new(v(0.0, 0.0), v(2.0, 1.0), 0);
    node.position = v(1.0, 0.0);
    // size 2, distance 5: 0.4
    assert!(node.far_away(v(1.0, 5.0), Real(0.5)));
    assert!(!node.far_away(v(1.0, 5.0), Real(0.4)));
    // distance 4: exactly 0.5 is not below 0.5
    assert!(!node.far_away(v(5.0, 0.0), Real(0.5)));
}

#[test]
fn coincident_bodies_saturate_at_the_maximum_depth() {
    let mut tree = Quadtree::new(v(0.0, 0.0), v(1.0, 1.0));
    tree.insert(v(0.3, 0.3), Real(1.0), 0);
    tree.insert(v(0.3, 0.3), Real(2.0), 0);
    assert_eq!(tree.nodes.len(), 1 + 4 * MAX_DEPTH);
    let deepest: Vec<&QuadtreeNode<Real>> =
        tree.nodes.iter().filter(|n| n.depth == MAX_DEPTH && n.mass.0 > 0.0).collect();
    assert_eq!(deepest.len(), 1);
    assert_eq!(deepest[0].mass, Real(3.0));
    assert_eq!((deepest[0].position.x, deepest[0].position.y), (Real(0.3), Real(0.3)));
    assert!(tree.nodes.iter().all(|n| n.depth <= MAX_DEPTH));
    assert_eq!(tree.nodes[0].mass, Real(3.0));
    tree.insert(v(0.3, 0.3), Real(4.0), 0);
    assert_eq!(tree.nodes.len(), 1 + 4 * MAX_DEPTH);
    assert_eq!(tree.nodes[0].mass, Real(7.0));
}

#[test]
fn every_cell_aggregates_its_children() {
    let bodies = scattered(200);
    let world = world_of(settings(1.0, true, false), &bodies);
    let tree = world.construct_quadtree();
    let mut inner = 0;
    for node in &tree.nodes {
        if let Some(children) = node.children {
            inner += 1;
            let mut mass = 0.0;
            let mut weighted = (0.0, 0.0);
            for child in children {
                let c = &tree.nodes[child];
                weighted.0 += c.position.x.0 * c.mass.0;
                weighted.1 += c.position.y.0 * c.mass.0;
                mass += c.mass.0;
                assert_eq!(c.depth, node.depth + 1);
            }
            assert_eq!(node.mass, Real(mass));
            assert_eq!(node.position.x, Real(weighted.0 / mass));
            assert_eq!(node.position.y, Real(weighted.1 / mass));
        }
    }
    assert!(inner > 10);
    let total: f64 = bodies.iter().map(|b| b.0).sum();
    assert!(close(tree.nodes[0].mass, total, 1e-9));
}

#[test]
fn every_leaf_above_the_maximum_depth_holds_one_body() {
    let mut bodies = scattered(150);
    bodies.push(bodies[3]);
    bodies.push(bodies[3]);
    let world = world_of(settings(1.0, true, false), &bodies);
    let tree = world.construct_quadtree();
    let mut single = 0;
    let mut merged = 0;
    for node in &tree.nodes {
        if node.children.is_none() && node.mass.0 > 0.0 {
            if node.depth < MAX_DEPTH {
                single += 1;
                assert!(bodies
                    .iter()
                    .any(|b| b.0 == node.mass.0 && b.1 == node.position.x.0 && b.2 == node.position.y.0));
            } else {
                merged += 1;
                assert_eq!(node.mass, Real(bodies[3].0 + bodies[3].0 + bodies[3].0));
            }
        }
    }
    assert_eq!(single, 149);
    assert_eq!(merged, 1);
}

#[test]
fn root_box_is_the_tight_box_of_the_bodies() {
    let world = world_of(settings(1.0, true, false), &[(1.0, 2.0, -3.0), (1.0, -5.0, 4.0), (1.0, 0.0, 7.0)]);
    let tree = world.construct_quadtree();
    let root = &tree.nodes[0];
    assert_eq!((root.min.x, root.min.y), (Real(-5.0), Real(-3.0)));
    assert_eq!((root.max.x, root.max.y), (Real(2.0), Real(7.0)));
    assert_eq!(root.depth, 0);
}

#[test]
fn tree_query_skips_the_leaf_that_holds_the_point() {
    let mut s = settings(1.0, true, false);
    s.accuracy = Real(0.0);
    let mut tree = Quadtree::new(v(0.0, 0.0), v(4.0, 4.0));
    tree.insert(v(1.0, 1.0), Real(2.0), 0);
    let at_leaf = tree.calculate_gravity(v(3.0, 3.0), 0, &s);
    assert_eq!((at_leaf.x, at_leaf.y), (Real(0.0), Real(0.0)));
    let outside = tree.calculate_gravity(v(1.0, 5.0), 0, &s);
    assert_eq!((outside.x, outside.y), (Real(0.0), Real(-0.125)));
    tree.insert(v(3.0, 1.0), Real(2.0), 0);
    let own = tree.calculate_gravity(v(1.0, 1.0), 0, &s);
    assert_eq!((own.x, own.y), (Real(0.5), Real(0.0)));
}

#[test]
fn a_far_cell_counts_as_one_point_mass() {
    let mut s = settings(1.0, true, false);
    s.accuracy = Real(0.5);
    let mut tree = Quadtree::new(v(0.0, 0.0), v(2.0, 2.0));
    tree.insert(v(0.0, 0.0), Real(1.0), 0);
    tree.insert(v(2.0, 0.0), Real(1.0), 0);
    // centre of mass (1, 0), mass 2; from (1, 10): size 2 over distance 10
    let g = tree.calculate_gravity(v(1.0, 10.0), 0, &s);
    assert_eq!((g.x, g.y), (Real(0.0), Real(-0.02)));
    s.accuracy = Real(0.1);
    let opened = tree.calculate_gravity(v(1.0, 10.0), 0, &s);
    assert!(close(opened.x, 0.0, 1e-15));
    assert!(opened.y.0 > -0.02 && opened.y.0 < -0.019);
}

#[test]
fn step_keeps_every_body_at_its_index() {
    let bodies = scattered(17);
    for (quadtree, multiprocessing) in [(false, false), (false, true), (true, false), (true, true)] {
        let mut world = world_of(settings(0.3, quadtree, multiprocessing), &bodies);
        for (i, particle) in world.particles.iter_mut().enumerate() {
            particle.color = (Real(i as f64), Real(0.0), Real(1.0));
        }
        world.update(Real(0.01), 3);
        assert_eq!(world.particles.len(), bodies.len());
        for i in 0..bodies.len() {
            assert_eq!(world.particles[i].mass, Real(bodies[i].0));
            assert_eq!(world.particles[i].color.0, Real(i as f64));
            assert!(world.particles[i].position.x != Real(bodies[i].1));
        }
    }
}

#[test]
fn bulk_moves_keep_the_order() {
    let mut world = world_of(settings(1.0, false, false), &[(1.0, 0.0, 0.0), (2.0, 1.0, 1.0)]);
    world.add_position(v(-25.0, 25.0));
    world.add_velocity(v(0.5, -0.25));
    world.add_velocity(v(0.5, -0.25));
    assert_eq!((world.particles[0].position.x, world.particles[0].position.y), (Real(-25.0), Real(25.0)));
    assert_eq!((world.particles[1].position.x, world.particles[1].position.y), (Real(-24.0), Real(26.0)));
    for i in 0..2 {
        assert_eq!((world.particles[i].velocity.x, world.particles[i].velocity.y), (Real(1.0), Real(-0.5)));
    }
    assert_eq!(world.particles[0].mass, Real(1.0));
    assert_eq!(world.particles[1].mass, Real(2.0));
    world.set_color((Real(1.0), Real(0.0), Real(0.5)));
    for i in 0..2 {
        assert_eq!(world.particles[i].color, (Real(1.0), Real(0.0), Real(0.5)));
    }
}

#[test]
fn merging_appends_copies_and_keeps_the_settings() {
    let mut first = world_of(settings(1.0, false, false), &[(1.0, 0.0, 0.0)]);
    let mut second = world_of(settings(9.0, true, true), &[(2.0, 1.0, 1.0), (3.0, 2.0, 2.0)]);
    first.add_world(&second);
    assert_eq!(first.particles.len(), 3);
    assert_eq!(first.particles[0].mass, Real(1.0));
    assert_eq!(first.particles[1].mass, Real(2.0));
    assert_eq!(first.particles[2].mass, Real(3.0));
    assert_eq!(first.settings.gravity_strength, Real(1.0));
    assert!(!first.settings.quadtree);
    second.add_position(v(10.0, 10.0));
    assert_eq!(first.particles[1].position.x, Real(1.0));
    assert_eq!(second.particles.len(), 2);
}

#[test]
fn circle_speed_is_perpendicular_and_balances_the_pull() {
    let mut world = world_of(settings(1.0, false, false), &[(16.0, 0.0, 0.0), (1.0, 4.0, 0.0)]);
    world.set_circle_speed(1);
    let centre = world.particles[0];
    assert_eq!((centre.velocity.x, centre.velocity.y), (Real(0.0), Real(0.0)));
    let moon = world.particles[1];
    // pull 16 / 16 = 1 towards -x, speed sqrt(1 * 4) = 2
    assert_eq!(moon.velocity.x.0, 0.0);
    assert_eq!(moon.velocity.y, Real(2.0));
    assert_eq!((moon.position.x, moon.position.y), (Real(4.0), Real(0.0)));
}

#[test]
fn galaxy_shares_half_the_mass_among_its_bodies() {
    let positions = vec![v(1.0, 0.0), v(0.0, 2.0), v(-3.0, 0.0), v(0.0, -4.0)];
    let mut world = World::new(settings(1.0, false, false));
    world.new_galaxy(&positions, Real(4.0), Real(16.0), white(), 1);
    assert_eq!(world.particles.len(), 4);
    for i in 0..4 {
        assert_eq!(world.particles[i].mass, Real(2.0));
        assert_eq!(world.particles[i].position.x, positions[i].x);
        assert_eq!(world.particles[i].position.y, positions[i].y);
    }
    assert!(world.particles[0].velocity.y.0 != 0.0);
}

#[test]
fn black_hole_rests_at_the_origin_behind_the_disc() {
    let positions = vec![v(1.0, 0.0), v(0.0, 2.0)];
    let mut world = World::new(settings(1.0, false, false));
    world.new_galaxy_black_hole(&positions, Real(2.0), Real(16.0), white(), 1);
    assert_eq!(world.particles.len(), 3);
    assert_eq!(world.particles[0].mass, Real(4.0));
    assert_eq!(world.particles[1].mass, Real(4.0));
    let hole = world.particles[2];
    assert_eq!(hole.mass, Real(8.0));
    assert_eq!((hole.position.x, hole.position.y), (Real(0.0), Real(0.0)));
    assert_eq!((hole.velocity.x, hole.velocity.y), (Real(0.0), Real(0.0)));
}

#[test]
fn closing_picture_of_the_collision() {
    let particles = vec![body(1.0, 0.0, 0.0), body(2.0, 1.0, 1.0)];
    let still = last_image_galaxy_collision(
        Real(1.30128e-12),
        Real(0.1),
        Real(0.5),
        Real(-9.5),
        Real(0.3),
        particles,
    );
    assert_eq!(still.width, 3840);
    assert_eq!(still.height, 2160);
    assert!(still.world.settings.quadtree);
    assert!(still.world.settings.multiprocessing);
    assert_eq!(still.world.settings.gravity_strength, Real(1.30128e-12));
    assert_eq!(still.world.settings.softening_length, Real(0.1));
    assert_eq!(still.world.settings.accuracy, Real(0.5));
    assert_eq!(still.world.particles.len(), 2);
    assert_eq!(still.world.particles[1].mass, Real(2.0));
    assert_eq!(still.camera.zoom, Real(-9.5));
    assert_eq!(still.camera.brightness, Real(0.3));
    assert_eq!((still.camera.position.x, still.camera.position.y), (Real(0.0), Real(0.0)));
}
