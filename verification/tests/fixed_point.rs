use nbody::fixed::{Fixed, ONE};
use nbody::particle::Particle;
use nbody::quadtree::Quadtree;
use nbody::scalar::Scalar;
use nbody::vector::Vector2;
use nbody::world::{World, WorldSettings};

fn whole(value: i32) -> Fixed {
    Fixed::from_int(value)
}

fn ratio(numerator: i64, denominator: i64) -> Fixed {
    Fixed { raw: numerator * ONE / denominator }
}

fn v(x: Fixed, y: Fixed) -> Vector2<Fixed> {
    Vector2 { x, y }
}

fn body(mass: i32, x: i32, y: i32) -> Particle<Fixed> {
    Particle {
        mass: whole(mass),
        position: v(whole(x), whole(y)),
        velocity: v(whole(0), whole(0)),
        color: (whole(1), whole(1), whole(1)),
    }
}

fn settings(g: i32, quadtree: bool, multiprocessing: bool) -> WorldSettings<Fixed> {
    WorldSettings {
        gravity_strength: whole(g),
        softening_length: whole(0),
        accuracy: ratio(1, 2),
        quadtree,
        multiprocessing,
    }
}

#[test]
fn fixed_constants() {
    assert_eq!(ONE, 1i64 << 32);
    assert_eq!(Fixed::zero().raw, 0);
    assert_eq!(Fixed::two().raw, 2 * ONE);
    assert_eq!(whole(-3).raw, -3 * ONE);
}

#[test]
fn fixed_sums_and_differences() {
    assert_eq!(ratio(3, 2).add(ratio(5, 2)).raw, 4 * ONE);
    assert_eq!(ratio(3, 2).sub(ratio(5, 2)).raw, -ONE);
    assert_eq!(whole(5).neg().raw, -5 * ONE);
    assert_eq!(Fixed { raw: i64::MAX }.add(whole(1)).raw, i64::MAX);
    assert_eq!(Fixed { raw: i64::MIN }.sub(whole(1)).raw, i64::MIN);
    assert_eq!(Fixed { raw: i64::MIN }.neg().raw, i64::MAX);
}

#[test]
fn fixed_products_round_towards_zero() {
    assert_eq!(ratio(3, 2).mul(ratio(5, 2)).raw, 15 * ONE / 4);
    assert_eq!(ratio(-3, 2).mul(ratio(5, 2)).raw, -15 * ONE / 4);
    assert_eq!(ratio(-3, 2).mul(ratio(-5, 2)).raw, 15 * ONE / 4);
    assert_eq!(Fixed { raw: 1 }.mul(ratio(1, 2)).raw, 0);
    assert_eq!(Fixed { raw: -1 }.mul(ratio(1, 2)).raw, 0);
    assert_eq!(Fixed { raw: 3 }.mul(ratio(1, 2)).raw, 1);
    assert_eq!(Fixed { raw: -3 }.mul(ratio(1, 2)).raw, -1);
    assert_eq!(whole(1 << 20).mul(whole(1 << 20)).raw, i64::MAX);
    assert_eq!(whole(1 << 20).mul(whole(-(1 << 20))).raw, i64::MIN);
    assert_eq!(Fixed { raw: i64::MIN }.mul(Fixed { raw: i64::MIN }).raw, i64::MAX);
}

#[test]
fn fixed_quotients() {
    assert_eq!(whole(1).div(whole(4)).raw, ONE / 4);
    assert_eq!(whole(-1).div(whole(4)).raw, -ONE / 4);
    assert_eq!(whole(1).div(whole(3)).raw, ONE / 3);
    assert_eq!(whole(-1).div(whole(3)).raw, -(ONE / 3));
    assert_eq!(whole(7).div(whole(0)).raw, i64::MAX);
    assert_eq!(whole(-7).div(whole(0)).raw, i64::MIN);
    assert_eq!(whole(0).div(whole(0)).raw, 0);
    assert_eq!(whole(1 << 30).div(Fixed { raw: 1 }).raw, i64::MAX);
}

#[test]
fn fixed_roots_round_down() {
    assert_eq!(whole(4).sqrt().raw, 2 * ONE);
    assert_eq!(ratio(1, 4).sqrt().raw, ONE / 2);
    assert_eq!(whole(0).sqrt().raw, 0);
    assert_eq!(whole(-4).sqrt().raw, 0);
    let root = whole(2).sqrt().raw as i128;
    let target = 2 * (ONE as i128) * (ONE as i128);
    assert!(root * root <= target);
    assert!((root + 1) * (root + 1) > target);
    assert_eq!(root, 6074000999);
    let top = Fixed { raw: i64::MAX }.sqrt().raw as i128;
    let target = (i64::MAX as i128) * (ONE as i128);
    assert!(top * top <= target && (top + 1) * (top + 1) > target);
}

#[test]
fn fixed_order() {
    assert!(whole(1).lt(whole(2)));
    assert!(!whole(2).lt(whole(2)));
    assert!(!Fixed::zero().lt(Fixed::zero()));
    assert!(whole(2).same(whole(2)));
    assert!(!whole(2).same(ratio(5, 2)));
    assert_eq!(whole(1).max(whole(2)).raw, 2 * ONE);
    assert_eq!(whole(1).min(whole(2)).raw, ONE);
    assert_eq!(whole(-1).max(whole(-2)).raw, -ONE);
}

#[test]
fn fixed_two_bodies_one_step() {
    let mut world = World::new(settings(4, false, false));
    world.add_particle(body(1, -1, 0));
    world.add_particle(body(1, 1, 0));
    world.update(ratio(1, 2), 1);
    // each is pulled towards the other with 4 * 1 * 1 / 4
    assert_eq!(world.particles[0].velocity.x.raw, ONE / 2);
    assert_eq!(world.particles[0].velocity.y.raw, 0);
    assert_eq!(world.particles[0].position.x.raw, -ONE + ONE / 4);
    assert_eq!(world.particles[1].velocity.x.raw, -ONE / 2);
    assert_eq!(world.particles[1].position.x.raw, ONE - ONE / 4);
    assert_eq!(world.particles[1].position.y.raw, 0);
}

#[test]
fn fixed_methods_agree_on_four_corners() {
    let corners = [(1, -1, -1), (1, 1, -1), (1, -1, 1), (1, 1, 1)];
    let mut exact = World::new(settings(8, false, false));
    let mut tree = World::new(settings(8, true, true));
    for &(m, x, y) in &corners {
        exact.add_particle(body(m, x, y));
        tree.add_particle(body(m, x, y));
    }
    let want = exact.calculate_forces_auto(1);
    let got = tree.calculate_forces_auto(3);
    assert_eq!(want.len(), 4);
    for i in 0..4 {
        assert_eq!(got[i].x.raw, want[i].x.raw);
        assert_eq!(got[i].y.raw, want[i].y.raw);
    }
    assert!(want[0].x.raw > 0 && want[0].y.raw > 0);
    assert_eq!(want[0].x.raw, -want[3].x.raw);
}

#[test]
fn fixed_tree_is_the_same_on_every_run() {
    let mut first = Quadtree::new(v(whole(0), whole(0)), v(whole(8), whole(8)));
    let mut second = Quadtree::new(v(whole(0), whole(0)), v(whole(8), whole(8)));
    for &(x, y, m) in &[(1, 1, 3), (7, 1, 2), (1, 2, 5), (6, 6, 1), (1, 1, 4)] {
        first.insert(v(whole(x), whole(y)), whole(m), 0);
        second.insert(v(whole(x), whole(y)), whole(m), 0);
    }
    assert_eq!(first.nodes.len(), second.nodes.len());
    assert_eq!(first.nodes[0].mass.raw, 15 * ONE);
    for i in 0..first.nodes.len() {
        assert_eq!(first.nodes[i].mass.raw, second.nodes[i].mass.raw);
        assert_eq!(first.nodes[i].position.x.raw, second.nodes[i].position.x.raw);
        assert_eq!(first.nodes[i].children, second.nodes[i].children);
    }
}
