//! What holds of the spatial tree: insertion keeps its shape and the
//! aggregates of its cells, leaves hold single bodies, and a tree that is
//! never cut short sums its leaves.
use vstd::prelude::*;
use crate::scalar::Scalar;
use crate::vector::Vector2;
use crate::world::{WorldSettings, point_gravity_spec};
use crate::quadtree::{
    QuadtreeNode, MAX_DEPTH, aggregated, child_at, children_gravity_spec, consistent, extends,
    insert_spec, lemma_split_children, mass_fold, refresh_spec, room, shape, spans_quadrant,
    split_spec, splits_left, store_spec, tree_gravity_spec, weight_fold,
};

verus! {

/// Two arrays of one length whose cells agree in everything but the point
/// mass they hold have the same shape.
pub proof fn lemma_repaint_shape<S: Scalar>(before: Seq<QuadtreeNode<S>>, after: Seq<QuadtreeNode<S>>)
    requires
        shape(before),
        before.len() == after.len(),
        forall|i: int|
            0 <= i < before.len() ==> {
                &&& (#[trigger] after[i]).children == before[i].children
                &&& after[i].depth == before[i].depth
                &&& after[i].min == before[i].min
                &&& after[i].max == before[i].max
            },
    ensures
        shape(after),
        extends(before, after),
{
    assert forall|i: int, k: int|
        0 <= i < after.len() && 0 <= k < 4 && after[i].children is Some implies i < (#[trigger] child_at(
        after,
        i,
        k,
    )) < after.len() && after[child_at(after, i, k)].depth == after[i].depth + 1 by {
        assert(child_at(after, i, k) == child_at(before, i, k));
    }
    assert forall|i: int, k: int|
        0 <= i < after.len() && 0 <= k < 4 && after[i].children is Some implies #[trigger] spans_quadrant(
        after,
        i,
        k,
    ) by {
        assert(child_at(after, i, k) == child_at(before, i, k));
        assert(spans_quadrant(before, i, k));
    }
    assert forall|i: int, k: int, j: int, l: int|
        0 <= i < after.len() && 0 <= j < after.len() && 0 <= k < 4 && 0 <= l < 4
            && after[i].children is Some && after[j].children is Some && (#[trigger] child_at(
            after,
            i,
            k,
        )) == (#[trigger] child_at(after, j, l)) implies i == j && k == l by {
        assert(child_at(after, i, k) == child_at(before, i, k));
        assert(child_at(after, j, l) == child_at(before, j, l));
    }
}

/// Continuation is transitive.
pub proof fn lemma_extends_trans<S: Scalar>(
    a: Seq<QuadtreeNode<S>>,
    b: Seq<QuadtreeNode<S>>,
    c: Seq<QuadtreeNode<S>>,
)
    requires
        extends(a, b),
        extends(b, c),
    ensures
        extends(a, c),
{
    assert forall|i: int, k: int|
        0 <= i < c.len() && 0 <= k < 4 && c[i].children is Some && (i >= a.len()
            || a[i].children is None) implies (#[trigger] child_at(c, i, k)) >= a.len() by {
        if i < b.len() && b[i].children is Some {
            assert(child_at(c, i, k) == child_at(b, i, k));
        }
    }
}

/// Splitting a leaf above `MAX_DEPTH` keeps the tree's shape.
pub proof fn lemma_split_shape<S: Scalar>(nodes: Seq<QuadtreeNode<S>>, i: int)
    requires
        shape(nodes),
        0 <= i < nodes.len(),
        nodes[i].children is None,
        nodes[i].depth < MAX_DEPTH,
        nodes.len() + 4 <= usize::MAX,
    ensures
        shape(split_spec(nodes, i)),
        extends(nodes, split_spec(nodes, i)),
{
    let after = split_spec(nodes, i);
    lemma_split_children(nodes, i);
    assert forall|j: int| 0 <= j < after.len() implies (#[trigger] after[j]).depth <= MAX_DEPTH by {
        if j >= nodes.len() {
            assert(after[nodes.len() + (j - nodes.len())] == nodes[i].quadrant_spec(
                j - nodes.len(),
            ));
        }
    }
    assert forall|j: int, k: int|
        0 <= j < after.len() && 0 <= k < 4 && after[j].children is Some implies j < (#[trigger] child_at(
        after,
        j,
        k,
    )) < after.len() && after[child_at(after, j, k)].depth == after[j].depth + 1 by {
        if j >= nodes.len() {
            assert(after[nodes.len() + (j - nodes.len())] == nodes[i].quadrant_spec(
                j - nodes.len(),
            ));
        } else if j != i {
            assert(child_at(after, j, k) == child_at(nodes, j, k));
        } else {
            assert(after[nodes.len() + k] == nodes[i].quadrant_spec(k));
        }
    }
    assert forall|j: int, k: int|
        0 <= j < after.len() && 0 <= k < 4 && after[j].children is Some implies #[trigger] spans_quadrant(
        after,
        j,
        k,
    ) by {
        if j >= nodes.len() {
            assert(after[nodes.len() + (j - nodes.len())] == nodes[i].quadrant_spec(
                j - nodes.len(),
            ));
        } else if j != i {
            assert(child_at(after, j, k) == child_at(nodes, j, k));
            assert(spans_quadrant(nodes, j, k));
        } else {
            assert(after[nodes.len() + k] == nodes[i].quadrant_spec(k));
        }
    }
    assert forall|j: int, k: int, h: int, l: int|
        0 <= j < after.len() && 0 <= h < after.len() && 0 <= k < 4 && 0 <= l < 4
            && after[j].children is Some && after[h].children is Some && (#[trigger] child_at(
            after,
            j,
            k,
        )) == (#[trigger] child_at(after, h, l)) implies j == h && k == l by {
        if j >= nodes.len() {
            assert(after[nodes.len() + (j - nodes.len())] == nodes[i].quadrant_spec(
                j - nodes.len(),
            ));
        }
        if h >= nodes.len() {
            assert(after[nodes.len() + (h - nodes.len())] == nodes[i].quadrant_spec(
                h - nodes.len(),
            ));
        }
        if j != i {
            assert(child_at(after, j, k) == child_at(nodes, j, k));
        }
        if h != i {
            assert(child_at(after, h, l) == child_at(nodes, h, l));
        }
    }
}

/// Insertion keeps the tree's shape, continues the old array, and adds at
/// most four cells for each split that is left.
pub proof fn lemma_insert_shape<S: Scalar>(
    nodes: Seq<QuadtreeNode<S>>,
    position: Vector2<S>,
    mass: S,
    node: int,
)
    requires
        shape(nodes),
        0 <= node < nodes.len(),
        room(nodes, node),
    ensures
        shape(insert_spec(nodes, position, mass, node)),
        extends(nodes, insert_spec(nodes, position, mass, node)),
        insert_spec(nodes, position, mass, node).len() <= nodes.len() + 4 * splits_left(
            nodes,
            node,
        ),
    decreases MAX_DEPTH - nodes[node].depth,
{
    let cell = nodes[node];
    let after = insert_spec(nodes, position, mass, node);
    if cell.children is Some {
        let child = child_at(nodes, node, cell.which_child_spec(position));
        lemma_insert_shape(nodes, position, mass, child);
        let below = insert_spec(nodes, position, mass, child);
        lemma_repaint_shape(below, after);
        lemma_extends_trans(nodes, below, after);
    } else if cell.occupied() {
        if cell.depth == MAX_DEPTH {
            lemma_repaint_shape(nodes, after);
        } else {
            let split = split_spec(nodes, node);
            lemma_split_children(nodes, node);
            lemma_split_shape(nodes, node);
            let held = child_at(split, node, cell.which_child_spec(cell.position));
            let stored = store_spec(split, held, cell.position, cell.mass);
            lemma_repaint_shape(split, stored);
            let settled = refresh_spec(stored, node);
            lemma_repaint_shape(stored, settled);
            lemma_extends_trans(nodes, split, stored);
            lemma_extends_trans(nodes, stored, settled);
            let next = child_at(settled, node, cell.which_child_spec(position));
            lemma_insert_shape(settled, position, mass, next);
            let below = insert_spec(settled, position, mass, next);
            lemma_repaint_shape(below, after);
            lemma_extends_trans(nodes, settled, below);
            lemma_extends_trans(nodes, below, after);
        }
    } else {
        lemma_repaint_shape(nodes, after);
    }
}

/// Every cell outside `stale` is consistent with its children.
pub open spec fn consistent_outside<S: Scalar>(nodes: Seq<QuadtreeNode<S>>, stale: Set<int>) -> bool {
    forall|i: int| 0 <= i < nodes.len() && !stale.contains(i) ==> #[trigger] consistent(nodes, i)
}

/// Every parent of `node` is in `stale`.
pub open spec fn parents_within<S: Scalar>(nodes: Seq<QuadtreeNode<S>>, node: int, stale: Set<int>) -> bool {
    forall|i: int, k: int|
        0 <= i < nodes.len() && 0 <= k < 4 && nodes[i].children is Some && (#[trigger] child_at(
            nodes,
            i,
            k,
        )) == node ==> stale.contains(i)
}

/// A cell that agrees in two arrays, as its children do, is consistent in
/// both or in neither.
pub proof fn lemma_consistent_frame<S: Scalar>(
    a: Seq<QuadtreeNode<S>>,
    b: Seq<QuadtreeNode<S>>,
    i: int,
)
    requires
        shape(a),
        0 <= i < a.len() <= b.len(),
        b[i] == a[i],
        forall|k: int|
            0 <= k < 4 && a[i].children is Some ==> b[#[trigger] child_at(a, i, k)] == a[child_at(
                a,
                i,
                k,
            )],
    ensures
        consistent(a, i) == consistent(b, i),
{
    reveal_with_fuel(mass_fold, 5);
    reveal_with_fuel(weight_fold, 5);
    if a[i].children is Some {
        assert(child_at(b, i, 0) == child_at(a, i, 0));
        assert(child_at(b, i, 1) == child_at(a, i, 1));
        assert(child_at(b, i, 2) == child_at(a, i, 2));
        assert(child_at(b, i, 3) == child_at(a, i, 3));
    }
}

/// A cell just recomputed is consistent with its children.
pub proof fn lemma_refresh_consistent<S: Scalar>(nodes: Seq<QuadtreeNode<S>>, i: int)
    requires
        shape(nodes),
        0 <= i < nodes.len(),
        nodes[i].children is Some,
    ensures
        consistent(refresh_spec(nodes, i), i),
{
    reveal_with_fuel(mass_fold, 5);
    reveal_with_fuel(weight_fold, 5);
    let after = refresh_spec(nodes, i);
    assert(child_at(after, i, 0) == child_at(nodes, i, 0));
    assert(child_at(after, i, 1) == child_at(nodes, i, 1));
    assert(child_at(after, i, 2) == child_at(nodes, i, 2));
    assert(child_at(after, i, 3) == child_at(nodes, i, 3));
}

/// Where only cell `node` changes and only leaves are appended, the cells
/// that are neither `node` nor one of its parents stay consistent.
pub proof fn lemma_consistent_carry<S: Scalar>(
    a: Seq<QuadtreeNode<S>>,
    b: Seq<QuadtreeNode<S>>,
    node: int,
    stale: Set<int>,
)
    requires
        shape(a),
        0 <= node < a.len() <= b.len(),
        forall|j: int| 0 <= j < a.len() && j != node ==> #[trigger] b[j] == a[j],
        forall|j: int| a.len() <= j < b.len() ==> (#[trigger] b[j]).children is None,
        parents_within(a, node, stale),
        consistent_outside(a, stale.insert(node)),
    ensures
        consistent_outside(b, stale.insert(node)),
{
    assert forall|i: int|
        0 <= i < b.len() && !stale.insert(node).contains(i) implies #[trigger] consistent(
        b,
        i,
    ) by {
        if i < a.len() {
            assert(consistent(a, i));
            assert(b[i] == a[i]);
            assert forall|k: int| 0 <= k < 4 && a[i].children is Some implies b[#[trigger] child_at(
                a,
                i,
                k,
            )] == a[child_at(a, i, k)] by {
                assert(child_at(a, i, k) != node);
            }
            lemma_consistent_frame(a, b, i);
        } else {
            assert(b[i].children is None);
        }
    }
}

/// The parents of an old cell are the same in an array that continues the old one.
pub proof fn lemma_parents_carry<S: Scalar>(
    a: Seq<QuadtreeNode<S>>,
    b: Seq<QuadtreeNode<S>>,
    node: int,
    stale: Set<int>,
)
    requires
        extends(a, b),
        0 <= node < a.len(),
        parents_within(a, node, stale),
    ensures
        parents_within(b, node, stale),
{
    assert forall|i: int, k: int|
        0 <= i < b.len() && 0 <= k < 4 && b[i].children is Some && (#[trigger] child_at(b, i, k))
            == node implies stale.contains(i) by {
        if i < a.len() && a[i].children is Some {
            assert(b[i].children == a[i].children);
            assert(child_at(a, i, k) == node);
        }
    }
}

/// Insertion below `node` leaves every cell consistent that was so before,
/// and makes `node` consistent, whether or not it was: only the parents of
/// `node`, whose aggregates the caller has yet to recompute, are left out.
pub proof fn lemma_insert_consistent<S: Scalar>(
    nodes: Seq<QuadtreeNode<S>>,
    position: Vector2<S>,
    mass: S,
    node: int,
    stale: Set<int>,
)
    requires
        shape(nodes),
        0 <= node < nodes.len(),
        room(nodes, node),
        parents_within(nodes, node, stale),
        consistent_outside(nodes, stale.insert(node)),
    ensures
        consistent_outside(insert_spec(nodes, position, mass, node), stale),
    decreases MAX_DEPTH - nodes[node].depth,
{
    let cell = nodes[node];
    let after = insert_spec(nodes, position, mass, node);
    lemma_insert_shape(nodes, position, mass, node);
    if cell.children is Some {
        let child = child_at(nodes, node, cell.which_child_spec(position));
        let inner = stale.insert(node);
        assert(parents_within(nodes, child, inner));
        assert(consistent_outside(nodes, inner.insert(child)));
        lemma_insert_consistent(nodes, position, mass, child, inner);
        lemma_insert_shape(nodes, position, mass, child);
        let below = insert_spec(nodes, position, mass, child);
        lemma_parents_carry(nodes, below, node, stale);
        lemma_consistent_carry(below, after, node, stale);
        lemma_refresh_consistent(below, node);
    } else if cell.occupied() {
        if cell.depth == MAX_DEPTH {
            lemma_consistent_carry(nodes, after, node, stale);
        } else {
            let split = split_spec(nodes, node);
            lemma_split_children(nodes, node);
            lemma_split_shape(nodes, node);
            let held = child_at(split, node, cell.which_child_spec(cell.position));
            let stored = store_spec(split, held, cell.position, cell.mass);
            lemma_repaint_shape(split, stored);
            let settled = refresh_spec(stored, node);
            lemma_repaint_shape(stored, settled);
            assert forall|j: int| nodes.len() <= j < settled.len() implies (#[trigger] settled[j]).children is None by {
                let k = j - nodes.len();
                assert(split[nodes.len() + k] == cell.quadrant_spec(k));
            }
            lemma_consistent_carry(nodes, settled, node, stale);
            let next = child_at(settled, node, cell.which_child_spec(position));
            let inner = stale.insert(node);
            assert(child_at(settled, node, cell.which_child_spec(position)) == next);
            assert(parents_within(settled, next, inner));
            assert(consistent_outside(settled, inner.insert(next)));
            lemma_insert_consistent(settled, position, mass, next, inner);
            lemma_insert_shape(settled, position, mass, next);
            let below = insert_spec(settled, position, mass, next);
            lemma_parents_carry(nodes, below, node, stale);
            lemma_consistent_carry(below, after, node, stale);
            lemma_refresh_consistent(below, node);
        }
    } else {
        lemma_consistent_carry(nodes, after, node, stale);
    }
}

/// Inserting a point at the root of a tree whose cells are all consistent
/// with their children leaves them all consistent.
pub proof fn lemma_insert_keeps_aggregated<S: Scalar>(
    nodes: Seq<QuadtreeNode<S>>,
    position: Vector2<S>,
    mass: S,
)
    requires
        shape(nodes),
        aggregated(nodes),
        room(nodes, 0),
    ensures
        shape(insert_spec(nodes, position, mass, 0)),
        aggregated(insert_spec(nodes, position, mass, 0)),
{
    lemma_insert_shape(nodes, position, mass, 0);
    lemma_insert_consistent(nodes, position, mass, 0, Set::<int>::empty());
}

/// Every occupied leaf above `MAX_DEPTH` holds the position and the mass
/// of one of `bodies`: only at `MAX_DEPTH` are bodies merged.
pub open spec fn leaves_hold<S: Scalar>(
    nodes: Seq<QuadtreeNode<S>>,
    bodies: Set<(Vector2<S>, S)>,
) -> bool {
    forall|i: int|
        0 <= i < nodes.len() && (#[trigger] nodes[i]).children is None && nodes[i].occupied()
            && nodes[i].depth < MAX_DEPTH ==> bodies.contains((nodes[i].position, nodes[i].mass))
}

/// After an insertion every occupied leaf above `MAX_DEPTH` holds one of
/// the bodies that the leaves held before, or the body inserted.
pub proof fn lemma_insert_leaves_hold<S: Scalar>(
    nodes: Seq<QuadtreeNode<S>>,
    position: Vector2<S>,
    mass: S,
    node: int,
    bodies: Set<(Vector2<S>, S)>,
)
    requires
        shape(nodes),
        0 <= node < nodes.len(),
        room(nodes, node),
        leaves_hold(nodes, bodies),
    ensures
        leaves_hold(insert_spec(nodes, position, mass, node), bodies.insert((position, mass))),
    decreases MAX_DEPTH - nodes[node].depth,
{
    let cell = nodes[node];
    let after = insert_spec(nodes, position, mass, node);
    let more = bodies.insert((position, mass));
    if cell.children is Some {
        let child = child_at(nodes, node, cell.which_child_spec(position));
        lemma_insert_leaves_hold(nodes, position, mass, child, bodies);
        lemma_insert_shape(nodes, position, mass, child);
        let below = insert_spec(nodes, position, mass, child);
        assert forall|i: int|
            0 <= i < after.len() && (#[trigger] after[i]).children is None && after[i].occupied()
                && after[i].depth < MAX_DEPTH implies more.contains(
            (after[i].position, after[i].mass),
        ) by {
            assert(after[i] == below[i]);
        }
    } else if cell.occupied() {
        if cell.depth == MAX_DEPTH {
            assert forall|i: int|
                0 <= i < after.len() && (#[trigger] after[i]).children is None
                    && after[i].occupied() && after[i].depth < MAX_DEPTH implies more.contains(
                (after[i].position, after[i].mass),
            ) by {
                assert(after[i] == nodes[i]);
            }
        } else {
            S::zero_is_not_positive();
            let split = split_spec(nodes, node);
            lemma_split_children(nodes, node);
            lemma_split_shape(nodes, node);
            let held = child_at(split, node, cell.which_child_spec(cell.position));
            let stored = store_spec(split, held, cell.position, cell.mass);
            lemma_repaint_shape(split, stored);
            let settled = refresh_spec(stored, node);
            lemma_repaint_shape(stored, settled);
            assert(bodies.contains((cell.position, cell.mass)));
            assert forall|i: int|
                0 <= i < settled.len() && (#[trigger] settled[i]).children is None
                    && settled[i].occupied() && settled[i].depth < MAX_DEPTH implies bodies.contains(
                (settled[i].position, settled[i].mass),
            ) by {
                if i >= nodes.len() {
                    let k = i - nodes.len();
                    assert(split[nodes.len() + k] == cell.quadrant_spec(k));
                } else {
                    assert(settled[i] == nodes[i]);
                }
            }
            let next = child_at(settled, node, cell.which_child_spec(position));
            lemma_insert_leaves_hold(settled, position, mass, next, bodies);
            lemma_insert_shape(settled, position, mass, next);
            let below = insert_spec(settled, position, mass, next);
            assert forall|i: int|
                0 <= i < after.len() && (#[trigger] after[i]).children is None
                    && after[i].occupied() && after[i].depth < MAX_DEPTH implies more.contains(
                (after[i].position, after[i].mass),
            ) by {
                assert(after[i] == below[i]);
            }
        }
    } else {
        assert forall|i: int|
            0 <= i < after.len() && (#[trigger] after[i]).children is None && after[i].occupied()
                && after[i].depth < MAX_DEPTH implies more.contains(
            (after[i].position, after[i].mass),
        ) by {
            if i != node {
                assert(after[i] == nodes[i]);
            }
        }
    }
}

/// The field at `position` of the leaves below cell `node`, each leaf that
/// does not contain `position` counted as one point mass, added up quadrant
/// by quadrant in the order of the tree.
pub open spec fn leaves_gravity_spec<S: Scalar>(
    nodes: Seq<QuadtreeNode<S>>,
    settings: WorldSettings<S>,
    position: Vector2<S>,
    node: int,
) -> Vector2<S>
    decreases nodes.len() - node, 5int,
    when shape(nodes) && 0 <= node < nodes.len()
{
    let cell = nodes[node];
    if cell.children is Some {
        leaves_gravity_fold(nodes, settings, position, node, 4)
    } else if cell.inside_spec(position) {
        Vector2::zero_spec()
    } else {
        point_gravity_spec(settings, cell.position, cell.mass, position)
    }
}

/// The fields of the leaves below the first `k` children of cell `node`,
/// added up in order from the zero vector.
pub open spec fn leaves_gravity_fold<S: Scalar>(
    nodes: Seq<QuadtreeNode<S>>,
    settings: WorldSettings<S>,
    position: Vector2<S>,
    node: int,
    k: int,
) -> Vector2<S>
    decreases nodes.len() - node, k,
    when shape(nodes) && 0 <= node < nodes.len() && nodes[node].children is Some && 0 <= k <= 4
{
    if k == 0 {
        Vector2::zero_spec()
    } else {
        leaves_gravity_fold(nodes, settings, position, node, k - 1).add_spec(
            leaves_gravity_spec(nodes, settings, position, child_at(nodes, node, k - 1)),
        )
    }
}

/// Where the opening angle is so small that no cell is far away from
/// `position`, the tree's field is the sum of the fields of its leaves: no
/// aggregate stands for the bodies below it.
pub proof fn lemma_closed_tree_sums_leaves<S: Scalar>(
    nodes: Seq<QuadtreeNode<S>>,
    settings: WorldSettings<S>,
    position: Vector2<S>,
    node: int,
)
    requires
        shape(nodes),
        0 <= node < nodes.len(),
        forall|i: int|
            0 <= i < nodes.len() ==> !(#[trigger] nodes[i]).far_away_spec(
                position,
                settings.accuracy,
            ),
    ensures
        tree_gravity_spec(nodes, settings, position, node) == leaves_gravity_spec(
            nodes,
            settings,
            position,
            node,
        ),
    decreases nodes.len() - node, 5int,
{
    if nodes[node].children is Some {
        lemma_closed_children_sum_leaves(nodes, settings, position, node, 4);
    }
}

/// The partial sums over the children's fields, under the same condition.
pub proof fn lemma_closed_children_sum_leaves<S: Scalar>(
    nodes: Seq<QuadtreeNode<S>>,
    settings: WorldSettings<S>,
    position: Vector2<S>,
    node: int,
    k: int,
)
    requires
        shape(nodes),
        0 <= node < nodes.len(),
        nodes[node].children is Some,
        0 <= k <= 4,
        forall|i: int|
            0 <= i < nodes.len() ==> !(#[trigger] nodes[i]).far_away_spec(
                position,
                settings.accuracy,
            ),
    ensures
        children_gravity_spec(nodes, settings, position, node, k) == leaves_gravity_fold(
            nodes,
            settings,
            position,
            node,
            k,
        ),
    decreases nodes.len() - node, k,
{
    if k > 0 {
        lemma_closed_children_sum_leaves(nodes, settings, position, node, k - 1);
        lemma_closed_tree_sums_leaves(nodes, settings, position, child_at(nodes, node, k - 1));
    }
}

/// The masses held by the leaves below cell `node`, added up quadrant by
/// quadrant in the order in which the cells add up their children.
pub open spec fn leaf_mass_spec<S: Scalar>(nodes: Seq<QuadtreeNode<S>>, node: int) -> S
    decreases nodes.len() - node, 5int,
    when shape(nodes) && 0 <= node < nodes.len()
{
    if nodes[node].children is None {
        nodes[node].mass
    } else {
        leaf_mass_fold(nodes, node, 4)
    }
}

/// The leaf masses below the first `k` children of cell `node`, added up in
/// order from zero.
pub open spec fn leaf_mass_fold<S: Scalar>(nodes: Seq<QuadtreeNode<S>>, node: int, k: int) -> S
    decreases nodes.len() - node, k,
    when shape(nodes) && 0 <= node < nodes.len() && nodes[node].children is Some && 0 <= k <= 4
{
    if k == 0 {
        S::zero_spec()
    } else {
        leaf_mass_fold(nodes, node, k - 1).add_spec(
            leaf_mass_spec(nodes, child_at(nodes, node, k - 1)),
        )
    }
}

/// In a tree whose cells are all consistent with their children, the mass
/// of every cell is the sum of the masses that the leaves below it hold.
pub proof fn lemma_mass_is_leaf_sum<S: Scalar>(nodes: Seq<QuadtreeNode<S>>, node: int)
    requires
        shape(nodes),
        aggregated(nodes),
        0 <= node < nodes.len(),
    ensures
        nodes[node].mass == leaf_mass_spec(nodes, node),
    decreases nodes.len() - node, 5int,
{
    if nodes[node].children is Some {
        assert(consistent(nodes, node));
        lemma_mass_fold_is_leaf_fold(nodes, node, 4);
    }
}

/// The partial sums over the children's masses are those over the leaves
/// below them.
pub proof fn lemma_mass_fold_is_leaf_fold<S: Scalar>(nodes: Seq<QuadtreeNode<S>>, node: int, k: int)
    requires
        shape(nodes),
        aggregated(nodes),
        0 <= node < nodes.len(),
        nodes[node].children is Some,
        0 <= k <= 4,
    ensures
        mass_fold(nodes, node, k) == leaf_mass_fold(nodes, node, k),
    decreases nodes.len() - node, k,
{
    if k > 0 {
        lemma_mass_fold_is_leaf_fold(nodes, node, k - 1);
        lemma_mass_is_leaf_sum(nodes, child_at(nodes, node, k - 1));
    }
}

} // verus!
