//! The spatial tree: a region split into quadrants, each cell carrying the
//! total mass of the bodies inside it and their mass-weighted centre.
//!
//! The cells live in one growable array and name their children by index.
//! The array as a sequence is the model that the contracts speak of.
use vstd::prelude::*;
use crate::scalar::Scalar;
use crate::vector::Vector2;
use crate::world::{WorldSettings, point_gravity, point_gravity_spec};
use crate::tree_laws::{lemma_insert_keeps_aggregated, lemma_insert_shape, lemma_split_shape};

verus! {

/// A leaf this deep is never split: further bodies are merged into it.
pub const MAX_DEPTH: usize = 32;

/// A cell of the tree: a box, the total mass of the bodies inside it and
/// their centre of mass.
pub struct QuadtreeNode<S> {
    pub min: Vector2<S>,
    pub max: Vector2<S>,
    /// The four quadrants, in the order low-x low-y, high-x low-y,
    /// low-x high-y, high-x high-y.
    pub children: Option<[usize; 4]>,
    pub depth: usize,
    pub position: Vector2<S>,
    pub mass: S,
}

impl<S: Scalar> QuadtreeNode<S> {
    /// An empty leaf over the box from `min` to `max`.
    pub open spec fn new_spec(min: Vector2<S>, max: Vector2<S>, depth: usize) -> Self {
        QuadtreeNode {
            min,
            max,
            children: None,
            depth,
            position: Vector2::zero_spec(),
            mass: S::zero_spec(),
        }
    }

    pub fn new(min: Vector2<S>, max: Vector2<S>, depth: usize) -> (node: Self)
        ensures
            node == Self::new_spec(min, max, depth),
    {
        QuadtreeNode { min, max, children: None, depth, position: Vector2::zero(), mass: S::zero() }
    }

    pub open spec fn mid_x_spec(self) -> S {
        self.min.x.add_spec(self.max.x).div_spec(S::two_spec())
    }

    pub open spec fn mid_y_spec(self) -> S {
        self.min.y.add_spec(self.max.y).div_spec(S::two_spec())
    }

    /// The quadrant of `position`: one is added where it lies strictly above
    /// the middle in x, two where it lies strictly above the middle in y.
    pub open spec fn which_child_spec(self, position: Vector2<S>) -> int {
        (if self.mid_x_spec().lt_spec(position.x) {
            1int
        } else {
            0int
        }) + (if self.mid_y_spec().lt_spec(position.y) {
            2int
        } else {
            0int
        })
    }

    pub fn which_child(&self, position: Vector2<S>) -> (i: usize)
        ensures
            i == self.which_child_spec(position),
            i < 4,
    {
        let mut i: usize = 0;
        if self.min.x.add(self.max.x).div(S::two()).lt(position.x) {
            i += 1;
        }
        if self.min.y.add(self.max.y).div(S::two()).lt(position.y) {
            i += 2;
        }
        i
    }

    /// Neither coordinate lies strictly below the lower or strictly above the
    /// upper bound.
    pub open spec fn inside_spec(self, position: Vector2<S>) -> bool {
        &&& !position.x.lt_spec(self.min.x)
        &&& !self.max.x.lt_spec(position.x)
        &&& !position.y.lt_spec(self.min.y)
        &&& !self.max.y.lt_spec(position.y)
    }

    pub fn inside(&self, position: Vector2<S>) -> (r: bool)
        ensures
            r == self.inside_spec(position),
    {
        if position.x.lt(self.min.x) {
            return false;
        }
        if self.max.x.lt(position.x) {
            return false;
        }
        if position.y.lt(self.min.y) {
            return false;
        }
        if self.max.y.lt(position.y) {
            return false;
        }
        true
    }

    /// The larger of the cell's width and height.
    pub open spec fn size_spec(self) -> S {
        self.max.x.sub_spec(self.min.x).max_spec(self.max.y.sub_spec(self.min.y))
    }

    /// Seen from `position` the cell is small: its size over the distance
    /// from `position` to its centre of mass lies strictly below `accuracy`.
    pub open spec fn far_away_spec(self, position: Vector2<S>, accuracy: S) -> bool {
        self.size_spec().div_spec(position.sub_spec(self.position).abs_spec()).lt_spec(accuracy)
    }

    pub fn far_away(&self, position: Vector2<S>, accuracy: S) -> (r: bool)
        ensures
            r == self.far_away_spec(position, accuracy),
    {
        let distance = position.sub(self.position).abs();
        let width = self.max.x.sub(self.min.x);
        let height = self.max.y.sub(self.min.y);
        let size = width.max(height);
        size.div(distance).lt(accuracy)
    }

    /// The cell holds mass: zero lies strictly below its mass.
    pub open spec fn occupied(self) -> bool {
        S::zero_spec().lt_spec(self.mass)
    }

    /// The empty leaf over quadrant `k` of this cell: the box bisected on
    /// both axes, one level further down.
    pub open spec fn quadrant_spec(self, k: int) -> Self {
        QuadtreeNode {
            min: Vector2 {
                x: if k % 2 == 0 {
                    self.min.x
                } else {
                    self.mid_x_spec()
                },
                y: if k / 2 == 0 {
                    self.min.y
                } else {
                    self.mid_y_spec()
                },
            },
            max: Vector2 {
                x: if k % 2 == 0 {
                    self.mid_x_spec()
                } else {
                    self.max.x
                },
                y: if k / 2 == 0 {
                    self.mid_y_spec()
                } else {
                    self.max.y
                },
            },
            children: None,
            depth: (self.depth + 1) as usize,
            position: Vector2::zero_spec(),
            mass: S::zero_spec(),
        }
    }
}

/// The index of child `k` of cell `i`.
pub open spec fn child_at<S>(nodes: Seq<QuadtreeNode<S>>, i: int, k: int) -> int {
    nodes[i].children.unwrap()[k] as int
}

/// Child `k` of cell `i` spans quadrant `k` of the cell's box.
pub open spec fn spans_quadrant<S: Scalar>(nodes: Seq<QuadtreeNode<S>>, i: int, k: int) -> bool {
    &&& nodes[child_at(nodes, i, k)].min == nodes[i].quadrant_spec(k).min
    &&& nodes[child_at(nodes, i, k)].max == nodes[i].quadrant_spec(k).max
}

/// The cells form a tree: every child lies behind its parent in the array,
/// one level deeper and over its quadrant of the parent's box, no cell has
/// two parents, and no cell lies deeper than `MAX_DEPTH`.
pub open spec fn shape<S: Scalar>(nodes: Seq<QuadtreeNode<S>>) -> bool {
    &&& nodes.len() >= 1
    &&& forall|i: int, k: int|
        0 <= i < nodes.len() && 0 <= k < 4 && nodes[i].children is Some
            ==> #[trigger] spans_quadrant(nodes, i, k)
    &&& forall|i: int| 0 <= i < nodes.len() ==> (#[trigger] nodes[i]).depth <= MAX_DEPTH
    &&& forall|i: int, k: int|
        0 <= i < nodes.len() && 0 <= k < 4 && nodes[i].children is Some ==> i < (#[trigger] child_at(
            nodes,
            i,
            k,
        )) < nodes.len()
    &&& forall|i: int, k: int|
        0 <= i < nodes.len() && 0 <= k < 4 && nodes[i].children is Some ==> nodes[#[trigger] child_at(
            nodes,
            i,
            k,
        )].depth == nodes[i].depth + 1
    &&& forall|i: int, k: int, j: int, l: int|
        0 <= i < nodes.len() && 0 <= j < nodes.len() && 0 <= k < 4 && 0 <= l < 4
            && nodes[i].children is Some && nodes[j].children is Some && (#[trigger] child_at(
            nodes,
            i,
            k,
        )) == (#[trigger] child_at(nodes, j, l)) ==> i == j && k == l
}

/// `after` continues `before`: no cell is lost, every old cell keeps its
/// box, its depth and, once it has them, its children, and the children
/// that a cell has gained lie behind the end of `before`.
pub open spec fn extends<S: Scalar>(before: Seq<QuadtreeNode<S>>, after: Seq<QuadtreeNode<S>>) -> bool {
    &&& before.len() <= after.len()
    &&& forall|i: int|
        0 <= i < before.len() ==> {
            &&& (#[trigger] after[i]).min == before[i].min
            &&& after[i].max == before[i].max
            &&& after[i].depth == before[i].depth
            &&& (before[i].children is Some ==> after[i].children == before[i].children)
        }
    &&& forall|i: int, k: int|
        0 <= i < after.len() && 0 <= k < 4 && after[i].children is Some && (i >= before.len()
            || before[i].children is None) ==> (#[trigger] child_at(after, i, k)) >= before.len()
}

/// The masses of the first `k` children of cell `i`, added up in order from zero.
pub open spec fn mass_fold<S: Scalar>(nodes: Seq<QuadtreeNode<S>>, i: int, k: int) -> S
    decreases k,
{
    if k <= 0 {
        S::zero_spec()
    } else {
        mass_fold(nodes, i, k - 1).add_spec(nodes[child_at(nodes, i, k - 1)].mass)
    }
}

/// The positions of the first `k` children of cell `i`, each scaled by its
/// mass, added up in order from the zero vector.
pub open spec fn weight_fold<S: Scalar>(nodes: Seq<QuadtreeNode<S>>, i: int, k: int) -> Vector2<S>
    decreases k,
{
    if k <= 0 {
        Vector2::zero_spec()
    } else {
        let child = nodes[child_at(nodes, i, k - 1)];
        weight_fold(nodes, i, k - 1).add_spec(child.position.mul_spec(child.mass))
    }
}

/// The mass of cell `i` is the sum of its four children's masses, and its
/// position their mass-weighted centre. Holds of every leaf.
pub open spec fn consistent<S: Scalar>(nodes: Seq<QuadtreeNode<S>>, i: int) -> bool {
    nodes[i].children is Some ==> {
        &&& nodes[i].mass == mass_fold(nodes, i, 4)
        &&& nodes[i].position == weight_fold(nodes, i, 4).div_spec(mass_fold(nodes, i, 4))
    }
}

/// Every cell is consistent with its children.
pub open spec fn aggregated<S: Scalar>(nodes: Seq<QuadtreeNode<S>>) -> bool {
    forall|i: int| 0 <= i < nodes.len() ==> #[trigger] consistent(nodes, i)
}

/// Cell `i` recomputed from its four children.
pub open spec fn refresh_spec<S: Scalar>(nodes: Seq<QuadtreeNode<S>>, i: int) -> Seq<
    QuadtreeNode<S>,
> {
    let mass = mass_fold(nodes, i, 4);
    nodes.update(
        i,
        QuadtreeNode { position: weight_fold(nodes, i, 4).div_spec(mass), mass, ..nodes[i] },
    )
}

/// Cell `i` holding one point mass.
pub open spec fn store_spec<S: Scalar>(
    nodes: Seq<QuadtreeNode<S>>,
    i: int,
    position: Vector2<S>,
    mass: S,
) -> Seq<QuadtreeNode<S>> {
    nodes.update(i, QuadtreeNode { position, mass, ..nodes[i] })
}

/// Leaf `i` given four empty children, appended to the array in quadrant order.
pub open spec fn split_spec<S: Scalar>(nodes: Seq<QuadtreeNode<S>>, i: int) -> Seq<
    QuadtreeNode<S>,
> {
    let base = nodes.len();
    let kids: [usize; 4] = [
        base as usize,
        (base + 1) as usize,
        (base + 2) as usize,
        (base + 3) as usize,
    ];
    nodes.push(nodes[i].quadrant_spec(0)).push(nodes[i].quadrant_spec(1)).push(
        nodes[i].quadrant_spec(2),
    ).push(nodes[i].quadrant_spec(3)).update(i, QuadtreeNode { children: Some(kids), ..nodes[i] })
}

/// The number of splits that an insertion below `node` can cause: one for
/// each level between the deepest cell it starts from and `MAX_DEPTH`.
pub open spec fn splits_left<S: Scalar>(nodes: Seq<QuadtreeNode<S>>, node: int) -> int {
    if nodes[node].children is Some {
        MAX_DEPTH - nodes[node].depth - 1
    } else {
        MAX_DEPTH - nodes[node].depth
    }
}

/// The array can take the cells that an insertion below `node` may add,
/// four for each split, without its length leaving `usize`.
pub open spec fn room<S: Scalar>(nodes: Seq<QuadtreeNode<S>>, node: int) -> bool {
    nodes.len() + 4 * splits_left(nodes, node) <= usize::MAX
}

/// After a split the children of the cell are the four cells appended last,
/// each an empty leaf over its quadrant.
pub proof fn lemma_split_children<S: Scalar>(nodes: Seq<QuadtreeNode<S>>, i: int)
    requires
        0 <= i < nodes.len(),
        nodes.len() + 4 <= usize::MAX,
    ensures
        split_spec(nodes, i).len() == nodes.len() + 4,
        split_spec(nodes, i)[i].children is Some,
        forall|k: int|
            0 <= k < 4 ==> #[trigger] child_at(split_spec(nodes, i), i, k) == nodes.len() + k,
        forall|k: int|
            0 <= k < 4 ==> #[trigger] split_spec(nodes, i)[nodes.len() + k]
                == nodes[i].quadrant_spec(k),
        forall|j: int| 0 <= j < nodes.len() && j != i ==> #[trigger] split_spec(nodes, i)[j] == nodes[j],
        split_spec(nodes, i)[i] == (QuadtreeNode {
            children: split_spec(nodes, i)[i].children,
            ..nodes[i]
        }),
{
}

/// The tree after a point mass has been inserted below cell `node`.
///
/// A cell with children hands the point to the quadrant it falls in and is
/// then recomputed from its children. An empty leaf stores the point. An
/// occupied leaf at `MAX_DEPTH` adds the mass to its own and keeps its
/// position. Any other occupied leaf is split: the point it held goes to its
/// quadrant, the new point is inserted below the cell, and the cell is
/// recomputed after each of the two.
pub open spec fn insert_spec<S: Scalar>(
    nodes: Seq<QuadtreeNode<S>>,
    position: Vector2<S>,
    mass: S,
    node: int,
) -> Seq<QuadtreeNode<S>>
    decreases MAX_DEPTH - nodes[node].depth,
    when shape(nodes) && 0 <= node < nodes.len() && room(nodes, node)
{
    let cell = nodes[node];
    if cell.children is Some {
        let child = child_at(nodes, node, cell.which_child_spec(position));
        refresh_spec(insert_spec(nodes, position, mass, child), node)
    } else if cell.occupied() {
        if cell.depth == MAX_DEPTH {
            nodes.update(node, QuadtreeNode { mass: cell.mass.add_spec(mass), ..cell })
        } else {
            let split = split_spec(nodes, node);
            let held = child_at(split, node, cell.which_child_spec(cell.position));
            let settled = refresh_spec(store_spec(split, held, cell.position, cell.mass), node);
            let next = child_at(settled, node, cell.which_child_spec(position));
            proof {
                lemma_split_children(nodes, node);
            }
            refresh_spec(insert_spec(settled, position, mass, next), node)
        }
    } else {
        store_spec(nodes, node, position, mass)
    }
}

/// The field at `position` of the bodies below cell `node`, as the tree
/// approximates it.
///
/// A leaf that contains `position` contributes nothing. A cell with
/// children that contains `position`, or is not far away, contributes the
/// sum of its children's fields. Any other cell counts as one point mass at
/// its centre of mass.
pub open spec fn tree_gravity_spec<S: Scalar>(
    nodes: Seq<QuadtreeNode<S>>,
    settings: WorldSettings<S>,
    position: Vector2<S>,
    node: int,
) -> Vector2<S>
    decreases nodes.len() - node, 5int,
    when shape(nodes) && 0 <= node < nodes.len()
{
    let cell = nodes[node];
    let inside = cell.inside_spec(position);
    if inside && cell.children is None {
        Vector2::zero_spec()
    } else if (inside || !cell.far_away_spec(position, settings.accuracy)) && cell.children is Some {
        children_gravity_spec(nodes, settings, position, node, 4)
    } else {
        point_gravity_spec(settings, cell.position, cell.mass, position)
    }
}

/// The fields of the first `k` children of cell `node`, added up in order
/// from the zero vector.
pub open spec fn children_gravity_spec<S: Scalar>(
    nodes: Seq<QuadtreeNode<S>>,
    settings: WorldSettings<S>,
    position: Vector2<S>,
    node: int,
    k: int,
) -> Vector2<S>
    decreases nodes.len() - node, k,
    when shape(nodes) && 0 <= node < nodes.len() && nodes[node].children is Some && 0 <= k <= 4
{
    if k == 0 {
        Vector2::zero_spec()
    } else {
        children_gravity_spec(nodes, settings, position, node, k - 1).add_spec(
            tree_gravity_spec(nodes, settings, position, child_at(nodes, node, k - 1)),
        )
    }
}

/// A tree of cells; cell 0 is the root.
pub struct Quadtree<S> {
    pub nodes: Vec<QuadtreeNode<S>>,
}

impl<S: Scalar> Quadtree<S> {
    /// The cells form a tree, and each is consistent with its children.
    pub open spec fn wf(&self) -> bool {
        shape(self.nodes@) && aggregated(self.nodes@)
    }

    /// A tree of one empty leaf over the box from `min` to `max`.
    pub fn new(min: Vector2<S>, max: Vector2<S>) -> (tree: Self)
        ensures
            tree.nodes@ == seq![QuadtreeNode::new_spec(min, max, 0)],
            tree.wf(),
    {
        let mut nodes = Vec::new();
        nodes.push(QuadtreeNode::new(min, max, 0));
        assert(nodes@ =~= seq![QuadtreeNode::new_spec(min, max, 0)]);
        Quadtree { nodes }
    }

    /// Recomputes the mass and the position of `node` from its children.
    fn refresh(&mut self, node: usize)
        requires
            shape(old(self).nodes@),
            node < old(self).nodes.len(),
            old(self).nodes[node as int].children is Some,
        ensures
            final(self).nodes@ == refresh_spec(old(self).nodes@, node as int),
    {
        let children = self.nodes[node].children.unwrap();
        let mut new_position = Vector2::zero();
        let mut new_mass = S::zero();
        let mut i: usize = 0;
        while i < 4
            invariant
                i <= 4,
                self.nodes@ == old(self).nodes@,
                shape(self.nodes@),
                node < self.nodes.len(),
                self.nodes[node as int].children == Some(children),
                new_mass == mass_fold(self.nodes@, node as int, i as int),
                new_position == weight_fold(self.nodes@, node as int, i as int),
            decreases 4 - i,
        {
            assert(child_at(self.nodes@, node as int, i as int) == children[i as int]);
            let current_child = &self.nodes[children[i]];
            new_position.add_assign(current_child.position.mul(current_child.mass));
            new_mass = new_mass.add(current_child.mass);
            i += 1;
        }
        self.nodes[node].position = new_position.div(new_mass);
        self.nodes[node].mass = new_mass;
        assert(self.nodes@ =~= refresh_spec(old(self).nodes@, node as int));
    }

    /// Gives the leaf `node` four empty children, one over each quadrant.
    /// The cell keeps the point mass it holds, which its children do not
    /// account for until it has been inserted among them.
    pub fn add_children(&mut self, node: usize)
        requires
            shape(old(self).nodes@),
            node < old(self).nodes.len(),
            old(self).nodes[node as int].children is None,
            old(self).nodes[node as int].depth < MAX_DEPTH,
            old(self).nodes.len() + 4 <= usize::MAX,
        ensures
            final(self).nodes@ == split_spec(old(self).nodes@, node as int),
            shape(final(self).nodes@),
    {
        let ghost before = self.nodes@;
        let base: usize = self.nodes.len();
        let mut children: [usize; 4] = [0usize; 4];
        let mut i: usize = 0;
        while i < 4
            invariant
                i <= 4,
                base == before.len(),
                base + 4 <= usize::MAX,
                node < base,
                before[node as int].depth < MAX_DEPTH,
                self.nodes@.len() == base + i,
                forall|j: int| 0 <= j < base ==> #[trigger] self.nodes@[j] == before[j],
                forall|k: int|
                    0 <= k < i ==> #[trigger] self.nodes@[base + k] == before[node as int].quadrant_spec(
                        k,
                    ),
                forall|k: int| 0 <= k < i ==> #[trigger] children[k] == base + k,
            decreases 4 - i,
        {
            children[i] = self.nodes.len();
            let mut min = self.nodes[node].min;
            let mut max = self.nodes[node].max;
            if i % 2 == 0 {
                max.x = min.x.add(max.x).div(S::two());
            } else {
                min.x = min.x.add(max.x).div(S::two());
            }
            if i / 2 == 0 {
                max.y = min.y.add(max.y).div(S::two());
            } else {
                min.y = min.y.add(max.y).div(S::two());
            }
            let depth: usize = self.nodes[node].depth + 1;
            self.nodes.push(QuadtreeNode::new(min, max, depth));
            i += 1;
        }
        let ghost filled = self.nodes@;
        self.nodes[node].children = Some(children);
        proof {
            lemma_split_children(before, node as int);
            let after = split_spec(before, node as int);
            assert(children@ =~= after[node as int].children.unwrap()@) by {
                assert forall|k: int| 0 <= k < 4 implies children@[k] == after[node as int].children.unwrap()@[k] by {
                    assert(child_at(after, node as int, k) == before.len() + k);
                    assert(children[k] == base + k);
                }
            }
            assert(children =~= after[node as int].children.unwrap());
            assert forall|j: int| 0 <= j < after.len() implies self.nodes@[j] == after[j] by {
                if j >= base {
                    let k = j - base;
                    assert(after[before.len() + k] == before[node as int].quadrant_spec(k));
                    assert(filled[base + k] == before[node as int].quadrant_spec(k));
                } else if j != node {
                    assert(filled[j] == before[j]);
                }
            }
            assert(self.nodes@ =~= after);
            lemma_split_shape(before, node as int);
        }
    }

    /// Inserts a point mass below cell `node`; the whole tree is cell 0.
    pub fn insert(&mut self, position: Vector2<S>, mass: S, node: usize)
        requires
            shape(old(self).nodes@),
            node < old(self).nodes.len(),
            room(old(self).nodes@, node as int),
        ensures
            final(self).nodes@ == insert_spec(old(self).nodes@, position, mass, node as int),
            shape(final(self).nodes@),
            extends(old(self).nodes@, final(self).nodes@),
            node == 0 && old(self).wf() ==> final(self).wf(),
        decreases
                MAX_DEPTH - old(self).nodes[node as int].depth,
                (if old(self).nodes[node as int].children is None {
                    1int
                } else {
                    0int
                }),
    {
        let ghost before = self.nodes@;
        let ghost cell = before[node as int];
        match self.nodes[node].children {
            Some(children) => {
                let child = children[self.nodes[node].which_child(position)];
                assert(child == child_at(before, node as int, cell.which_child_spec(position)));
                self.insert(position, mass, child);
                proof {
                    lemma_insert_shape(before, position, mass, child as int);
                }
                self.refresh(node);
            },
            None => {
                if S::zero().lt(self.nodes[node].mass) {
                    if self.nodes[node].depth == MAX_DEPTH {
                        let merged = self.nodes[node].mass.add(mass);
                        self.nodes[node].mass = merged;
                        assert(self.nodes@ =~= insert_spec(
                            before,
                            position,
                            mass,
                            node as int,
                        ));
                    } else {
                        let temp_position = self.nodes[node].position;
                        let temp_mass = self.nodes[node].mass;
                        self.add_children(node);
                        let ghost split = self.nodes@;
                        proof {
                            lemma_split_children(before, node as int);
                            S::zero_is_not_positive();
                            let held = child_at(
                                split,
                                node as int,
                                cell.which_child_spec(temp_position),
                            );
                            assert(split[before.len() + cell.which_child_spec(temp_position)]
                                == cell.quadrant_spec(cell.which_child_spec(temp_position)));
                            assert(insert_spec(split, temp_position, temp_mass, held)
                                == store_spec(split, held, temp_position, temp_mass));
                            assert(split[node as int].which_child_spec(temp_position)
                                == cell.which_child_spec(temp_position));
                        }
                        self.insert(temp_position, temp_mass, node);
                        let ghost settled = self.nodes@;
                        proof {
                            assert(settled[node as int].which_child_spec(position)
                                == cell.which_child_spec(position));
                        }
                        self.insert(position, mass, node);
                    }
                } else {
                    self.nodes[node].position = position;
                    self.nodes[node].mass = mass;
                    assert(self.nodes@ =~= insert_spec(before, position, mass, node as int));
                }
            },
        }
        proof {
            lemma_insert_shape(before, position, mass, node as int);
            if node == 0 && aggregated(before) {
                lemma_insert_keeps_aggregated(before, position, mass);
            }
        }
    }

    /// The approximate field at `position` of the bodies below cell `node`.
    pub fn calculate_gravity(
        &self,
        position: Vector2<S>,
        node: usize,
        settings: &WorldSettings<S>,
    ) -> (gravity: Vector2<S>)
        requires
            shape(self.nodes@),
            node < self.nodes.len(),
        ensures
            gravity == tree_gravity_spec(self.nodes@, *settings, position, node as int),
        decreases self.nodes.len() - node, 5int,
    {
        let current_node = &self.nodes[node];
        let far_away = current_node.far_away(position, settings.accuracy);
        let inside = current_node.inside(position);
        match current_node.children {
            None => {
                if inside {
                    Vector2::zero()
                } else {
                    point_gravity(settings, current_node.position, current_node.mass, position)
                }
            },
            Some(children) => {
                if inside || !far_away {
                    let mut gravity = Vector2::zero();
                    let mut i: usize = 0;
                    while i < 4
                        invariant
                            i <= 4,
                            shape(self.nodes@),
                            node < self.nodes.len(),
                            self.nodes[node as int].children == Some(children),
                            gravity == children_gravity_spec(
                                self.nodes@,
                                *settings,
                                position,
                                node as int,
                                i as int,
                            ),
                        decreases 4 - i,
                    {
                        assert(child_at(self.nodes@, node as int, i as int) == children[i as int]);
                        gravity.add_assign(self.calculate_gravity(position, children[i], settings));
                        i += 1;
                    }
                    gravity
                } else {
                    point_gravity(settings, current_node.position, current_node.mass, position)
                }
            },
        }
    }
}

} // verus!
