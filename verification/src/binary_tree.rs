//! A binary tree whose internal nodes and leaves carry values of two types.

use vstd::arithmetic::power2::{lemma2_to64, lemma_pow2_unfold, pow2};
use vstd::pervasive::cloned;
use vstd::prelude::*;

verus! {

/// A strict binary tree: every position is either a `Node` with a value and
/// exactly two owned subtrees, or a `Leaf` with a value and no children.
#[allow(inconsistent_fields)]
pub enum BinaryTree<N, L> {
    Node { value: N, a: Box<BinaryTree<N, L>>, b: Box<BinaryTree<N, L>> },
    Leaf { value: L },
}

impl<N, L> BinaryTree<N, L> {
    /// The number of leaves.
    pub open spec fn leaf_count(self) -> nat
        decreases self,
    {
        match self {
            BinaryTree::Leaf { .. } => 1,
            BinaryTree::Node { a, b, .. } => a.leaf_count() + b.leaf_count(),
        }
    }

    /// The number of internal nodes.
    pub open spec fn node_count(self) -> nat
        decreases self,
    {
        match self {
            BinaryTree::Leaf { .. } => 0,
            BinaryTree::Node { a, b, .. } => 1 + a.node_count() + b.node_count(),
        }
    }

    /// Every leaf lies exactly `depth` nodes below the root.
    pub open spec fn is_perfect(self, depth: nat) -> bool
        decreases self,
    {
        match self {
            BinaryTree::Leaf { .. } => depth == 0,
            BinaryTree::Node { a, b, .. } => depth > 0 && a.is_perfect((depth - 1) as nat)
                && b.is_perfect((depth - 1) as nat),
        }
    }

    /// Both trees have the same variant at every position.
    pub open spec fn same_shape(self, other: Self) -> bool
        decreases self,
    {
        match (self, other) {
            (BinaryTree::Leaf { .. }, BinaryTree::Leaf { .. }) => true,
            (BinaryTree::Node { a: a1, b: b1, .. }, BinaryTree::Node { a: a2, b: b2, .. }) => {
                a1.same_shape(*a2) && b1.same_shape(*b2)
            },
            _ => false,
        }
    }

    /// The leaf values, in depth-first order with `a` before `b`.
    pub open spec fn leaves(self) -> Seq<L>
        decreases self,
    {
        match self {
            BinaryTree::Leaf { value } => seq![value],
            BinaryTree::Node { a, b, .. } => a.leaves() + b.leaves(),
        }
    }

    /// The tree that has `f(v)` wherever `self` has the node value `v`, and
    /// the leaves of `self`.
    pub open spec fn mapped(self, f: spec_fn(N) -> N) -> Self
        decreases self,
    {
        match self {
            BinaryTree::Leaf { value } => BinaryTree::Leaf { value },
            BinaryTree::Node { value, a, b } => BinaryTree::Node {
                value: f(value),
                a: Box::new(a.mapped(f)),
                b: Box::new(b.mapped(f)),
            },
        }
    }

    /// `v` is the value of some internal node.
    pub open spec fn has_node(self, v: N) -> bool
        decreases self,
    {
        match self {
            BinaryTree::Leaf { .. } => false,
            BinaryTree::Node { value, a, b } => value == v || a.has_node(v) || b.has_node(v),
        }
    }

    /// `out` is a possible outcome of mapping `func` over the nodes of
    /// `self`: the same shape, at every node a value that `func` may return
    /// for the value found there, at every leaf a clone of the leaf's value.
    pub open spec fn maps_to<F: Fn(&N) -> N>(self, out: Self, func: F) -> bool where L: Clone
        decreases self,
    {
        match (self, out) {
            (BinaryTree::Leaf { value: v1 }, BinaryTree::Leaf { value: v2 }) => cloned(v1, v2),
            (
                BinaryTree::Node { value: v1, a: a1, b: b1 },
                BinaryTree::Node { value: v2, a: a2, b: b2 },
            ) => func.ensures((&v1,), v2) && a1.maps_to(*a2, func) && b1.maps_to(*b2, func),
            _ => false,
        }
    }
}

impl<N, L> BinaryTree<N, L> where N: Clone, L: Clone {
    /// Builds a new tree of the same shape in which every node value `v` is
    /// replaced by `func(v)` and every leaf value is cloned.
    pub fn map_nodes<F: Fn(&N) -> N>(&self, func: &F) -> (out: Self)
        requires
            forall|v: N| self.has_node(v) ==> func.requires((&v,)),
        ensures
            self.maps_to(out, *func),
            out.same_shape(*self),
            out.leaf_count() == self.leaf_count(),
        decreases self,
    {
        match self {
            BinaryTree::Leaf { value } => BinaryTree::Leaf { value: value.clone() },
            BinaryTree::Node { value, a, b } => {
                assert(self.has_node(*value));
                assert forall|v: N| a.has_node(v) || b.has_node(v) implies func.requires((&v,)) by {
                    assert(self.has_node(v));
                }
                BinaryTree::Node {
                    value: func(value),
                    a: Box::new(a.map_nodes(func)),
                    b: Box::new(b.map_nodes(func)),
                }
            },
        }
    }
}

/// A perfect tree of depth `depth` has exactly `2^depth` leaves and
/// `2^depth - 1` internal nodes.
pub proof fn lemma_perfect_counts<N, L>(tree: BinaryTree<N, L>, depth: nat)
    requires
        tree.is_perfect(depth),
    ensures
        tree.leaf_count() == pow2(depth),
        tree.node_count() + 1 == pow2(depth),
    decreases tree,
{
    match tree {
        BinaryTree::Leaf { .. } => {
            lemma2_to64();
        },
        BinaryTree::Node { a, b, .. } => {
            lemma_perfect_counts(*a, (depth - 1) as nat);
            lemma_perfect_counts(*b, (depth - 1) as nat);
            lemma_pow2_unfold(depth);
        },
    }
}

/// Trees of the same shape have the same number of leaves and of nodes, and
/// are perfect at the same depths.
pub proof fn lemma_same_shape_counts<N, L>(s: BinaryTree<N, L>, t: BinaryTree<N, L>)
    requires
        s.same_shape(t),
    ensures
        s.leaf_count() == t.leaf_count(),
        s.node_count() == t.node_count(),
        s.leaves().len() == t.leaves().len(),
        forall|depth: nat| s.is_perfect(depth) == t.is_perfect(depth),
    decreases s,
{
    match (s, t) {
        (BinaryTree::Node { a: a1, b: b1, .. }, BinaryTree::Node { a: a2, b: b2, .. }) => {
            lemma_same_shape_counts(*a1, *a2);
            lemma_same_shape_counts(*b1, *b2);
            assert forall|depth: nat| s.is_perfect(depth) == t.is_perfect(depth) by {
                if depth > 0 {
                    let below = (depth - 1) as nat;
                    assert(a1.is_perfect(below) == a2.is_perfect(below));
                    assert(b1.is_perfect(below) == b2.is_perfect(below));
                }
            }
        },
        _ => {},
    }
}

/// Whatever `func` returns, the outcome of a map has the shape of its input.
pub proof fn lemma_map_keeps_shape<N, L: Clone, F: Fn(&N) -> N>(
    tree: BinaryTree<N, L>,
    out: BinaryTree<N, L>,
    func: F,
)
    requires
        tree.maps_to(out, func),
    ensures
        out.same_shape(tree),
    decreases tree,
{
    match (tree, out) {
        (BinaryTree::Node { a: a1, b: b1, .. }, BinaryTree::Node { a: a2, b: b2, .. }) => {
            lemma_map_keeps_shape(*a1, *a2, func);
            lemma_map_keeps_shape(*b1, *b2, func);
        },
        _ => {},
    }
}

/// Where `func` computes the function `f` and cloning a leaf value gives an
/// equal value, the outcome of a map is exactly `tree.mapped(f)`: `f(v)` at
/// the position of every node value `v`, and the same leaves.
pub proof fn lemma_map_computes<N, L: Clone, F: Fn(&N) -> N>(
    tree: BinaryTree<N, L>,
    out: BinaryTree<N, L>,
    func: F,
    f: spec_fn(N) -> N,
)
    requires
        tree.maps_to(out, func),
        forall|v: N, w: N| func.ensures((&v,), w) ==> w == f(v),
        forall|v: L, w: L| cloned(v, w) ==> v == w,
    ensures
        out == tree.mapped(f),
        out.leaves() == tree.leaves(),
    decreases tree,
{
    match (tree, out) {
        (BinaryTree::Node { a: a1, b: b1, .. }, BinaryTree::Node { a: a2, b: b2, .. }) => {
            lemma_map_computes(*a1, *a2, func, f);
            lemma_map_computes(*b1, *b2, func, f);
        },
        _ => {},
    }
}

/// Mapping the identity over the nodes gives back an equal tree.
pub proof fn lemma_map_identity<N, L>(tree: BinaryTree<N, L>)
    ensures
        tree.mapped(|v: N| v) == tree,
    decreases tree,
{
    match tree {
        BinaryTree::Node { a, b, .. } => {
            lemma_map_identity(*a);
            lemma_map_identity(*b);
        },
        _ => {},
    }
}

} // verus!
