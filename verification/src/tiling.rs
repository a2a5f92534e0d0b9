//! What the rectangles of a split tree add up to: one per leaf, and, for
//! ratios in the unit interval, an exact tiling of the bounds.

use crate::binary_tree::{lemma_map_computes, BinaryTree};
use crate::split_tree::{magnitude, scaled, Direction, Rectangle, Split, SplitTree};
use vstd::prelude::*;

verus! {

/// The sum of the areas of `rects`.
pub open spec fn total_area(rects: Seq<Rectangle>) -> int
    decreases rects.len(),
{
    if rects.len() == 0 {
        0
    } else {
        total_area(rects.drop_last()) + rects.last().area()
    }
}

/// The area of a concatenation is the sum of the areas of its two parts.
pub proof fn lemma_total_area_concat(a: Seq<Rectangle>, b: Seq<Rectangle>)
    ensures
        total_area(a + b) == total_area(a) + total_area(b),
    decreases b.len(),
{
    if b.len() == 0 {
        assert(a + b =~= a);
    } else {
        assert((a + b).drop_last() =~= a + b.drop_last());
        assert((a + b).last() == b.last());
        lemma_total_area_concat(a, b.drop_last());
    }
}

/// A split with a ratio in the unit interval cuts a bounded rectangle at
/// one line: the two parts meet there, are bounded, share no area and
/// together have the area of the rectangle. Parts of a proper rectangle are
/// proper and lie within it; parts of an inverted one are inverted or empty.
pub proof fn lemma_parts_tile(split: Split, rect: Rectangle)
    requires
        split.in_unit(),
        rect.bounded(),
    ensures
        ({
            let (a, b) = split.parts(rect);
            &&& a.bounded() && b.bounded()
            &&& !a.overlaps(b)
            &&& a.area() + b.area() == rect.area()
            &&& rect.proper() ==> a.proper() && b.proper() && a.inside(rect) && b.inside(rect)
            &&& rect.w <= 0 ==> a.w <= 0 && b.w <= 0
            &&& rect.h <= 0 ==> a.h <= 0 && b.h <= 0
            &&& match split.direction {
                Direction::X => a.x == rect.x && b.x == rect.x + a.w && a.w + b.w == rect.w
                    && a.y == rect.y && b.y == rect.y && a.h == rect.h && b.h == rect.h,
                Direction::Y => b.y == rect.y && a.y == rect.y + b.h && a.h + b.h == rect.h
                    && a.x == rect.x && b.x == rect.x && a.w == rect.w && b.w == rect.w,
            }
        }),
{
    let ratio = split.ratio as int;
    let len = match split.direction {
        Direction::X => rect.w as int,
        Direction::Y => rect.h as int,
    };
    let size = magnitude(len);
    let product = size * ratio;
    assert(0 <= product <= size * 16777216) by (nonlinear_arith)
        requires
            product == size * ratio,
            0 <= size,
            0 <= ratio <= 16777216,
    ;
    assert(0 <= product / 16777216 <= size);
    let pad = scaled(len, ratio);
    assert(magnitude(ratio) == ratio);
    assert(len >= 0 ==> 0 <= pad <= len);
    assert(len < 0 ==> len <= pad <= 0);
    let (a, b) = split.parts(rect);
    assert(a.area() + b.area() == rect.area()) by (nonlinear_arith)
        requires
            a.w + b.w == rect.w && a.h == rect.h && b.h == rect.h || a.h + b.h == rect.h && a.w
                == rect.w && b.w == rect.w,
            a.area() == a.w * a.h,
            b.area() == b.w * b.h,
            rect.area() == rect.w * rect.h,
    ;
}

/// The fold yields one rectangle per leaf.
pub proof fn lemma_tile_count(tree: SplitTree, bounds: Rectangle)
    ensures
        tree.tiles(bounds).len() == tree.leaf_count(),
        tree.tiles(bounds).len() == tree.leaves().len(),
    decreases tree,
{
    match tree {
        BinaryTree::Node { value, a, b } => {
            let parts = value.parts(bounds);
            lemma_tile_count(*a, parts.0);
            lemma_tile_count(*b, parts.1);
        },
        _ => {},
    }
}

/// The rectangles come in depth-first order: at a node, those of the leaves
/// under `a`, folded against the first part of the bounds, stand before
/// those of the leaves under `b`, folded against the second part.
pub proof fn lemma_tiles_in_leaf_order(value: Split, a: SplitTree, b: SplitTree, bounds: Rectangle)
    ensures
        ({
            let tree = BinaryTree::Node { value, a: Box::new(a), b: Box::new(b) };
            let parts = value.parts(bounds);
            let tiles = tree.tiles(bounds);
            &&& tiles.len() == a.leaf_count() + b.leaf_count()
            &&& forall|i: int| 0 <= i < a.leaf_count() ==> tiles[i] == a.tiles(parts.0)[i]
            &&& forall|i: int|
                0 <= i < b.leaf_count() ==> tiles[a.leaf_count() + i] == b.tiles(parts.1)[i]
        }),
{
    let parts = value.parts(bounds);
    lemma_tile_count(a, parts.0);
    lemma_tile_count(b, parts.1);
}

/// For a tree whose ratios lie in the unit interval and bounded `bounds`,
/// the rectangles of the leaves tile `bounds`: their areas add up to the
/// area of `bounds`, and no two of them share a region of positive area.
/// Within proper bounds every one of them is proper and lies within the
/// bounds; inverted bounds give inverted or empty rectangles.
pub proof fn lemma_tiling(tree: SplitTree, bounds: Rectangle)
    requires
        tree.ratios_in_unit(),
        bounds.bounded(),
    ensures
        total_area(tree.tiles(bounds)) == bounds.area(),
        forall|i: int, j: int|
            0 <= i < j < tree.tiles(bounds).len() ==> !(#[trigger] tree.tiles(bounds)[i]).overlaps(
                #[trigger] tree.tiles(bounds)[j],
            ),
        forall|i: int|
            0 <= i < tree.tiles(bounds).len() ==> {
                let tile = #[trigger] tree.tiles(bounds)[i];
                &&& tile.bounded()
                &&& bounds.proper() ==> tile.proper() && tile.inside(bounds)
                &&& bounds.w <= 0 ==> tile.w <= 0
                &&& bounds.h <= 0 ==> tile.h <= 0
            },
    decreases tree,
{
    match tree {
        BinaryTree::Leaf { .. } => {
            assert(tree.tiles(bounds).drop_last() =~= Seq::<Rectangle>::empty());
            assert(total_area(Seq::<Rectangle>::empty()) == 0);
        },
        BinaryTree::Node { value, a, b } => {
            let parts = value.parts(bounds);
            let first = a.tiles(parts.0);
            let second = b.tiles(parts.1);
            let all = tree.tiles(bounds);
            assert(all == first + second);
            lemma_parts_tile(value, bounds);
            lemma_tiling(*a, parts.0);
            lemma_tiling(*b, parts.1);
            lemma_total_area_concat(first, second);
            assert forall|i: int| 0 <= i < all.len() implies {
                let tile = #[trigger] all[i];
                &&& tile.bounded()
                &&& bounds.proper() ==> tile.proper() && tile.inside(bounds)
                &&& bounds.w <= 0 ==> tile.w <= 0
                &&& bounds.h <= 0 ==> tile.h <= 0
            } by {
                if i < first.len() {
                    assert(all[i] == first[i]);
                } else {
                    assert(all[i] == second[i - first.len()]);
                }
            }
            assert forall|i: int, j: int| 0 <= i < j < all.len() implies !(#[trigger] all[i]).overlaps(
                #[trigger] all[j],
            ) by {
                if j < first.len() {
                    assert(all[i] == first[i] && all[j] == first[j]);
                } else if i >= first.len() {
                    assert(all[i] == second[i - first.len()]);
                    assert(all[j] == second[j - first.len()]);
                } else {
                    assert(all[i] == first[i]);
                    assert(all[j] == second[j - first.len()]);
                }
            }
        },
    }
}

/// On a split tree, where `func` computes the function `f`, the outcome of
/// a map is exactly `tree.mapped(f)`, and it folds into as many rectangles
/// as `tree` does.
pub proof fn lemma_map_split_tree<F: Fn(&Split) -> Split>(
    tree: SplitTree,
    out: SplitTree,
    func: F,
    f: spec_fn(Split) -> Split,
    bounds: Rectangle,
)
    requires
        tree.maps_to(out, func),
        forall|v: Split, w: Split| func.ensures((&v,), w) ==> w == f(v),
    ensures
        out == tree.mapped(f),
        out.tiles(bounds).len() == tree.tiles(bounds).len(),
{
    lemma_map_computes(tree, out, func, f);
    crate::binary_tree::lemma_map_keeps_shape(tree, out, func);
    crate::binary_tree::lemma_same_shape_counts(out, tree);
    lemma_tile_count(tree, bounds);
    lemma_tile_count(out, bounds);
}

} // verus!
