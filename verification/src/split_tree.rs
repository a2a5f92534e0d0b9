//! Split trees: binary trees whose nodes cut a rectangle in two along an
//! axis, and the fold that turns such a tree into its leaf rectangles.
//!
//! Ratios are fixed-point numbers in units of `1 / RATIO_ONE`; rectangles
//! have integer coordinates in whatever unit the caller draws in.

use crate::binary_tree::BinaryTree;
use crate::chance::{choose_direction, draw_bits};
use vstd::arithmetic::power2::pow2;
use vstd::prelude::*;

verus! {

/// The axis along which a rectangle is cut.
#[derive(Clone, Copy, Debug, PartialEq, Eq, Structural)]
pub enum Direction {
    X,
    Y,
}

/// The ratio 1 in the fixed-point unit of `Split::ratio`: 2^24.
pub const RATIO_ONE: i32 = 16777216;

/// How a node cuts its rectangle: along `direction`, leaving the fraction
/// `ratio / RATIO_ONE` of the extent to the second part.
#[derive(Clone, Copy, Debug, PartialEq, Eq, Structural)]
pub struct Split {
    pub direction: Direction,
    pub ratio: i32,
}

/// An axis-aligned box: where it starts on each axis, and its signed extent
/// from there. A box of negative extent is inverted.
#[derive(Clone, Copy, Debug, PartialEq, Eq, Structural)]
pub struct Rectangle {
    pub x: i32,
    pub y: i32,
    pub w: i32,
    pub h: i32,
}

/// A split tree: splits at the nodes, nothing at the leaves.
pub type SplitTree = BinaryTree<Split, ()>;

/// The absolute value of `v`.
pub open spec fn magnitude(v: int) -> int {
    if v < 0 {
        -v
    } else {
        v
    }
}

/// The fraction `ratio / RATIO_ONE` of `len`, rounded toward zero.
pub open spec fn scaled(len: int, ratio: int) -> int {
    let q = (magnitude(len) * magnitude(ratio)) / (RATIO_ONE as int);
    if (len < 0) != (ratio < 0) {
        -q
    } else {
        q
    }
}

/// The coordinate nearest to `v`.
pub open spec fn clamped(v: int) -> i32 {
    if v < i32::MIN {
        i32::MIN
    } else if v > i32::MAX {
        i32::MAX
    } else {
        v as i32
    }
}

fn scale(len: i32, ratio: i32) -> (out: i64)
    ensures
        out == scaled(len as int, ratio as int),
        -0x40_0000_0000 <= out <= 0x40_0000_0000,
{
    let l: i64 = len as i64;
    let r: i64 = ratio as i64;
    let ml: i64 = if l < 0 { -l } else { l };
    let mr: i64 = if r < 0 { -r } else { r };
    assert(0 <= ml * mr <= 0x4000_0000_0000_0000) by (nonlinear_arith)
        requires
            0 <= ml <= 0x8000_0000,
            0 <= mr <= 0x8000_0000,
    ;
    let q: i64 = (ml * mr) / (RATIO_ONE as i64);
    if (l < 0) != (r < 0) {
        -q
    } else {
        q
    }
}

fn clamp(v: i64) -> (out: i32)
    ensures
        out == clamped(v as int),
{
    if v < -2147483648 {
        -2147483648
    } else if v > 2147483647 {
        2147483647
    } else {
        v as i32
    }
}

impl Rectangle {
    /// The corner opposite to the start is a coordinate too.
    pub open spec fn bounded(self) -> bool {
        &&& i32::MIN <= self.x + self.w <= i32::MAX
        &&& i32::MIN <= self.y + self.h <= i32::MAX
    }

    /// Bounded, and of non-negative extent on both axes.
    pub open spec fn proper(self) -> bool {
        &&& self.bounded()
        &&& self.w >= 0
        &&& self.h >= 0
    }

    /// The signed area: width times height.
    pub open spec fn area(self) -> int {
        self.w * self.h
    }

    /// `self` lies within `outer`.
    pub open spec fn inside(self, outer: Rectangle) -> bool {
        &&& outer.x <= self.x
        &&& self.x + self.w <= outer.x + outer.w
        &&& outer.y <= self.y
        &&& self.y + self.h <= outer.y + outer.h
    }

    /// The two rectangles share a region of positive area. An inverted
    /// rectangle covers no area and overlaps nothing.
    pub open spec fn overlaps(self, other: Rectangle) -> bool {
        let left = if self.x > other.x { self.x as int } else { other.x as int };
        let right = if self.x + self.w < other.x + other.w {
            self.x + self.w
        } else {
            other.x + other.w
        };
        let low = if self.y > other.y { self.y as int } else { other.y as int };
        let high = if self.y + self.h < other.y + other.h {
            self.y + self.h
        } else {
            other.y + other.h
        };
        left < right && low < high
    }
}

impl Split {
    /// The ratio lies in the closed unit interval.
    pub open spec fn in_unit(self) -> bool {
        0 <= self.ratio <= RATIO_ONE
    }

    /// The two parts into which the split cuts `rect`. With `pad` the
    /// fraction `ratio` of the extent along `direction`: along `X` the first
    /// part keeps the low corner and loses `pad` at the high end, the second
    /// is the `pad` wide strip at the high end; along `Y` the first part
    /// loses `pad` at the low end, the second is the `pad` high strip there.
    /// A coordinate that leaves the range of `i32` is clamped.
    pub open spec fn parts(self, rect: Rectangle) -> (Rectangle, Rectangle) {
        match self.direction {
            Direction::X => {
                let pad = scaled(rect.w as int, self.ratio as int);
                (
                    Rectangle { x: rect.x, y: rect.y, w: clamped(rect.w - pad), h: rect.h },
                    Rectangle {
                        x: clamped(rect.x + (rect.w - pad)),
                        y: rect.y,
                        w: clamped(pad),
                        h: rect.h,
                    },
                )
            },
            Direction::Y => {
                let pad = scaled(rect.h as int, self.ratio as int);
                (
                    Rectangle {
                        x: rect.x,
                        y: clamped(rect.y + pad),
                        w: rect.w,
                        h: clamped(rect.h - pad),
                    },
                    Rectangle { x: rect.x, y: rect.y, w: rect.w, h: clamped(pad) },
                )
            },
        }
    }

    /// The split along `direction` whose ratio is the top 24 bits of `bits`,
    /// read as a fraction of 2^24: for uniform `bits`, uniform in `[0, 1)`.
    pub fn from_draw(direction: Direction, bits: u32) -> (split: Split)
        ensures
            split.direction == direction,
            split.ratio == bits / 256,
            0 <= split.ratio < RATIO_ONE,
    {
        Split { direction, ratio: (bits / 256) as i32 }
    }

    /// A split along a random axis with a random ratio in `[0, 1)`.
    pub fn random() -> (split: Split)
        ensures
            0 <= split.ratio < RATIO_ONE,
    {
        let mut rng = rand::thread_rng();
        let direction = choose_direction(&mut rng);
        Split::from_draw(direction, draw_bits())
    }

    /// A split along `X` for even `i` and along `Y` for odd `i`, with a
    /// random ratio in `[0, 1)`.
    pub fn alternating(i: i32) -> (split: Split)
        ensures
            split.direction == (if i % 2 == 0 {
                Direction::X
            } else {
                Direction::Y
            }),
            0 <= split.ratio < RATIO_ONE,
    {
        let direction = if i % 2 == 0 {
            Direction::X
        } else {
            Direction::Y
        };
        Split::from_draw(direction, draw_bits())
    }

    /// Cuts `rect` in two.
    pub fn apply(&self, rect: &Rectangle) -> (parts: (Rectangle, Rectangle))
        ensures
            parts == self.parts(*rect),
    {
        match self.direction {
            Direction::X => {
                let pad: i64 = scale(rect.w, self.ratio);
                let rest: i64 = rect.w as i64 - pad;
                (
                    Rectangle { x: rect.x, y: rect.y, w: clamp(rest), h: rect.h },
                    Rectangle {
                        x: clamp(rect.x as i64 + rest),
                        y: rect.y,
                        w: clamp(pad),
                        h: rect.h,
                    },
                )
            },
            Direction::Y => {
                let pad: i64 = scale(rect.h, self.ratio);
                let rest: i64 = rect.h as i64 - pad;
                (
                    Rectangle {
                        x: rect.x,
                        y: clamp(rect.y as i64 + pad),
                        w: rect.w,
                        h: clamp(rest),
                    },
                    Rectangle { x: rect.x, y: rect.y, w: rect.w, h: clamp(pad) },
                )
            },
        }
    }
}

/// The depth of the tree that `SplitTree::random` builds for `depth`.
pub open spec fn depth_built(depth: i32) -> nat {
    if depth > 0 {
        depth as nat
    } else {
        0
    }
}

impl BinaryTree<Split, ()> {
    /// Every ratio in the tree lies between `low` and `high`, inclusive.
    pub open spec fn ratios_within(self, low: int, high: int) -> bool
        decreases self,
    {
        match self {
            BinaryTree::Leaf { .. } => true,
            BinaryTree::Node { value, a, b } => low <= value.ratio <= high && a.ratios_within(
                low,
                high,
            ) && b.ratios_within(low, high),
        }
    }

    /// Every ratio in the tree lies in the closed unit interval.
    pub open spec fn ratios_in_unit(self) -> bool {
        self.ratios_within(0, RATIO_ONE as int)
    }

    /// The rectangles of the leaves when the root is given `bounds`, in
    /// depth-first order: those under `a` before those under `b`.
    pub open spec fn tiles(self, bounds: Rectangle) -> Seq<Rectangle>
        decreases self,
    {
        match self {
            BinaryTree::Leaf { .. } => seq![bounds],
            BinaryTree::Node { value, a, b } => {
                let parts = value.parts(bounds);
                a.tiles(parts.0) + b.tiles(parts.1)
            },
        }
    }

    /// A perfect tree of `depth` levels of random splits; a single leaf for
    /// a `depth` of zero or less.
    pub fn random(depth: i32) -> (tree: SplitTree)
        ensures
            tree.is_perfect(depth_built(depth)),
            tree.leaf_count() == pow2(depth_built(depth)),
            tree.ratios_within(0, RATIO_ONE - 1),
            tree.ratios_in_unit(),
        decreases depth,
    {
        if depth > 0 {
            let value = Split::random();
            let a = Self::random(depth - 1);
            let b = Self::random(depth - 1);
            let tree = BinaryTree::Node { value, a: Box::new(a), b: Box::new(b) };
            proof {
                crate::binary_tree::lemma_perfect_counts(tree, depth_built(depth));
            }
            tree
        } else {
            proof {
                vstd::arithmetic::power2::lemma2_to64();
            }
            BinaryTree::Leaf { value: () }
        }
    }

    /// One rectangle per leaf, in depth-first order, for the root at
    /// `bounds`.
    pub fn rectangles(&self, bounds: Rectangle) -> (out: Vec<Rectangle>)
        ensures
            out@ == self.tiles(bounds),
            out@.len() == self.leaf_count(),
        decreases self,
    {
        match self {
            BinaryTree::Node { value, a, b } => {
                let (a_bounds, b_bounds) = value.apply(&bounds);
                let mut out = a.rectangles(a_bounds);
                let mut rest = b.rectangles(b_bounds);
                out.append(&mut rest);
                out
            },
            BinaryTree::Leaf { .. } => {
                let mut out = Vec::new();
                out.push(bounds);
                out
            },
        }
    }
}

} // verus!
