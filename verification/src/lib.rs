//! Recursive partitions of a rectangle, described by a binary tree of splits.
//!
//! [`binary_tree`] holds the generic tree and its structure-preserving map;
//! [`split_tree`] specialises it to splits of a rectangle along an axis and
//! folds such a tree into the ordered list of its leaf rectangles;
//! [`tiling`] proves what those rectangles add up to. The random draws are
//! made by the `rand` crate, in the private module `chance`.

pub mod binary_tree;
mod chance;
pub mod split_tree;
pub mod tiling;
