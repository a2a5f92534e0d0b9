use split_tree::binary_tree::BinaryTree;

type Tree = BinaryTree<u32, &'static str>;

fn leaf(value: &'static str) -> Tree {
    BinaryTree::Leaf { value }
}

fn node(value: u32, a: Tree, b: Tree) -> Tree {
    BinaryTree::Node { value, a: Box::new(a), b: Box::new(b) }
}

fn same(s: &Tree, t: &Tree) -> bool {
    match (s, t) {
        (BinaryTree::Leaf { value: v }, BinaryTree::Leaf { value: w }) => v == w,
        (
            BinaryTree::Node { value: v, a: a1, b: b1 },
            BinaryTree::Node { value: w, a: a2, b: b2 },
        ) => v == w && same(a1, a2) && same(b1, b2),
        _ => false,
    }
}

fn lopsided() -> Tree {
    node(1, node(2, leaf("p"), node(3, leaf("q"), leaf("r"))), leaf("s"))
}

#[test]
fn map_nodes_replaces_every_node_value_in_place() {
    let tree = lopsided();
    let mapped = tree.map_nodes(&|v: &u32| v * 10 + 1);
    let expected = node(11, node(21, leaf("p"), node(31, leaf("q"), leaf("r"))), leaf("s"));
    assert!(same(&mapped, &expected));
}

#[test]
fn map_nodes_leaves_the_input_untouched() {
    let tree = lopsided();
    let _ = tree.map_nodes(&|v: &u32| v + 100);
    assert!(same(&tree, &lopsided()));
}

#[test]
fn map_nodes_with_identity_gives_an_equal_tree() {
    let tree = lopsided();
    let mapped = tree.map_nodes(&|v: &u32| *v);
    assert!(same(&mapped, &tree));
}

#[test]
fn map_nodes_on_a_single_leaf_copies_the_leaf() {
    let tree = leaf("only");
    let mapped = tree.map_nodes(&|v: &u32| v + 1);
    assert!(same(&mapped, &leaf("only")));
}

#[test]
fn map_nodes_can_be_applied_again_to_the_same_tree() {
    let tree = lopsided();
    let once = tree.map_nodes(&|v: &u32| v + 1);
    let twice = tree.map_nodes(&|v: &u32| v + 2);
    assert!(same(&once, &node(2, node(3, leaf("p"), node(4, leaf("q"), leaf("r"))), leaf("s"))));
    assert!(same(&twice, &node(3, node(4, leaf("p"), node(5, leaf("q"), leaf("r"))), leaf("s"))));
}
