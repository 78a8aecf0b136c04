use bintree::{with_source, BinaryTree, BinaryView, Dir, TreeSource};

/// Outputs a binary tree with only one element at the root:
/// a node with `0` as its value.
fn empty_binary<'id>(source: &mut TreeSource<'id>) -> BinaryTree<'id, i32> {
    BinaryTree::new(source, 0)
}

/// Checks that slot `dir` of the root holds a leaf with the given value that
/// names the root as its parent, and returns the index of that leaf.
fn check_leaf_under_root(tree: &BinaryTree<'_, i32>, dir: Dir, value: i32) -> usize {
    let root = tree.view();
    let slots = *root.node(tree).children();
    let child = root.descend(tree, dir).unwrap();
    let slot = match dir {
        Dir::Left => slots.0,
        Dir::Right => slots.1,
    };
    assert_eq!(slot, Some(child.index()));
    let node = child.node(tree);
    assert_eq!(node.parent(), Some(root.index()));
    assert_eq!(node.children(), &(None, None));
    assert_eq!(*node.value(), value);
    child.index()
}

#[test]
fn it_works() {
}

#[test]
fn adding_to_tree() {
    with_source(|mut source| {
        let mut empty_t = empty_binary(&mut source);
        assert_eq!(empty_t.root().children(), &(None, None));

        empty_t.view_mut().add_child(Dir::Left, 1);
        let first = check_leaf_under_root(&empty_t, Dir::Left, 1);
        assert_eq!(empty_t.root().children().1, None);

        empty_t.view_mut().add_child(Dir::Left, 2);
        let second = check_leaf_under_root(&empty_t, Dir::Left, 2);
        assert_ne!(first, second);
        assert_eq!(empty_t.root().children().1, None);

        empty_t.view_mut().add_child(Dir::Right, 3);
        assert_eq!(check_leaf_under_root(&empty_t, Dir::Left, 2), second);
        let third = check_leaf_under_root(&empty_t, Dir::Right, 3);
        assert_eq!(empty_t.root().children(), &(Some(second), Some(third)));
    });
}

#[test]
fn root_is_the_node_under_the_root_view() {
    with_source(|mut source| {
        let mut tree = empty_binary(&mut source);
        let at_root = tree.view();
        assert_eq!(at_root, BinaryView::new(&tree));
        tree.root_mut().set_value(7);
        assert_eq!(*at_root.node(&tree).value(), 7);
        assert!(std::ptr::eq(tree.root(), at_root.node(&tree)));
        tree.view_mut().add_child(Dir::Left, 1);
        assert!(std::ptr::eq(tree.root(), at_root.node(&tree)));
        assert_eq!(tree.root().parent(), None);
    });
}

#[test]
fn value_is_set() {
    with_source(|mut source| {
        let mut empty_t = empty_binary(&mut source);
        {
            let root = empty_t.root_mut();
            assert_eq!(*root.value(), 0);
            assert_eq!(root.set_value(1), 0);
            assert_eq!(*root.value(), 1);
            assert_eq!(root.set_value(-1), 1);
            assert_eq!(*root.value(), -1);
        }
        let root = empty_t.root();
        assert_eq!(*root.value(), -1);
    });
}

#[test]
fn get_parent_test() {
    with_source(|mut source| {
        let mut empty_t = empty_binary(&mut source);
        empty_t.view_mut().add_child(Dir::Left, 1);
        let root = empty_t.view();
        let child = root.descend(&empty_t, Dir::Left).ok();
        let parent = child.map(|at| at.node(&empty_t).parent());
        assert_eq!(parent.unwrap(), Some(root.index()));
    });
}

#[test]
fn fresh_tree_is_one_leaf() {
    with_source(|mut source| {
        let tree = BinaryTree::new(&mut source, "payload");
        assert_eq!(*tree.root().value(), "payload");
        assert_eq!(tree.root().children(), &(None, None));
        assert_eq!(tree.root().parent(), None);
        assert_eq!(tree.view().index(), 0);
        assert_eq!(tree.view().to_raw().tag(), tree.tag());
    });
}

#[test]
fn a_source_numbers_its_trees() {
    with_source(|mut source| {
        assert!(source.has_room());
        let first = BinaryTree::new(&mut source, 'a');
        let second = BinaryTree::new(&mut source, 'a');
        let third = BinaryTree::new(&mut source, 'b');
        assert_eq!(first.tag(), 0);
        assert_eq!(second.tag(), 1);
        assert_eq!(third.tag(), 2);
        assert!(source.has_room());
        assert_ne!(first.view(), second.view());
        assert_ne!(second.view(), third.view());
    });
}

#[test]
fn set_value_keeps_the_links() {
    with_source(|mut source| {
        let mut tree = BinaryTree::new(&mut source, 10);
        let mut root = tree.view_mut();
        root.add_child(Dir::Left, 20);
        root.add_child(Dir::Right, 30);
        let before = *tree.root().children();
        assert_eq!(tree.root_mut().set_value(11), 10);
        assert_eq!(*tree.root().children(), before);
        assert_eq!(tree.root().parent(), None);
        assert_eq!(*tree.root().value(), 11);
    });
}

#[test]
fn the_arena_numbers_nodes_in_the_order_they_were_made() {
    with_source(|mut source| {
        let mut tree = BinaryTree::new(&mut source, 'a');
        let mut cursor = tree.view_mut();
        cursor.add_child(Dir::Right, 'b');
        cursor.add_child(Dir::Left, 'c');
        assert_eq!(tree.root().children(), &(Some(2), Some(1)));
        let mut cursor = tree.view_mut().descend(Dir::Right).ok().unwrap();
        cursor.add_child(Dir::Right, 'd');
        assert_eq!(cursor.node().children(), &(None, Some(3)));
        assert_eq!(cursor.node().parent(), Some(0));
    });
}
