use bintree::{with_source, BinaryTree, BinaryView, BinaryViewMut, Dir, TreeSource};

/// The tree of the walk-through:
///
/// ```text
///       0
///      / \
///     1   3
///    /
///   2
/// ```
fn small_tree<'id>(source: &mut TreeSource<'id>) -> BinaryTree<'id, i32> {
    let mut tree = BinaryTree::new(source, 0);
    let mut cursor = tree.view_mut();
    assert_eq!(cursor.add_child(Dir::Left, 1), None);
    assert_eq!(cursor.add_child(Dir::Right, 3), None);
    let mut cursor = cursor.descend(Dir::Left).ok().unwrap();
    assert_eq!(cursor.add_child(Dir::Left, 2), None);
    tree
}

#[test]
fn walk_down_and_up_again() {
    with_source(|mut source| {
        let mut tree = small_tree(&mut source);

        let cursor = tree.view_mut();
        let cursor = cursor.descend(Dir::Left).ok().unwrap();
        let mut cursor = cursor.descend(Dir::Left).ok().unwrap();
        assert_eq!(*cursor.node().value(), 2);
        let cursor = cursor.climb().ok().unwrap();
        let mut cursor = cursor.climb().ok().unwrap();
        assert_eq!(*cursor.node().value(), 0);
        assert_eq!(cursor.node().parent(), None);

        assert_eq!(cursor.node().set_value(-1), 0);
        assert_eq!(*cursor.node().value(), -1);
        assert_eq!(*tree.root().value(), -1);
    });
}

#[test]
fn shared_walk_down_and_up_again() {
    with_source(|mut source| {
        let tree = small_tree(&mut source);
        let root = tree.view();
        let left = root.descend(&tree, Dir::Left).unwrap();
        assert_eq!(*left.node(&tree).value(), 1);
        let left_left = left.descend(&tree, Dir::Left).unwrap();
        assert_eq!(*left_left.node(&tree).value(), 2);
        let right = root.descend(&tree, Dir::Right).unwrap();
        assert_eq!(*right.node(&tree).value(), 3);
        assert_eq!(left_left.climb(&tree), Ok(left));
        assert_eq!(left.climb(&tree), Ok(root));
        assert_eq!(right.climb(&tree), Ok(root));
        assert_eq!(*root.node(&tree).value(), 0);
    });
}

#[test]
fn added_child_is_found_by_descend() {
    with_source(|mut source| {
        for dir in [Dir::Left, Dir::Right] {
            let mut tree = BinaryTree::new(&mut source, String::from("root"));
            let mut cursor = tree.view_mut();
            assert!(cursor.add_child(dir, String::from("first")).is_none());
            let mut child = cursor.descend(dir).ok().unwrap();
            assert_eq!(child.node().value(), "first");
            let first_at = BinaryView::new(&tree).descend(&tree, dir).unwrap();

            let mut cursor = tree.view_mut();
            let previous = cursor.add_child(dir, String::from("second"));
            assert_eq!(previous, Some(first_at));
            let mut child = cursor.descend(dir).ok().unwrap();
            assert_eq!(child.node().value(), "second");

            let previous = previous.unwrap();
            assert_eq!(previous.node(&tree).value(), "first");
            assert_eq!(previous.node(&tree).parent(), None);
            let second_at = tree.view().descend(&tree, dir).unwrap();
            assert_ne!(second_at, previous);
        }
    });
}

#[test]
fn add_child_fills_only_the_named_slot() {
    with_source(|mut source| {
        let mut tree = BinaryTree::new(&mut source, 0);
        let mut cursor = tree.view_mut();
        cursor.add_child(Dir::Right, 5);
        assert!(cursor.descend(Dir::Left).is_err());
        let root = tree.view();
        assert_eq!(root.descend(&tree, Dir::Left), Err(root));
        assert!(root.descend(&tree, Dir::Right).is_ok());
    });
}

#[test]
fn descend_then_climb_is_back() {
    with_source(|mut source| {
        let tree = small_tree(&mut source);
        let mut stack = vec![tree.view()];
        let mut seen: usize = 0;
        while let Some(at) = stack.pop() {
            seen += 1;
            for dir in [Dir::Left, Dir::Right] {
                match at.descend(&tree, dir) {
                    Ok(down) => {
                        assert_ne!(down, at);
                        assert_eq!(down.climb(&tree), Ok(at));
                        stack.push(down);
                    }
                    Err(same) => assert_eq!(same, at),
                }
            }
        }
        assert_eq!(seen, 4);
    });
}

#[test]
fn climb_from_root_fails() {
    with_source(|mut source| {
        let one = BinaryTree::new(&mut source, 0);
        let root = one.view();
        assert_eq!(root.climb(&one), Err(root));

        let tree = small_tree(&mut source);
        let root = tree.view();
        assert_eq!(root.climb(&tree), Err(root));
        assert_eq!(root.to_raw().climb(&tree), Err(root.to_raw()));

        let mut tree = small_tree(&mut source);
        let root = tree.view();
        let cursor = tree.view_mut();
        let back = cursor.climb().err().unwrap();
        assert_eq!(back.at, root.to_raw());
    });
}

#[test]
fn descend_into_empty_slot_fails() {
    with_source(|mut source| {
        let mut tree = small_tree(&mut source);
        let right = tree.view().descend(&tree, Dir::Right).unwrap();
        assert_eq!(right.descend(&tree, Dir::Left), Err(right));
        assert_eq!(right.descend(&tree, Dir::Right), Err(right));
        assert_eq!(right.to_raw().descend(&tree, Dir::Right), Err(right.to_raw()));

        let cursor = tree.view_mut().descend(Dir::Right).ok().unwrap();
        let mut same = cursor.descend(Dir::Left).err().unwrap();
        assert_eq!(same.at, right.to_raw());
        assert_eq!(*same.node().value(), 3);
    });
}

#[test]
fn into_mut_on_another_tree_fails() {
    with_source(|mut source| {
        let home = small_tree(&mut source);
        let mut other = BinaryTree::new(&mut source, 0);
        let root = home.view();
        assert!(!root.is_in(&other));
        assert_eq!(root.into_mut(&mut other).err(), Some(root));
        let deep = root.descend(&home, Dir::Left).unwrap().descend(&home, Dir::Left).unwrap();
        assert!(!deep.is_in(&other));
        assert_eq!(deep.into_mut(&mut other).err(), Some(deep));
        assert_eq!(*other.root().value(), 0);
    });
}

#[test]
fn into_mut_on_a_twin_tree_fails() {
    with_source(|mut source| {
        let mut home = small_tree(&mut source);
        let mut twin = small_tree(&mut source);
        let root = home.view();
        let left = root.descend(&home, Dir::Left).unwrap();
        let left_left = left.descend(&home, Dir::Left).unwrap();
        let right = root.descend(&home, Dir::Right).unwrap();
        for at in [root, left, left_left, right] {
            assert!(at.is_in(&home));
            assert!(!at.is_in(&twin));
            assert!(!twin.holds(at.to_raw()));
            assert_eq!(at.into_mut(&mut twin).err(), Some(at));
            assert!(at.into_mut(&mut home).is_ok());
        }
        let twin_root = twin.view();
        assert_ne!(twin_root, root);
        assert_eq!(twin_root.index(), root.index());
        assert_eq!(twin_root.into_mut(&mut home).err(), Some(twin_root));
        assert!(twin_root.into_mut(&mut twin).is_ok());
    });
}

#[test]
fn into_mut_on_own_tree_keeps_the_position() {
    with_source(|mut source| {
        let mut tree = small_tree(&mut source);
        let root = tree.view();
        let left = root.descend(&tree, Dir::Left).unwrap();
        let left_left = left.descend(&tree, Dir::Left).unwrap();
        let right = root.descend(&tree, Dir::Right).unwrap();
        for (at, value) in [(root, 0), (left, 1), (left_left, 2), (right, 3)] {
            assert!(at.is_in(&tree));
            let mut cursor = at.into_mut(&mut tree).ok().unwrap();
            assert_eq!(cursor.at, at.to_raw());
            assert_eq!(*cursor.node().value(), value);
            assert_eq!(cursor.node().set_value(value + 10), value);
        }
        assert_eq!(*left_left.node(&tree).value(), 12);
        assert_eq!(*root.node(&tree).value(), 10);
    });
}

#[test]
fn into_mut_fails_in_a_subtree_that_was_cut_off() {
    with_source(|mut source| {
        let mut tree = small_tree(&mut source);
        let root = tree.view();
        let left = root.descend(&tree, Dir::Left).unwrap();
        let left_left = left.descend(&tree, Dir::Left).unwrap();
        let right = root.descend(&tree, Dir::Right).unwrap();

        let previous = tree.view_mut().add_child(Dir::Left, 7);
        assert_eq!(previous, Some(left));

        assert!(left.is_in(&tree));
        assert_eq!(left.climb(&tree), Err(left));
        assert_eq!(left.descend(&tree, Dir::Left), Ok(left_left));
        assert_eq!(left_left.climb(&tree), Ok(left));
        assert_eq!(*left_left.node(&tree).value(), 2);

        assert_eq!(left.into_mut(&mut tree).err(), Some(left));
        assert_eq!(left_left.into_mut(&mut tree).err(), Some(left_left));
        assert!(right.into_mut(&mut tree).is_ok());
        assert!(root.into_mut(&mut tree).is_ok());
        let fresh = root.descend(&tree, Dir::Left).unwrap();
        assert_eq!(*fresh.node(&tree).value(), 7);
        assert!(fresh.into_mut(&mut tree).is_ok());
    });
}

#[test]
fn positions_know_their_tree() {
    with_source(|mut source| {
        let first = small_tree(&mut source);
        let second = small_tree(&mut source);
        let deep = second.view().descend(&second, Dir::Right).unwrap();
        assert!(second.holds(deep.to_raw()));
        assert!(!first.holds(deep.to_raw()));
        assert_eq!(deep.to_raw().tag(), second.tag());
        assert_ne!(deep.to_raw().tag(), first.tag());
        assert_eq!(deep.to_raw().index(), deep.index());
    });
}

#[test]
fn unchecked_upgrades_keep_the_position() {
    with_source(|mut source| {
        let mut tree = small_tree(&mut source);
        let at = tree.view().descend(&tree, Dir::Left).unwrap();
        {
            let mut cursor = at.into_mut_unchecked(&mut tree);
            assert_eq!(cursor.at, at.to_raw());
            assert_eq!(*cursor.node().value(), 1);
        }
        {
            let mut cursor = tree.view_mut_from_raw(at.to_raw());
            assert_eq!(cursor.at, at.to_raw());
            assert_eq!(cursor.set_value(8), 1);
        }
        assert_eq!(*at.node(&tree).value(), 8);
    });
}

#[test]
fn exclusive_cursor_starts_at_the_root() {
    with_source(|mut source| {
        let mut tree = small_tree(&mut source);
        let root = tree.view();
        let mut cursor = BinaryViewMut::new(&mut tree);
        assert_eq!(cursor.at, root.to_raw());
        assert_eq!(*cursor.node().value(), 0);
        let mut cursor = tree.view_mut();
        assert_eq!(cursor.at, root.to_raw());
        assert_eq!(cursor.set_value(4), 0);
        assert_eq!(cursor.set_value(5), 4);
        assert_eq!(*tree.root().value(), 5);
    });
}

#[test]
fn views_are_values() {
    with_source(|mut source| {
        let tree = small_tree(&mut source);
        let root = BinaryView::new(&tree);
        let copy = root;
        assert_eq!(root, copy);
        assert_eq!(root, tree.view());
        let left = root.descend(&tree, Dir::Left).unwrap();
        assert_ne!(left, root);
        assert_eq!(copy.descend(&tree, Dir::Left), Ok(left));
    });
}
