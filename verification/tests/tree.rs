use std::collections::VecDeque;
use uniplate::Tree;

fn sample() -> Tree<i32> {
    Tree::Many(VecDeque::from([
        Tree::Many(VecDeque::from([Tree::One(0), Tree::Zero])),
        Tree::Many(VecDeque::from([Tree::Many(VecDeque::from([
            Tree::Zero,
            Tree::One(1),
            Tree::One(2),
        ]))])),
        Tree::One(3),
        Tree::Zero,
        Tree::One(4),
    ]))
}

#[test]
fn list_preserves_ordering() {
    let my_tree: Tree<i32> = Tree::Many(VecDeque::from([
        Tree::Many(VecDeque::from([Tree::One(0), Tree::Zero])),
        Tree::Many(VecDeque::from([Tree::Many(VecDeque::from([
            Tree::Zero,
            Tree::One(1),
            Tree::One(2),
        ]))])),
        Tree::One(3),
        Tree::Zero,
        Tree::One(4),
    ]));

    let flat = my_tree.list().0;

    for i in 0..5 {
        assert_eq!(flat[i], i.try_into().unwrap());
    }
}

#[test]
fn list_is_isomorphic() {
    let tree = sample();
    let (children, func) = tree.clone().list();
    assert_eq!(children, VecDeque::from([0, 1, 2, 3, 4]));
    let new_tree = func(children);
    assert_eq!(new_tree, tree);
}

#[test]
fn list_is_isomorphic_on_small_trees() {
    for tree in [
        Tree::Zero,
        Tree::One(7),
        Tree::Many(VecDeque::new()),
        Tree::Many(VecDeque::from([Tree::Zero])),
        Tree::Many(VecDeque::from([Tree::Many(VecDeque::new()), Tree::One(1)])),
    ] {
        let (children, func) = tree.clone().list();
        assert_eq!(func(children), tree);
    }
}

#[test]
fn list_rebuilds_with_new_leaves() {
    let (children, func) = sample().list();
    assert_eq!(children.len(), 5);
    let rebuilt = func(VecDeque::from([10, 11, 12, 13, 14]));
    let expected: Tree<i32> = Tree::Many(VecDeque::from([
        Tree::Many(VecDeque::from([Tree::One(10), Tree::Zero])),
        Tree::Many(VecDeque::from([Tree::Many(VecDeque::from([
            Tree::Zero,
            Tree::One(11),
            Tree::One(12),
        ]))])),
        Tree::One(13),
        Tree::Zero,
        Tree::One(14),
    ]));
    assert_eq!(rebuilt, expected);
}

#[test]
fn list_rebuilder_can_be_called_again() {
    let (_, func) = sample().list();
    let first = func(VecDeque::from([1, 1, 1, 1, 1]));
    let second = func(VecDeque::from([2, 2, 2, 2, 2]));
    assert_eq!(first.list().0, VecDeque::from([1, 1, 1, 1, 1]));
    assert_eq!(second.list().0, VecDeque::from([2, 2, 2, 2, 2]));
}

#[test]
fn list_of_zero_and_one() {
    let (children, func) = Tree::<i32>::Zero.list();
    assert!(children.is_empty());
    assert_eq!(func(VecDeque::new()), Tree::Zero);

    let (children, func) = Tree::One(5).list();
    assert_eq!(children, VecDeque::from([5]));
    assert_eq!(func(VecDeque::from([6])), Tree::One(6));
}

#[test]
fn map_add() {
    for diff in [-100, -1, 0, 1, 99] {
        let tree = sample();
        let new_tree = tree.clone().map(&|a| a + diff);
        let (old_children, _) = tree.list();
        let (new_children, _) = new_tree.list();
        assert_eq!(old_children.len(), new_children.len());
        for (old, new) in old_children.into_iter().zip(new_children) {
            assert_eq!(old + diff, new);
        }
    }
}

#[test]
fn map_keeps_structure() {
    let mapped = sample().map(&|a| a * 2);
    let expected: Tree<i32> = Tree::Many(VecDeque::from([
        Tree::Many(VecDeque::from([Tree::One(0), Tree::Zero])),
        Tree::Many(VecDeque::from([Tree::Many(VecDeque::from([
            Tree::Zero,
            Tree::One(2),
            Tree::One(4),
        ]))])),
        Tree::One(6),
        Tree::Zero,
        Tree::One(8),
    ]));
    assert_eq!(mapped, expected);
}

#[test]
fn is_empty_of_values() {
    assert!(Tree::<i32>::Zero.is_empty());
    assert!(!Tree::One(1).is_empty());
    assert!(Tree::<i32>::Many(VecDeque::new()).is_empty());
    assert!(Tree::<i32>::Many(VecDeque::from([
        Tree::Zero,
        Tree::Many(VecDeque::from([Tree::Zero, Tree::Many(VecDeque::new())])),
    ]))
    .is_empty());
    assert!(!Tree::Many(VecDeque::from([
        Tree::Zero,
        Tree::Many(VecDeque::from([Tree::Zero, Tree::One(3)])),
    ]))
    .is_empty());
    assert!(!sample().is_empty());
}

#[test]
fn clone_is_equal() {
    let tree = sample();
    assert_eq!(tree.clone(), tree);
    assert_eq!(Tree::<String>::One("a".to_string()).clone(), Tree::One("a".to_string()));
}

#[test]
fn into_row_gives_the_subtrees() {
    let row = sample().into_row();
    assert_eq!(row.len(), 5);
    assert_eq!(row[2], Tree::One(3));
    assert_eq!(row[3], Tree::Zero);
    assert!(Tree::<i32>::Zero.into_row().is_empty());
    assert!(Tree::One(1).into_row().is_empty());
}
