use std::collections::VecDeque;
use uniplate::tagged_zipper::TaggedZipper;
use uniplate::Rank;
use uniplate::Shape;
use uniplate::Uniplate;

#[derive(Debug, Clone, PartialEq, Eq)]
enum Tree {
    Leaf,
    One(Box<Tree>),
    Many(Vec<Tree>),
}

impl Uniplate for Tree {
    fn shape(&self) -> Shape<Self> {
        unreachable!()
    }

    fn rebuilt(&self, _children: Shape<Self>) -> Self {
        unreachable!()
    }

    fn rank(&self) -> Rank {
        unreachable!()
    }

    fn lemma_rebuilt_shape(&self) {}

    fn lemma_child_rank(&self, _child: Self) {}

    fn lemma_clone(&self, _other: Self) {}

    fn uniplate(&self) -> uniplate::Tree<Self> {
        match self {
            Tree::Leaf => uniplate::Tree::Zero,
            Tree::One(t) => {
                uniplate::Tree::Many(VecDeque::from([uniplate::Tree::One((**t).clone())]))
            }
            Tree::Many(ts) => uniplate::Tree::Many(VecDeque::from([uniplate::Tree::Many(
                ts.iter().cloned().map(uniplate::Tree::One).collect(),
            )])),
        }
    }

    fn reconstruct(&self, children: uniplate::Tree<Self>) -> Self {
        let (list, _) = children.list();
        match self {
            Tree::Leaf => Tree::Leaf,
            Tree::One(_) => Tree::One(Box::new(list[0].clone())),
            Tree::Many(_) => Tree::Many(list.into_iter().collect()),
        }
    }
}

impl Tree {
    /// Returns the height of the tree.
    fn height(&self) -> usize {
        match self {
            Tree::Leaf => 0,
            Tree::One(t) => 1 + t.height(),
            Tree::Many(ts) => 1 + ts.iter().map(Tree::height).max().unwrap_or(0),
        }
    }
}

#[test]
fn tagged_zipper_root() {
    let zipper = TaggedZipper::new(Tree::Leaf, |_| 1);
    assert_eq!(*zipper.tag(), 1);
}

#[test]
fn tagged_zipper_move_down_up() {
    let mut zipper = TaggedZipper::new(Tree::One(Box::new(Tree::Leaf)), |t| match t {
        Tree::Leaf => 1,
        Tree::One(_) => 2,
        Tree::Many(_) => 3,
    });

    assert_eq!(*zipper.tag(), 2);
    zipper.go_down().unwrap();
    assert_eq!(*zipper.tag(), 1);
    zipper.go_up().unwrap();
    assert_eq!(*zipper.tag(), 2);
}

#[test]
fn tagged_zipper_come_back_up_to_mutated() {
    let mut zipper = TaggedZipper::new(Tree::One(Box::new(Tree::Leaf)), |t| match t {
        Tree::Leaf => 1,
        Tree::One(_) => 2,
        Tree::Many(_) => 3,
    });

    *zipper.tag_mut() = 42;
    assert_eq!(*zipper.tag(), 42);

    zipper.go_down().unwrap();
    *zipper.tag_mut() = 43;
    assert_eq!(*zipper.tag(), 43);

    zipper.go_up().unwrap();
    assert_eq!(*zipper.tag(), 42);

    zipper.go_down().unwrap();
    assert_eq!(*zipper.tag(), 43);
}

#[test]
fn tagged_zipper_come_back_left_to_mutated() {
    let mut zipper = TaggedZipper::new(Tree::Many(vec![Tree::Leaf, Tree::Leaf]), |t| match t {
        Tree::Leaf => 1,
        Tree::One(_) => 2,
        Tree::Many(_) => 3,
    });

    zipper.go_down().unwrap();
    *zipper.tag_mut() = 42;
    assert_eq!(*zipper.tag(), 42);

    zipper.go_right().unwrap();
    *zipper.tag_mut() = 43;
    assert_eq!(*zipper.tag(), 43);

    zipper.go_left().unwrap();
    assert_eq!(*zipper.tag(), 42);

    zipper.go_right().unwrap();
    assert_eq!(*zipper.tag(), 43);
}

#[test]
fn tagged_zipper_replace_focus() {
    let mut zipper = TaggedZipper::new(Tree::Leaf, |t| match t {
        Tree::Leaf => 1,
        Tree::One(_) => 2,
        Tree::Many(_) => 3,
    });

    assert_eq!(*zipper.tag(), 1);
    zipper.replace_focus(Tree::One(Box::new(Tree::Leaf)));
    assert_eq!(*zipper.tag(), 2);
    *zipper.tag_mut() = 42;

    zipper.go_down().unwrap();
    assert_eq!(*zipper.tag(), 1);

    zipper.replace_focus(Tree::Many(vec![Tree::Leaf, Tree::Leaf]));
    assert_eq!(*zipper.tag(), 3);

    zipper.go_up().unwrap();
    assert_eq!(*zipper.tag(), 42);
}

#[test]
fn tagged_zipper_reset_tag() {
    let mut zipper = TaggedZipper::new(Tree::Leaf, |_| 1);
    assert_eq!(*zipper.tag(), 1);
    zipper.replace_tag(42);
    assert_eq!(*zipper.tag(), 42);
    zipper.reset_tag();
    assert_eq!(*zipper.tag(), 1);
}

#[test]
fn tagged_zipper_invalidate_subtree() {
    let mut zipper = TaggedZipper::new(Tree::One(Box::new(Tree::Leaf)), |_| 1);

    zipper.go_down().unwrap();
    assert_eq!(*zipper.tag(), 1);
    zipper.replace_tag(42);

    zipper.go_up().unwrap();
    zipper.invalidate_subtree();

    zipper.go_down().unwrap();
    assert_eq!(*zipper.tag(), 1);
}

#[test]
fn tagged_zipper_height_cache() {
    // Create a tree like so:
    //       o
    //      / \
    //     o   o
    //    / \
    //   o   o
    let tree = Tree::Many(vec![Tree::Many(vec![Tree::Leaf, Tree::Leaf]), Tree::Leaf]);

    // A tagged zipper that calculates the height of each node when it comes to it.
    let mut zipper = TaggedZipper::new(tree, Tree::height);
    assert_eq!(*zipper.tag(), 2);

    // Replace the left subtree with a leaf.
    zipper.go_down().unwrap();
    zipper.replace_focus(Tree::Leaf);
    assert_eq!(*zipper.tag(), 0);

    // The tag of the root is as it was until it is reset.
    zipper.go_up().unwrap();
    assert_eq!(*zipper.tag(), 2);
    zipper.reset_tag();
    assert_eq!(*zipper.tag(), 1);

    assert_eq!(zipper.rebuild_root(), Tree::Many(vec![Tree::Leaf, Tree::Leaf]));
}
