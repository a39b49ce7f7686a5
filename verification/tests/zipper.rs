use std::collections::VecDeque;
use uniplate::zipper::Zipper;
use uniplate::Rank;
use uniplate::Shape;
use uniplate::Uniplate;

#[derive(Clone, PartialEq, Eq, Debug)]
enum Tree {
    Nil,
    Leaf(i32),
    One(i32, Box<Tree>),
    Many(i32, Vec<Tree>),
}

impl Tree {
    fn value(&self) -> i32 {
        match self {
            Tree::Nil => panic!("Cannot get value from Nil"),
            Tree::Leaf(v) => *v,
            Tree::One(v, _) => *v,
            Tree::Many(v, _) => *v,
        }
    }
}

impl Uniplate for Tree {
    fn shape(&self) -> Shape<Self> {
        unreachable!()
    }

    fn rebuilt(&self, _children: Shape<Self>) -> Self {
        unreachable!()
    }

    fn rank(&self) -> Rank {
        unreachable!()
    }

    fn lemma_rebuilt_shape(&self) {}

    fn lemma_child_rank(&self, _child: Self) {}

    fn lemma_clone(&self, _other: Self) {}

    fn uniplate(&self) -> uniplate::Tree<Self> {
        match self {
            Tree::Nil => uniplate::Tree::Zero,
            Tree::Leaf(_) => uniplate::Tree::Many(VecDeque::from([uniplate::Tree::Zero])),
            Tree::One(_, t) => uniplate::Tree::Many(VecDeque::from([
                uniplate::Tree::Zero,
                uniplate::Tree::One((**t).clone()),
            ])),
            Tree::Many(_, ts) => uniplate::Tree::Many(VecDeque::from([
                uniplate::Tree::Zero,
                uniplate::Tree::Many(ts.iter().cloned().map(uniplate::Tree::One).collect()),
            ])),
        }
    }

    fn reconstruct(&self, children: uniplate::Tree<Self>) -> Self {
        let (list, _) = children.list();
        match self {
            Tree::Nil => Tree::Nil,
            Tree::Leaf(v) => Tree::Leaf(*v),
            Tree::One(v, _) => Tree::One(*v, Box::new(list[0].clone())),
            Tree::Many(v, _) => Tree::Many(*v, list.into_iter().collect()),
        }
    }
}

#[test]
fn zipper_up_from_root() {
    let mut zipper = Zipper::new(Tree::Nil);
    assert!(zipper.go_up().is_none());
}

#[test]
fn zipper_up_from_branch() {
    let mut zipper = Zipper::new(Tree::Many(1, vec![Tree::Nil, Tree::Nil]));
    zipper.go_down();
    assert!(zipper.go_up().is_some());
}

#[test]
fn zipper_iter_left_siblings() {
    let mut zipper = Zipper::new(Tree::Many(0, (1..6).map(Tree::Leaf).collect()));

    zipper.go_down();
    assert!(zipper.iter_left_siblings().iter().next().is_none());

    zipper.go_right();
    assert!(zipper.iter_left_siblings().iter().map(Tree::value).eq(1..2));

    while zipper.go_right().is_some() {}
    assert!(zipper.iter_left_siblings().iter().map(Tree::value).eq(1..5));
}

#[test]
fn zipper_iter_right_siblings() {
    let mut zipper = Zipper::new(Tree::Many(0, (1..6).map(Tree::Leaf).collect()));

    zipper.go_down();
    assert!(zipper.iter_right_siblings().iter().map(Tree::value).eq(2..6));

    zipper.go_right();
    assert!(zipper.iter_right_siblings().iter().map(Tree::value).eq(3..6));

    while zipper.go_right().is_some() {}
    assert!(zipper.iter_right_siblings().iter().next().is_none());
}

#[test]
fn zipper_iter_siblings() {
    let mut zipper = Zipper::new(Tree::Many(0, (1..6).map(Tree::Leaf).collect()));

    zipper.go_down();
    zipper.go_right();
    zipper.go_right();

    assert!(zipper.iter_siblings().iter().map(Tree::value).eq(1..6));
}

#[test]
fn zipper_iter_ancestors_empty() {
    let zipper = Zipper::new(Tree::Nil);
    assert!(zipper.iter_ancestors().into_iter().next().is_none());
}

#[test]
fn zipper_iter_ancestors() {
    let mut zipper = Zipper::new((1..6).fold(Tree::Nil, |acc, i| Tree::One(i, Box::new(acc))));

    while zipper.go_down().is_some() {}

    assert!(zipper.iter_ancestors().into_iter().map(|t| Tree::value(&t)).eq(1..6));
}

#[test]
fn zipper_iter_ancestors_mutate() {
    let mut zipper = Zipper::new(Tree::One(0, Box::new(Tree::One(1, Box::new(Tree::Nil)))));

    zipper.go_down();

    zipper.replace_focus(Tree::Nil); // Should now appear in parent's subtree

    assert_eq!(
        zipper.iter_ancestors().into_iter().next().unwrap(),
        Tree::One(0, Box::new(Tree::Nil))
    );
}

#[test]
fn zipper_has_up() {
    let mut zipper = Zipper::new(Tree::One(0, Box::new(Tree::One(1, Box::new(Tree::Nil)))));
    zipper.go_down();

    assert!(zipper.has_up());
    zipper.go_up();
    assert!(!zipper.has_up());
}

#[test]
fn zipper_has_up_from_root() {
    let zipper = Zipper::new(Tree::Nil);
    assert!(!zipper.has_up());
}

#[test]
fn zipper_has_down_no_children() {
    let zipper = Zipper::new(Tree::Nil);
    assert!(!zipper.has_down());
}

#[test]
fn zipper_has_down() {
    let mut zipper = Zipper::new(Tree::One(0, Box::new(Tree::One(1, Box::new(Tree::Nil)))));

    assert!(zipper.has_down());
    zipper.go_down();
    assert!(zipper.has_down());
    zipper.go_down();
    assert!(!zipper.has_down());
}

#[test]
fn zipper_has_down_type_not_enterable() {
    #[derive(Clone, PartialEq, Eq, Debug)]
    struct Data(i32);

    impl Uniplate for Data {
        fn shape(&self) -> Shape<Self> {
            unreachable!()
        }

        fn rebuilt(&self, _children: Shape<Self>) -> Self {
            unreachable!()
        }

        fn rank(&self) -> Rank {
            unreachable!()
        }

        fn lemma_rebuilt_shape(&self) {}

        fn lemma_child_rank(&self, _child: Self) {}

        fn lemma_clone(&self, _other: Self) {}

        fn uniplate(&self) -> uniplate::Tree<Self> {
            uniplate::Tree::Many(VecDeque::from([uniplate::Tree::Zero]))
        }

        fn reconstruct(&self, _children: uniplate::Tree<Self>) -> Self {
            self.clone()
        }
    }

    let zipper = Zipper::new(Data(0));
    assert!(!zipper.has_down());
}

#[test]
fn zipper_has_left() {
    let mut zipper = Zipper::new(Tree::Many(0, (1..3).map(Tree::Leaf).collect()));
    zipper.go_down();

    assert!(!zipper.has_left());
    zipper.go_right();
    assert!(zipper.has_left());
}

#[test]
fn zipper_has_right() {
    let mut zipper = Zipper::new(Tree::Many(0, (1..3).map(Tree::Leaf).collect()));
    zipper.go_down();

    assert!(zipper.has_right());
    zipper.go_right();
    assert!(!zipper.has_right());
}
