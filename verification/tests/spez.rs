use std::collections::VecDeque;
use std::marker::PhantomData;
use uniplate::impls::biplate_items;
use uniplate::impls::biplate_within;
use uniplate::impls::reconstruct_items;
use uniplate::impls::reconstruct_within;
use uniplate::impls::biplate_within_deque;
use uniplate::impls::biplate_within_option;
use uniplate::impls::reconstruct_within_deque;
use uniplate::impls::reconstruct_within_option;
use uniplate::spez::BiplateItems;
use uniplate::spez::BiplateNo;
use uniplate::spez::BiplateYes;
use uniplate::spez::SpezBiplate;
use uniplate::spez::SpezUniplate;
use uniplate::spez::UniplateNo;
use uniplate::spez::UniplateYes;
use uniplate::test_common::paper::Expr;
use uniplate::test_common::paper::Expr::{Add, Neg, Val, Var};
use uniplate::Biplate;
use uniplate::BiplateExt;
use uniplate::Tree;
use uniplate::Uniplate;
use uniplate::UniplateExt;

#[derive(Clone, Debug, PartialEq, Eq)]
struct Plain(u8);

#[test]
fn try_biplate_to_a_type_with_a_traversal() {
    let e = Add(Box::new(Var("x".to_string())), Box::new(Val(1)));
    let wrapper = SpezBiplate(e.clone(), PhantomData::<String>);
    assert!((&&wrapper).spez_impls_biplate());
    let names: Tree<String> = (&&wrapper).spez_try_biplate();
    assert_eq!(names.clone().list().0, VecDeque::from(["x".to_string()]));
    let renamed = names.map(&|s| format!("{}{}", s, s));
    assert_eq!(
        (&&wrapper).spez_rebuild_biplate(renamed),
        Add(Box::new(Var("xx".to_string())), Box::new(Val(1)))
    );
}

#[test]
fn try_biplate_to_a_type_without_a_traversal() {
    let wrapper = SpezBiplate(Plain(3), PhantomData::<String>);
    assert!(!(&&wrapper).spez_impls_biplate());
    let names: Tree<String> = (&&wrapper).spez_try_biplate();
    assert_eq!(names, Tree::Zero);
    assert_eq!((&&wrapper).spez_rebuild_biplate(Tree::Zero), Plain(3));

    // An expression has no traversal to a type it was not given one for.
    let wrapper = SpezBiplate(Val(1), PhantomData::<Plain>);
    assert!(!(&&wrapper).spez_impls_biplate());
    assert_eq!((&&wrapper).spez_try_biplate(), Tree::Zero);
    assert_eq!((&&wrapper).spez_rebuild_biplate(Tree::Zero), Val(1));
}

#[test]
fn biplate_to_the_same_type_is_the_value() {
    let wrapper = SpezBiplate(Val(1), PhantomData::<Expr>);
    assert_eq!(wrapper.spez_identity(), Tree::One(Val(1)));
    assert_eq!(SpezBiplate::<Expr, Expr>::spez_identity_rebuild(Tree::One(Val(2))), Val(2));
    // The traversal of the type to itself says the same.
    assert!((&&wrapper).spez_impls_biplate());
    assert_eq!((&&wrapper).spez_try_biplate(), Tree::One(Val(1)));
    assert_eq!((&&wrapper).spez_rebuild_biplate(Tree::One(Val(2))), Val(2));
}

#[test]
fn try_uniplate() {
    let e = Neg(Box::new(Val(1)));
    let wrapper = SpezUniplate(e.clone());
    assert!((&&wrapper).spez_impls_uniplate());
    let children = (&&wrapper).spez_try_uniplate();
    assert_eq!(children, e.uniplate());
    assert_eq!(children.clone().list().0, VecDeque::from([Val(1)]));
    assert_eq!(
        (&&wrapper).spez_rebuild_uniplate(children.map(&|_| Val(2))),
        Neg(Box::new(Val(2)))
    );

    let wrapper = SpezUniplate(Plain(3));
    assert!(!(&&wrapper).spez_impls_uniplate());
    assert_eq!((&&wrapper).spez_try_uniplate(), Tree::Zero);
    assert_eq!((&&wrapper).spez_rebuild_uniplate(Tree::Zero), Plain(3));
}

#[test]
fn integers_and_strings_are_leaves() {
    assert!(5i32.children().is_empty());
    assert_eq!(5i32.universe(), VecDeque::from([5]));
    assert_eq!(5u8.uniplate(), Tree::Zero);
    assert_eq!(5u8.reconstruct(Tree::Zero), 5);
    assert_eq!((-5i64).with_children(VecDeque::new()), Ok(-5));
    assert_eq!(7u128.transform(&|x| x + 1), 8);
    assert_eq!(7i8.rewrite(&|_| None), 7);
    assert_eq!("a".to_string().uniplate(), Tree::Zero);
    assert_eq!("a".to_string().reconstruct(Tree::Zero), "a");
    assert!("a".to_string().children().is_empty());
}

#[test]
fn integers_and_strings_are_the_value_of_their_own_type() {
    assert_eq!(5i32.biplate(), Tree::One(5));
    assert_eq!(5i32.reconstruct_bi(Tree::One(6)), 6);
    let children: VecDeque<u16> = 5u16.children_bi();
    assert_eq!(children, VecDeque::from([5]));
    assert_eq!(5u16.with_children_bi(VecDeque::from([6u16])), Ok(6));
    let universe: VecDeque<i16> = 5i16.universe_bi();
    assert_eq!(universe, VecDeque::from([5]));
    assert_eq!(5u32.transform_bi(&|x: u32| x * 2), 10);
    assert_eq!(5u64.descend_bi(&|x: u64| x * 2), 10);
    assert_eq!(5i128.biplate(), Tree::One(5));
    assert_eq!("a".to_string().biplate(), Tree::One("a".to_string()));
    assert_eq!("a".to_string().reconstruct_bi(Tree::One("b".to_string())), "b");
}

#[test]
fn vector_of_the_target_type() {
    let empty: Vec<Expr> = vec![];
    assert_eq!(biplate_items(&empty), Tree::Zero);
    assert_eq!(reconstruct_items(&empty, Tree::Zero), vec![]);

    let items = vec![Val(1), Val(2), Val(3)];
    let children = biplate_items(&items);
    assert_eq!(
        children,
        Tree::Many(VecDeque::from([Tree::One(Val(1)), Tree::One(Val(2)), Tree::One(Val(3))]))
    );
    assert_eq!(reconstruct_items(&items, children.clone()), items);
    let bumped = children.map(&|e| Neg(Box::new(e)));
    assert_eq!(
        reconstruct_items(&items, bumped),
        vec![Neg(Box::new(Val(1))), Neg(Box::new(Val(2))), Neg(Box::new(Val(3)))]
    );
}

#[test]
fn vector_of_a_type_with_a_traversal() {
    let empty: Vec<Expr> = vec![];
    let nothing: Tree<String> = biplate_within(&empty);
    assert_eq!(nothing, Tree::Zero);
    let rebuilt: Vec<Expr> = reconstruct_within(&empty, Tree::<String>::Zero);
    assert!(rebuilt.is_empty());

    let items =
        vec![Var("x".to_string()), Val(2), Add(Box::new(Var("y".to_string())), Box::new(Val(3)))];
    let names: Tree<String> = biplate_within(&items);
    assert_eq!(names.clone().list().0, VecDeque::from(["x".to_string(), "y".to_string()]));
    assert_eq!(names.clone().into_row().len(), 3);
    assert_eq!(reconstruct_within(&items, names.clone()), items);
    let upper = names.map(&|s| s.to_uppercase());
    assert_eq!(
        reconstruct_within(&items, upper),
        vec![Var("X".to_string()), Val(2), Add(Box::new(Var("Y".to_string())), Box::new(Val(3)))]
    );

    // With the traversal of the type to itself, each element is one value.
    let same: Tree<Expr> = biplate_within(&items);
    assert_eq!(same, biplate_items(&items));
}

#[test]
fn deque_of_a_type_with_a_traversal() {
    let empty: VecDeque<Expr> = VecDeque::new();
    let nothing: Tree<String> = biplate_within_deque(&empty);
    assert_eq!(nothing, Tree::Zero);
    let rebuilt: VecDeque<Expr> = reconstruct_within_deque(&empty, Tree::<String>::Zero);
    assert!(rebuilt.is_empty());

    let items = VecDeque::from([Var("x".to_string()), Val(2), Neg(Box::new(Var("y".to_string())))]);
    let names: Tree<String> = biplate_within_deque(&items);
    assert_eq!(names.clone().list().0, VecDeque::from(["x".to_string(), "y".to_string()]));
    assert_eq!(reconstruct_within_deque(&items, names.clone()), items);
    assert_eq!(
        reconstruct_within_deque(&items, names.map(&|s| format!("{}1", s))),
        VecDeque::from([Var("x1".to_string()), Val(2), Neg(Box::new(Var("y1".to_string())))])
    );
}

#[test]
fn option_of_a_type_with_a_traversal() {
    let none: Option<Expr> = None;
    let nothing: Tree<String> = biplate_within_option(&none);
    assert_eq!(nothing, Tree::Zero);
    assert_eq!(reconstruct_within_option(&none, Tree::<String>::Zero), None);

    let some = Some(Neg(Box::new(Var("y".to_string()))));
    let names: Tree<String> = biplate_within_option(&some);
    assert_eq!(names.clone().list().0, VecDeque::from(["y".to_string()]));
    assert_eq!(reconstruct_within_option(&some, names.clone()), some);
    assert_eq!(
        reconstruct_within_option(&some, names.map(&|_| "z".to_string())),
        Some(Neg(Box::new(Var("z".to_string()))))
    );
}

#[test]
fn impls_option_with_children_bi_test() {
    let expr = Some(10);
    let expected = Some(11);
    let children: Tree<i32> = biplate_within_option(&expr);
    assert_eq!(children.clone().list().0, VecDeque::from([10]));
    let (_, rebuild) = children.list();
    let actual: Option<i32> = reconstruct_within_option(&expr, rebuild(VecDeque::from([11])));
    assert_eq!(actual, expected);
}

#[test]
fn option_option_with_children_bi_test() {
    let expr = Some(10);
    let expected = Some(11);
    let wrapper = SpezBiplate(expr, PhantomData::<i32>);
    let (_, rebuild) = (&&&wrapper).spez_try_biplate().list();
    let actual: Option<i32> = (&&&wrapper).spez_rebuild_biplate(rebuild(VecDeque::from([11])));
    assert_eq!(actual, expected);
}

#[test]
fn try_biplate_to_through_a_collection() {
    let items = vec![Var("x".to_string()), Val(2)];
    let wrapper = SpezBiplate(items.clone(), PhantomData::<String>);
    assert!((&&&wrapper).spez_impls_biplate());
    let names: Tree<String> = (&&&wrapper).spez_try_biplate();
    assert_eq!(names.clone().list().0, VecDeque::from(["x".to_string()]));
    assert_eq!(
        (&&&wrapper).spez_rebuild_biplate(names.map(&|s| s.to_uppercase())),
        vec![Var("X".to_string()), Val(2)]
    );

    let deque = VecDeque::from([Val(1), Val(2)]);
    let wrapper = SpezBiplate(deque.clone(), PhantomData::<Expr>);
    assert!((&&&wrapper).spez_impls_biplate());
    let children: Tree<Expr> = (&&&wrapper).spez_try_biplate();
    assert_eq!(children.clone().list().0, deque);
    assert_eq!((&&&wrapper).spez_rebuild_biplate(children), deque);

    let wrapper = SpezBiplate(Some(Var("x".to_string())), PhantomData::<String>);
    assert!((&&&wrapper).spez_impls_biplate());
    let names: Tree<String> = (&&&wrapper).spez_try_biplate();
    assert_eq!(names, Tree::Many(VecDeque::from([Tree::One("x".to_string())])));

    // A collection of a type without a traversal is a leaf.
    let wrapper = SpezBiplate(vec![Plain(1)], PhantomData::<String>);
    assert!(!(&&&wrapper).spez_impls_biplate());
    let names: Tree<String> = (&&&wrapper).spez_try_biplate();
    assert_eq!(names, Tree::Zero);
    assert_eq!((&&&wrapper).spez_rebuild_biplate(Tree::Zero), vec![Plain(1)]);

    // The call behind three references still finds the other two cases.
    let wrapper = SpezBiplate(Var("x".to_string()), PhantomData::<String>);
    assert!((&&&wrapper).spez_impls_biplate());
    let names: Tree<String> = (&&&wrapper).spez_try_biplate();
    assert_eq!(names.list().0, VecDeque::from(["x".to_string()]));
    let wrapper = SpezBiplate(Plain(1), PhantomData::<String>);
    assert!(!(&&&wrapper).spez_impls_biplate());
}
