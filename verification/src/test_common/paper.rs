//! The expression language of the paper on the pattern.

use crate::traits::biplate::Biplate;
use crate::traits::uniplate::Rank;
use crate::traits::uniplate::Uniplate;
use crate::tree::Shape;
use crate::tree::Tree;
use std::collections::VecDeque;
use vstd::prelude::*;

verus! {

/// An arithmetic expression.
#[derive(Debug, PartialEq, Eq)]
pub enum Expr {
    /// The sum of two expressions.
    Add(Box<Expr>, Box<Expr>),
    /// The difference of two expressions.
    Sub(Box<Expr>, Box<Expr>),
    /// The product of two expressions.
    Mul(Box<Expr>, Box<Expr>),
    /// The quotient of two expressions.
    Div(Box<Expr>, Box<Expr>),
    /// A number.
    Val(i32),
    /// A variable.
    Var(String),
    /// The negation of an expression.
    Neg(Box<Expr>),
}

impl Clone for Expr {
    fn clone(&self) -> (r: Self)
        ensures
            r == *self,
        decreases self,
    {
        match self {
            Expr::Add(a, b) => Expr::Add(Box::new((**a).clone()), Box::new((**b).clone())),
            Expr::Sub(a, b) => Expr::Sub(Box::new((**a).clone()), Box::new((**b).clone())),
            Expr::Mul(a, b) => Expr::Mul(Box::new((**a).clone()), Box::new((**b).clone())),
            Expr::Div(a, b) => Expr::Div(Box::new((**a).clone()), Box::new((**b).clone())),
            Expr::Val(v) => Expr::Val(*v),
            Expr::Var(s) => Expr::Var(s.clone()),
            Expr::Neg(a) => Expr::Neg(Box::new((**a).clone())),
        }
    }
}

impl Expr {
    /// The nesting depth of the expression.
    pub open spec fn height(self) -> nat
        decreases self,
    {
        match self {
            Expr::Add(a, b) => 1 + if a.height() >= b.height() {
                a.height()
            } else {
                b.height()
            },
            Expr::Sub(a, b) => 1 + if a.height() >= b.height() {
                a.height()
            } else {
                b.height()
            },
            Expr::Mul(a, b) => 1 + if a.height() >= b.height() {
                a.height()
            } else {
                b.height()
            },
            Expr::Div(a, b) => 1 + if a.height() >= b.height() {
                a.height()
            } else {
                b.height()
            },
            Expr::Val(_) => 0,
            Expr::Var(_) => 0,
            Expr::Neg(a) => 1 + a.height(),
        }
    }

    /// The shape of the children of an expression with two operands.
    pub open spec fn pair(a: Expr, b: Expr) -> Shape<Expr> {
        Shape::Many(seq![Shape::One(a), Shape::One(b)])
    }

    /// The shape of the children of an expression with one field.
    pub open spec fn single(s: Shape<Expr>) -> Shape<Expr> {
        Shape::Many(seq![s])
    }

    /// The children of each kind of expression.
    pub proof fn lemma_children(self)
        ensures
            self.shape().leaves() == match self {
                Expr::Add(a, b) => seq![*a, *b],
                Expr::Sub(a, b) => seq![*a, *b],
                Expr::Mul(a, b) => seq![*a, *b],
                Expr::Div(a, b) => seq![*a, *b],
                Expr::Val(_) => Seq::<Expr>::empty(),
                Expr::Var(_) => Seq::<Expr>::empty(),
                Expr::Neg(a) => seq![*a],
            },
    {
        match self {
            Expr::Add(a, b) => {
                Shape::lemma_leaves_of_two(Shape::One(*a), Shape::One(*b));
                assert(self.shape().leaves() =~= seq![*a, *b]);
            },
            Expr::Sub(a, b) => {
                Shape::lemma_leaves_of_two(Shape::One(*a), Shape::One(*b));
                assert(self.shape().leaves() =~= seq![*a, *b]);
            },
            Expr::Mul(a, b) => {
                Shape::lemma_leaves_of_two(Shape::One(*a), Shape::One(*b));
                assert(self.shape().leaves() =~= seq![*a, *b]);
            },
            Expr::Div(a, b) => {
                Shape::lemma_leaves_of_two(Shape::One(*a), Shape::One(*b));
                assert(self.shape().leaves() =~= seq![*a, *b]);
            },
            Expr::Val(_) => {
                Shape::<Expr>::lemma_leaves_of_one(Shape::Zero);
            },
            Expr::Var(_) => {
                Shape::<Expr>::lemma_leaves_of_one(Shape::Zero);
            },
            Expr::Neg(a) => {
                Shape::lemma_leaves_of_one(Shape::One(*a));
                assert(self.shape().leaves() =~= seq![*a]);
            },
        }
    }

    /// The tree of the children of an expression with two operands.
    fn pair_tree(a: &Expr, b: &Expr) -> (t: Tree<Expr>)
        ensures
            t@ == Self::pair(*a, *b),
    {
        let mut row: VecDeque<Tree<Expr>> = VecDeque::new();
        row.push_back(Tree::One(a.clone()));
        row.push_back(Tree::One(b.clone()));
        proof {
            Tree::lemma_row(row);
            assert(Tree::row(row) =~= seq![Shape::One(*a), Shape::One(*b)]);
        }
        Tree::Many(row)
    }

    /// The tree of the children of an expression with one field.
    fn single_tree(s: Tree<Expr>) -> (t: Tree<Expr>)
        ensures
            t@ == Self::single(s@),
    {
        let mut row: VecDeque<Tree<Expr>> = VecDeque::new();
        row.push_back(s);
        proof {
            Tree::lemma_row(row);
            assert(Tree::row(row) =~= seq![s@]);
        }
        Tree::Many(row)
    }
}

impl Uniplate for Expr {
    open spec fn shape(&self) -> Shape<Expr> {
        match self {
            Expr::Add(a, b) => Expr::pair(**a, **b),
            Expr::Sub(a, b) => Expr::pair(**a, **b),
            Expr::Mul(a, b) => Expr::pair(**a, **b),
            Expr::Div(a, b) => Expr::pair(**a, **b),
            Expr::Val(_) => Expr::single(Shape::Zero),
            Expr::Var(_) => Expr::single(Shape::Zero),
            Expr::Neg(a) => Expr::single(Shape::One(**a)),
        }
    }

    open spec fn rebuilt(&self, children: Shape<Expr>) -> Expr {
        let xs = children.leaves();
        match self {
            Expr::Add(_, _) => Expr::Add(Box::new(xs[0]), Box::new(xs[1])),
            Expr::Sub(_, _) => Expr::Sub(Box::new(xs[0]), Box::new(xs[1])),
            Expr::Mul(_, _) => Expr::Mul(Box::new(xs[0]), Box::new(xs[1])),
            Expr::Div(_, _) => Expr::Div(Box::new(xs[0]), Box::new(xs[1])),
            Expr::Val(v) => Expr::Val(*v),
            Expr::Var(s) => Expr::Var(*s),
            Expr::Neg(_) => Expr::Neg(Box::new(xs[0])),
        }
    }

    open spec fn rank(&self) -> Rank {
        self.height()
    }

    proof fn lemma_rebuilt_shape(&self) {
        self.lemma_children();
    }

    proof fn lemma_child_rank(&self, child: Expr) {
        self.lemma_children();
    }

    proof fn lemma_clone(&self, other: Expr) {
    }

    fn uniplate(&self) -> (children: Tree<Expr>) {
        match self {
            Expr::Add(a, b) => Expr::pair_tree(a, b),
            Expr::Sub(a, b) => Expr::pair_tree(a, b),
            Expr::Mul(a, b) => Expr::pair_tree(a, b),
            Expr::Div(a, b) => Expr::pair_tree(a, b),
            Expr::Val(_) => Expr::single_tree(Tree::Zero),
            Expr::Var(_) => Expr::single_tree(Tree::Zero),
            Expr::Neg(a) => Expr::single_tree(Tree::One((**a).clone())),
        }
    }

    fn reconstruct(&self, children: Tree<Expr>) -> (node: Expr) {
        proof {
            children@.lemma_same_structure_leaves(self.shape());
            self.lemma_children();
        }
        let (mut xs, _) = children.list();
        match self {
            Expr::Add(_, _) => {
                let a = xs.pop_front().unwrap();
                let b = xs.pop_front().unwrap();
                Expr::Add(Box::new(a), Box::new(b))
            },
            Expr::Sub(_, _) => {
                let a = xs.pop_front().unwrap();
                let b = xs.pop_front().unwrap();
                Expr::Sub(Box::new(a), Box::new(b))
            },
            Expr::Mul(_, _) => {
                let a = xs.pop_front().unwrap();
                let b = xs.pop_front().unwrap();
                Expr::Mul(Box::new(a), Box::new(b))
            },
            Expr::Div(_, _) => {
                let a = xs.pop_front().unwrap();
                let b = xs.pop_front().unwrap();
                Expr::Div(Box::new(a), Box::new(b))
            },
            Expr::Val(v) => Expr::Val(*v),
            Expr::Var(s) => Expr::Var(s.clone()),
            Expr::Neg(_) => {
                let a = xs.pop_front().unwrap();
                Expr::Neg(Box::new(a))
            },
        }
    }
}

impl Biplate<Expr> for Expr {
    open spec fn shape_bi(&self) -> Shape<Expr> {
        Shape::One(*self)
    }

    open spec fn rebuilt_bi(&self, children: Shape<Expr>) -> Expr {
        children->One_0
    }

    proof fn lemma_rebuilt_shape_bi(&self) {
    }

    fn biplate(&self) -> (children: Tree<Expr>) {
        Tree::One(self.clone())
    }

    fn reconstruct_bi(&self, children: Tree<Expr>) -> (node: Expr) {
        let (mut list, _) = children.list();
        list.pop_front().unwrap()
    }
}

impl Expr {
    /// The names of the variables in the expression, in the structure in
    /// which they lie.
    pub open spec fn names(self) -> Shape<String>
        decreases self,
    {
        match self {
            Expr::Add(a, b) => Shape::Many(seq![a.names(), b.names()]),
            Expr::Sub(a, b) => Shape::Many(seq![a.names(), b.names()]),
            Expr::Mul(a, b) => Shape::Many(seq![a.names(), b.names()]),
            Expr::Div(a, b) => Shape::Many(seq![a.names(), b.names()]),
            Expr::Val(_) => Shape::Many(seq![Shape::Zero]),
            Expr::Var(s) => Shape::Many(seq![Shape::One(s)]),
            Expr::Neg(a) => Shape::Many(seq![a.names()]),
        }
    }

    /// The expression with the names in `names` for the names of its
    /// variables.
    pub open spec fn renamed(self, names: Shape<String>) -> Expr
        decreases self,
    {
        let row = names->Many_0;
        match self {
            Expr::Add(a, b) => Expr::Add(Box::new(a.renamed(row[0])), Box::new(b.renamed(row[1]))),
            Expr::Sub(a, b) => Expr::Sub(Box::new(a.renamed(row[0])), Box::new(b.renamed(row[1]))),
            Expr::Mul(a, b) => Expr::Mul(Box::new(a.renamed(row[0])), Box::new(b.renamed(row[1]))),
            Expr::Div(a, b) => Expr::Div(Box::new(a.renamed(row[0])), Box::new(b.renamed(row[1]))),
            Expr::Val(v) => Expr::Val(v),
            Expr::Var(_) => Expr::Var(row[0]->One_0),
            Expr::Neg(a) => Expr::Neg(Box::new(a.renamed(row[0]))),
        }
    }

    /// Renaming an expression to the names it has gives the expression.
    pub proof fn lemma_renamed_names(self)
        ensures
            self.renamed(self.names()) == self,
        decreases self,
    {
        match self {
            Expr::Add(a, b) => {
                a.lemma_renamed_names();
                b.lemma_renamed_names();
            },
            Expr::Sub(a, b) => {
                a.lemma_renamed_names();
                b.lemma_renamed_names();
            },
            Expr::Mul(a, b) => {
                a.lemma_renamed_names();
                b.lemma_renamed_names();
            },
            Expr::Div(a, b) => {
                a.lemma_renamed_names();
                b.lemma_renamed_names();
            },
            Expr::Val(_) => {},
            Expr::Var(_) => {},
            Expr::Neg(a) => {
                a.lemma_renamed_names();
            },
        }
    }
}

impl Expr {
    /// The tree of the names of an expression with two operands.
    fn two_names(a: Tree<String>, b: Tree<String>) -> (t: Tree<String>)
        ensures
            t@ == Shape::Many(seq![a@, b@]),
    {
        let mut row: VecDeque<Tree<String>> = VecDeque::new();
        row.push_back(a);
        row.push_back(b);
        proof {
            Tree::lemma_row(row);
            assert(Tree::row(row) =~= seq![a@, b@]);
        }
        Tree::Many(row)
    }

    /// The tree of the names of an expression with one field.
    fn one_name(a: Tree<String>) -> (t: Tree<String>)
        ensures
            t@ == Shape::Many(seq![a@]),
    {
        let mut row: VecDeque<Tree<String>> = VecDeque::new();
        row.push_back(a);
        proof {
            Tree::lemma_row(row);
            assert(Tree::row(row) =~= seq![a@]);
        }
        Tree::Many(row)
    }

    /// Takes a row of names apart: gives the tree in the first place and
    /// those after it.
    fn first_names(row: VecDeque<Tree<String>>) -> (r: (Tree<String>, VecDeque<Tree<String>>))
        requires
            row@.len() > 0,
        ensures
            r.0@ == Tree::row(row)[0],
            Tree::row(r.1) == Tree::row(row).drop_first(),
    {
        let mut rest = row;
        proof {
            Tree::lemma_row(row);
        }
        let first = rest.pop_front().unwrap();
        proof {
            Tree::lemma_row(rest);
            assert(Tree::row(rest) =~= Tree::row(row).drop_first());
        }
        (first, rest)
    }
}

impl Biplate<String> for Expr {
    open spec fn shape_bi(&self) -> Shape<String> {
        self.names()
    }

    open spec fn rebuilt_bi(&self, children: Shape<String>) -> Expr {
        self.renamed(children)
    }

    proof fn lemma_rebuilt_shape_bi(&self) {
        self.lemma_renamed_names();
    }

    fn biplate(&self) -> (children: Tree<String>)
        decreases self,
    {
        match self {
            Expr::Add(a, b) => Expr::two_names(a.biplate(), b.biplate()),
            Expr::Sub(a, b) => Expr::two_names(a.biplate(), b.biplate()),
            Expr::Mul(a, b) => Expr::two_names(a.biplate(), b.biplate()),
            Expr::Div(a, b) => Expr::two_names(a.biplate(), b.biplate()),
            Expr::Val(_) => Expr::one_name(Tree::Zero),
            Expr::Var(s) => Expr::one_name(Tree::One(s.clone())),
            Expr::Neg(a) => Expr::one_name(a.biplate()),
        }
    }

    fn reconstruct_bi(&self, children: Tree<String>) -> (node: Expr)
        decreases self,
    {
        let ghost given = children@->Many_0;
        let ghost names = self.names()->Many_0;
        proof {
            children@.lemma_same_structure_many(names);
            Shape::lemma_same_structure_row(given, names, 0);
        }
        let row = children.into_row();
        proof {
            Tree::lemma_row(row);
        }
        let (first, rest) = Expr::first_names(row);
        match self {
            Expr::Add(a, b) => {
                proof {
                    Tree::lemma_row(rest);
                    Shape::lemma_same_structure_row(given, names, 1);
                }
                let (second, _) = Expr::first_names(rest);
                Expr::Add(Box::new(a.reconstruct_bi(first)), Box::new(b.reconstruct_bi(second)))
            },
            Expr::Sub(a, b) => {
                proof {
                    Tree::lemma_row(rest);
                    Shape::lemma_same_structure_row(given, names, 1);
                }
                let (second, _) = Expr::first_names(rest);
                Expr::Sub(Box::new(a.reconstruct_bi(first)), Box::new(b.reconstruct_bi(second)))
            },
            Expr::Mul(a, b) => {
                proof {
                    Tree::lemma_row(rest);
                    Shape::lemma_same_structure_row(given, names, 1);
                }
                let (second, _) = Expr::first_names(rest);
                Expr::Mul(Box::new(a.reconstruct_bi(first)), Box::new(b.reconstruct_bi(second)))
            },
            Expr::Div(a, b) => {
                proof {
                    Tree::lemma_row(rest);
                    Shape::lemma_same_structure_row(given, names, 1);
                }
                let (second, _) = Expr::first_names(rest);
                Expr::Div(Box::new(a.reconstruct_bi(first)), Box::new(b.reconstruct_bi(second)))
            },
            Expr::Val(v) => Expr::Val(*v),
            Expr::Var(_) => {
                let (mut list, _) = first.list();
                Expr::Var(list.pop_front().unwrap())
            },
            Expr::Neg(a) => Expr::Neg(Box::new(a.reconstruct_bi(first))),
        }
    }
}

} // verus!
