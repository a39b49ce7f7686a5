//! The shape tree: the children of one type found in a single traversal step,
//! kept in the structure in which they were found.

use std::collections::VecDeque;
use vstd::prelude::*;

verus! {

/// `Tree` stores the children of type `T` of a value, preserving its structure.
#[derive(Debug, PartialEq, Eq)]
pub enum Tree<T> {
    /// This element contains no children.
    Zero,
    /// This element contains exactly one child.
    One(T),
    /// This element potentially contains many children.
    Many(VecDeque<Tree<T>>),
}

impl<T> View for Tree<T> {
    type V = Shape<T>;

    open spec fn view(&self) -> Shape<T> {
        self.shape()
    }
}

impl<T> Tree<T> {
    /// The model of the tree.
    pub open spec fn shape(self) -> Shape<T>
        decreases self, 0nat,
    {
        match self {
            Tree::Zero => Shape::Zero,
            Tree::One(x) => Shape::One(x),
            Tree::Many(ts) => Shape::Many(Self::shapes(ts, ts@.len())),
        }
    }

    /// The models of the first `n` trees of `ts`.
    pub open spec fn shapes(ts: VecDeque<Tree<T>>, n: nat) -> Seq<Shape<T>>
        decreases ts, n,
    {
        if n == 0 || n > ts@.len() {
            Seq::empty()
        } else {
            proof {
                vstd::std_specs::vecdeque::axiom_vec_dequeue_index_decreases(ts, n - 1);
            }
            Self::shapes(ts, (n - 1) as nat).push(ts@[n - 1].shape())
        }
    }

    /// The row of shapes under a `Many` that holds `ts`.
    pub open spec fn row(ts: VecDeque<Tree<T>>) -> Seq<Shape<T>> {
        Self::shapes(ts, ts@.len())
    }

    /// The first `n` models, one for each tree.
    pub proof fn lemma_shapes(ts: VecDeque<Tree<T>>, n: nat)
        requires
            n <= ts@.len(),
        ensures
            Self::shapes(ts, n).len() == n,
            forall|i: int| 0 <= i < n ==> #[trigger] Self::shapes(ts, n)[i] == ts@[i]@,
        decreases n,
    {
        if n > 0 {
            Self::lemma_shapes(ts, (n - 1) as nat);
        }
    }

    /// The row has one shape for each tree, and each is that tree's view.
    pub proof fn lemma_row(ts: VecDeque<Tree<T>>)
        ensures
            Self::row(ts).len() == ts@.len(),
            forall|i: int| 0 <= i < ts@.len() ==> #[trigger] Self::row(ts)[i] == ts@[i]@,
            Tree::Many(ts)@ == Shape::Many(Self::row(ts)),
    {
        Self::lemma_shapes(ts, ts@.len());
    }
}

/// The mathematical model of a [`Tree`]: the same branching, over sequences.
pub enum Shape<T> {
    /// No children.
    Zero,
    /// Exactly one child.
    One(T),
    /// One sub-shape per field or element, left to right.
    Many(Seq<Shape<T>>),
}

impl<T> Shape<T> {
    /// The leaves of the shape, depth first and left to right.
    pub open spec fn leaves(self) -> Seq<T>
        decreases self,
    {
        match self {
            Shape::Zero => Seq::empty(),
            Shape::One(x) => seq![x],
            Shape::Many(ts) => Self::leaves_of(ts),
        }
    }

    /// The leaves of a row of shapes, in order.
    pub open spec fn leaves_of(ts: Seq<Shape<T>>) -> Seq<T>
        decreases ts,
    {
        if ts.len() == 0 {
            Seq::empty()
        } else {
            Self::leaves_of(ts.drop_last()) + ts.last().leaves()
        }
    }

    /// The shape with the same branching whose leaves are the first
    /// `self.leaves().len()` elements of `xs`, in order.
    pub open spec fn refill<U>(self, xs: Seq<U>) -> Shape<U>
        decreases self,
    {
        match self {
            Shape::Zero => Shape::Zero,
            Shape::One(_) => Shape::One(xs[0]),
            Shape::Many(ts) => Shape::Many(Self::refill_all(ts, xs)),
        }
    }

    /// [`Shape::refill`] along a row of shapes.
    pub open spec fn refill_all<U>(ts: Seq<Shape<T>>, xs: Seq<U>) -> Seq<Shape<U>>
        decreases ts,
    {
        if ts.len() == 0 {
            Seq::empty()
        } else {
            let k = Self::leaves_of(ts.drop_last()).len() as int;
            Self::refill_all(ts.drop_last(), xs).push(ts.last().refill(xs.skip(k)))
        }
    }

    /// The branching alone: every leaf replaced by the unit value.
    pub open spec fn skeleton(self) -> Shape<()>
        decreases self,
    {
        match self {
            Shape::Zero => Shape::Zero,
            Shape::One(_) => Shape::One(()),
            Shape::Many(ts) => Shape::Many(Self::skeleton_all(ts)),
        }
    }

    /// [`Shape::skeleton`] along a row of shapes.
    pub open spec fn skeleton_all(ts: Seq<Shape<T>>) -> Seq<Shape<()>>
        decreases ts,
    {
        if ts.len() == 0 {
            Seq::empty()
        } else {
            Self::skeleton_all(ts.drop_last()).push(ts.last().skeleton())
        }
    }

    /// Two shapes branch alike and have their leaves in the same places.
    pub open spec fn same_structure(self, other: Shape<T>) -> bool {
        self.skeleton() == other.skeleton()
    }

    /// The nesting depth of the shape.
    pub open spec fn height(self) -> nat
        decreases self,
    {
        match self {
            Shape::Zero => 0,
            Shape::One(_) => 0,
            Shape::Many(ts) => 1 + Self::height_of(ts),
        }
    }

    /// The greatest nesting depth in a row of shapes.
    pub open spec fn height_of(ts: Seq<Shape<T>>) -> nat
        decreases ts,
    {
        if ts.len() == 0 {
            0
        } else {
            let h = Self::height_of(ts.drop_last());
            let l = ts.last().height();
            if h >= l {
                h
            } else {
                l
            }
        }
    }

    /// No shape of a row is deeper than the row.
    pub proof fn lemma_height_of(ts: Seq<Shape<T>>, i: int)
        requires
            0 <= i < ts.len(),
        ensures
            ts[i].height() <= Self::height_of(ts),
        decreases ts,
    {
        if i < ts.len() - 1 {
            Self::lemma_height_of(ts.drop_last(), i);
        }
    }
}

impl<T> Shape<T> {
    /// The leaves of a row that ends in `t` are those of the row before it,
    /// then those of `t`.
    pub proof fn lemma_leaves_of_push(ts: Seq<Shape<T>>, t: Shape<T>)
        ensures
            Self::leaves_of(ts.push(t)) == Self::leaves_of(ts) + t.leaves(),
    {
        assert(ts.push(t).drop_last() == ts);
    }

    /// Refilling reads no more of `xs` than the shape has leaves.
    pub proof fn lemma_refill_prefix<U>(self, xs: Seq<U>, ys: Seq<U>)
        requires
            self.leaves().len() <= xs.len(),
            self.leaves().len() <= ys.len(),
            xs.take(self.leaves().len() as int) == ys.take(self.leaves().len() as int),
        ensures
            self.refill(xs) == self.refill(ys),
        decreases self,
    {
        match self {
            Shape::Zero => {},
            Shape::One(_) => {
                assert(xs[0] == xs.take(1)[0]);
                assert(ys[0] == ys.take(1)[0]);
            },
            Shape::Many(ts) => {
                Self::lemma_refill_all_prefix(ts, xs, ys);
            },
        }
    }

    /// [`Shape::lemma_refill_prefix`] along a row of shapes.
    pub proof fn lemma_refill_all_prefix<U>(ts: Seq<Shape<T>>, xs: Seq<U>, ys: Seq<U>)
        requires
            Self::leaves_of(ts).len() <= xs.len(),
            Self::leaves_of(ts).len() <= ys.len(),
            xs.take(Self::leaves_of(ts).len() as int) == ys.take(Self::leaves_of(ts).len() as int),
        ensures
            Self::refill_all(ts, xs) == Self::refill_all(ts, ys),
        decreases ts,
    {
        if ts.len() > 0 {
            let front = ts.drop_last();
            let k = Self::leaves_of(front).len() as int;
            let n = Self::leaves_of(ts).len() as int;
            let m = ts.last().leaves().len() as int;
            assert(n == k + m);
            assert(xs.take(k) =~= xs.take(n).take(k));
            assert(ys.take(k) =~= ys.take(n).take(k));
            Self::lemma_refill_all_prefix(front, xs, ys);
            assert(xs.skip(k).take(m) =~= xs.take(n).skip(k));
            assert(ys.skip(k).take(m) =~= ys.take(n).skip(k));
            ts.last().lemma_refill_prefix(xs.skip(k), ys.skip(k));
        }
    }

    /// Refilling a shape with its own leaves, whatever follows them, gives
    /// the shape back.
    pub proof fn lemma_refill_leaves(self, rest: Seq<T>)
        ensures
            self.refill(self.leaves() + rest) == self,
        decreases self,
    {
        match self {
            Shape::Zero => {},
            Shape::One(x) => {
                assert((self.leaves() + rest)[0] == x);
            },
            Shape::Many(ts) => {
                Self::lemma_refill_all_leaves(ts, rest);
            },
        }
    }

    /// [`Shape::lemma_refill_leaves`] along a row of shapes.
    pub proof fn lemma_refill_all_leaves(ts: Seq<Shape<T>>, rest: Seq<T>)
        ensures
            Self::refill_all(ts, Self::leaves_of(ts) + rest) == ts,
        decreases ts,
    {
        if ts.len() > 0 {
            let front = ts.drop_last();
            let xs = Self::leaves_of(ts) + rest;
            let k = Self::leaves_of(front).len() as int;
            assert(xs =~= Self::leaves_of(front) + (ts.last().leaves() + rest));
            Self::lemma_refill_all_leaves(front, ts.last().leaves() + rest);
            assert(xs.skip(k) =~= ts.last().leaves() + rest);
            ts.last().lemma_refill_leaves(rest);
            assert(front.push(ts.last()) =~= ts);
        } else {
            assert(ts =~= Seq::empty());
        }
    }

    /// The leaves of a refilled shape are the elements it was filled with.
    pub proof fn lemma_leaves_refill<U>(self, xs: Seq<U>)
        requires
            self.leaves().len() <= xs.len(),
        ensures
            self.refill(xs).leaves() == xs.take(self.leaves().len() as int),
        decreases self,
    {
        match self {
            Shape::Zero => {
                assert(xs.take(0) =~= Seq::empty());
            },
            Shape::One(_) => {
                assert(xs.take(1) =~= seq![xs[0]]);
            },
            Shape::Many(ts) => {
                Self::lemma_leaves_refill_all(ts, xs);
            },
        }
    }

    /// [`Shape::lemma_leaves_refill`] along a row of shapes.
    pub proof fn lemma_leaves_refill_all<U>(ts: Seq<Shape<T>>, xs: Seq<U>)
        requires
            Self::leaves_of(ts).len() <= xs.len(),
        ensures
            Self::refill_all(ts, xs).len() == ts.len(),
            Shape::<U>::leaves_of(Self::refill_all(ts, xs)) == xs.take(
                Self::leaves_of(ts).len() as int,
            ),
        decreases ts,
    {
        if ts.len() > 0 {
            let front = ts.drop_last();
            let k = Self::leaves_of(front).len() as int;
            let m = ts.last().leaves().len() as int;
            Self::lemma_leaves_refill_all(front, xs);
            ts.last().lemma_leaves_refill(xs.skip(k));
            Shape::<U>::lemma_leaves_of_push(
                Self::refill_all(front, xs),
                ts.last().refill(xs.skip(k)),
            );
            assert(xs.take(k) + xs.skip(k).take(m) =~= xs.take(k + m));
        } else {
            assert(xs.take(0) =~= Seq::empty());
        }
    }

    /// Refilling keeps the branching.
    pub proof fn lemma_refill_skeleton<U>(self, xs: Seq<U>)
        ensures
            self.refill(xs).skeleton() == self.skeleton(),
        decreases self,
    {
        match self {
            Shape::Zero => {},
            Shape::One(_) => {},
            Shape::Many(ts) => {
                Self::lemma_refill_all_skeleton(ts, xs);
            },
        }
    }

    /// [`Shape::lemma_refill_skeleton`] along a row of shapes.
    pub proof fn lemma_refill_all_skeleton<U>(ts: Seq<Shape<T>>, xs: Seq<U>)
        ensures
            Shape::<U>::skeleton_all(Self::refill_all(ts, xs)) == Self::skeleton_all(ts),
        decreases ts,
    {
        if ts.len() > 0 {
            let front = ts.drop_last();
            let k = Self::leaves_of(front).len() as int;
            Self::lemma_refill_all_skeleton(front, xs);
            ts.last().lemma_refill_skeleton(xs.skip(k));
            let filled = Self::refill_all(ts, xs);
            assert(filled.drop_last() =~= Self::refill_all(front, xs));
        }
    }

    /// The skeleton has one leaf for each leaf of the shape.
    pub proof fn lemma_skeleton_leaves(self)
        ensures
            self.skeleton().leaves().len() == self.leaves().len(),
        decreases self,
    {
        match self {
            Shape::Zero => {},
            Shape::One(_) => {},
            Shape::Many(ts) => {
                Self::lemma_skeleton_all_leaves(ts);
            },
        }
    }

    /// [`Shape::lemma_skeleton_leaves`] along a row of shapes.
    pub proof fn lemma_skeleton_all_leaves(ts: Seq<Shape<T>>)
        ensures
            Self::skeleton_all(ts).len() == ts.len(),
            Shape::<()>::leaves_of(Self::skeleton_all(ts)).len() == Self::leaves_of(ts).len(),
        decreases ts,
    {
        if ts.len() > 0 {
            let front = ts.drop_last();
            Self::lemma_skeleton_all_leaves(front);
            ts.last().lemma_skeleton_leaves();
            Shape::<()>::lemma_leaves_of_push(Self::skeleton_all(front), ts.last().skeleton());
        }
    }

    /// Shapes of the same structure have the same number of leaves.
    pub proof fn lemma_same_structure_leaves(self, other: Shape<T>)
        requires
            self.same_structure(other),
        ensures
            self.leaves().len() == other.leaves().len(),
    {
        self.lemma_skeleton_leaves();
        other.lemma_skeleton_leaves();
    }

    /// Flattening a shape and rebuilding it from the flattened leaves gives
    /// the shape back.
    pub proof fn lemma_round_trip(self)
        ensures
            self.refill(self.leaves()) == self,
    {
        self.lemma_refill_leaves(Seq::empty());
        assert(self.leaves() + Seq::<T>::empty() =~= self.leaves());
    }
}

impl<T> Shape<T> {
    /// The leaves of two rows laid end to end.
    pub proof fn lemma_leaves_of_concat(a: Seq<Shape<T>>, b: Seq<Shape<T>>)
        ensures
            Self::leaves_of(a + b) == Self::leaves_of(a) + Self::leaves_of(b),
        decreases b.len(),
    {
        if b.len() == 0 {
            assert(a + b =~= a);
            assert(Self::leaves_of(a) + Self::leaves_of(b) =~= Self::leaves_of(a));
        } else {
            assert((a + b).drop_last() =~= a + b.drop_last());
            assert((a + b).last() == b.last());
            Self::lemma_leaves_of_concat(a, b.drop_last());
            assert(Self::leaves_of(a + b) =~= Self::leaves_of(a) + Self::leaves_of(b));
        }
    }

    /// The leaves of the first `i + 1` shapes of a row.
    pub proof fn lemma_leaves_of_take(ts: Seq<Shape<T>>, i: int)
        requires
            0 <= i < ts.len(),
        ensures
            Self::leaves_of(ts.take(i + 1)) == Self::leaves_of(ts.take(i)) + ts[i].leaves(),
            Self::leaves_of(ts.take(i + 1)).len() <= Self::leaves_of(ts).len(),
    {
        assert(ts.take(i + 1).drop_last() =~= ts.take(i));
        assert(ts =~= ts.take(i + 1) + ts.skip(i + 1));
        Self::lemma_leaves_of_concat(ts.take(i + 1), ts.skip(i + 1));
    }

    /// Filling the skeleton is filling the shape.
    pub proof fn lemma_skeleton_refill<U>(self, xs: Seq<U>)
        ensures
            self.skeleton().refill(xs) == self.refill(xs),
        decreases self,
    {
        match self {
            Shape::Zero => {},
            Shape::One(_) => {},
            Shape::Many(ts) => {
                Self::lemma_skeleton_all_refill(ts, xs);
            },
        }
    }

    /// [`Shape::lemma_skeleton_refill`] along a row of shapes.
    pub proof fn lemma_skeleton_all_refill<U>(ts: Seq<Shape<T>>, xs: Seq<U>)
        ensures
            Shape::<()>::refill_all(Self::skeleton_all(ts), xs) == Self::refill_all(ts, xs),
        decreases ts,
    {
        if ts.len() > 0 {
            let front = ts.drop_last();
            Self::lemma_skeleton_all_refill(front, xs);
            Self::lemma_skeleton_all_leaves(front);
            let k = Self::leaves_of(front).len() as int;
            ts.last().lemma_skeleton_refill(xs.skip(k));
            assert(Self::skeleton_all(ts).drop_last() =~= Self::skeleton_all(front));
        }
    }
}

impl<T> Tree<T> {
    /// Returns true if the tree contains no `One` anywhere, false otherwise.
    pub fn is_empty(&self) -> (r: bool)
        ensures
            r == (self@.leaves().len() == 0),
        decreases self@.height(),
    {
        match self {
            Tree::Zero => true,
            Tree::One(_) => false,
            Tree::Many(children) => {
                let ghost row = Self::row(*children);
                proof {
                    Self::lemma_row(*children);
                }
                let mut i: usize = 0;
                while i < children.len()
                    invariant
                        i <= children.len(),
                        row.len() == children@.len(),
                        forall|j: int| 0 <= j < children@.len() ==> #[trigger] row[j] == children@[j]@,
                        self@ == Shape::Many(row),
                        Shape::leaves_of(row.take(i as int)).len() == 0,
                    decreases children.len() - i,
                {
                    proof {
                        Shape::lemma_height_of(row, i as int);
                        Shape::lemma_leaves_of_take(row, i as int);
                    }
                    if !children[i].is_empty() {
                        return false;
                    }
                    i += 1;
                }
                assert(row.take(i as int) =~= row);
                true
            },
        }
    }

    /// Appends the leaves of the tree to `out`, depth first and left to right.
    fn flatten_into(self, out: &mut VecDeque<T>)
        ensures
            final(out)@ == old(out)@ + self@.leaves(),
        decreases self@.height(),
    {
        match self {
            Tree::Zero => {
                assert(out@ =~= old(out)@ + self@.leaves());
            },
            Tree::One(x) => {
                out.push_back(x);
                assert(out@ =~= old(out)@ + self@.leaves());
            },
            Tree::Many(ts) => {
                let ghost whole = ts;
                let ghost row = Self::row(ts);
                proof {
                    Self::lemma_row(ts);
                }
                let mut ts = ts;
                let n = ts.len();
                let mut i: usize = 0;
                assert(ts@.skip(0) =~= ts@);
                assert(out@ =~= old(out)@ + Shape::leaves_of(row.take(0)));
                while i < n
                    invariant
                        i <= n,
                        n == whole@.len(),
                        row.len() == n,
                        forall|j: int| 0 <= j < n ==> #[trigger] row[j] == whole@[j]@,
                        self@ == Shape::Many(row),
                        ts@ == whole@.skip(i as int),
                        out@ == old(out)@ + Shape::leaves_of(row.take(i as int)),
                    decreases n - i,
                {
                    let t = ts.pop_front().unwrap();
                    proof {
                        Shape::lemma_height_of(row, i as int);
                        Shape::lemma_leaves_of_take(row, i as int);
                        assert(t == whole@[i as int]);
                        assert(ts@ =~= whole@.skip(i as int + 1));
                    }
                    t.flatten_into(out);
                    assert(out@ =~= old(out)@ + Shape::leaves_of(row.take(i as int + 1)));
                    i += 1;
                }
                assert(row.take(i as int) =~= row);
            },
        }
    }

    /// The branching of the tree, with the unit value at every leaf.
    fn outline(&self) -> (r: Tree<()>)
        ensures
            r@ == self@.skeleton(),
        decreases self@.height(),
    {
        match self {
            Tree::Zero => Tree::Zero,
            Tree::One(_) => Tree::One(()),
            Tree::Many(children) => {
                let ghost row = Self::row(*children);
                proof {
                    Self::lemma_row(*children);
                }
                let mut out: VecDeque<Tree<()>> = VecDeque::new();
                let mut i: usize = 0;
                assert(row.take(0) =~= Seq::empty());
                while i < children.len()
                    invariant
                        i <= children.len(),
                        row.len() == children@.len(),
                        forall|j: int| 0 <= j < children@.len() ==> #[trigger] row[j] == children@[j]@,
                        self@ == Shape::Many(row),
                        out@.len() == i,
                        Tree::<()>::row(out) == Shape::skeleton_all(row.take(i as int)),
                    decreases children.len() - i,
                {
                    proof {
                        Shape::lemma_height_of(row, i as int);
                    }
                    let ghost prev = out;
                    let c = children[i].outline();
                    out.push_back(c);
                    proof {
                        Tree::<()>::lemma_row(prev);
                        Tree::<()>::lemma_row(out);
                        assert(row.take(i as int + 1).drop_last() =~= row.take(i as int));
                        assert(Tree::<()>::row(out) =~= Tree::<()>::row(prev).push(c@));
                    }
                    i += 1;
                }
                assert(row.take(i as int) =~= row);
                Tree::Many(out)
            },
        }
    }
}

impl<T> Tree<T> {
    /// Builds the tree that branches as `skel` does, taking its leaves from
    /// the front of `xs`.
    fn fill(skel: &Tree<()>, xs: &mut VecDeque<T>) -> (t: Tree<T>)
        requires
            skel@.leaves().len() <= old(xs)@.len(),
        ensures
            t@ == skel@.refill(old(xs)@),
            final(xs)@ == old(xs)@.skip(skel@.leaves().len() as int),
        decreases skel@.height(),
    {
        match skel {
            Tree::Zero => {
                assert(xs@ =~= old(xs)@.skip(0));
                Tree::Zero
            },
            Tree::One(_) => {
                let x = xs.pop_front().unwrap();
                assert(xs@ =~= old(xs)@.skip(1));
                Tree::One(x)
            },
            Tree::Many(children) => {
                let ghost row = Tree::<()>::row(*children);
                proof {
                    Tree::<()>::lemma_row(*children);
                }
                let mut out: VecDeque<Tree<T>> = VecDeque::new();
                let mut i: usize = 0;
                proof {
                    assert(row.take(0) =~= Seq::empty());
                    assert(xs@ =~= old(xs)@.skip(0));
                    Self::lemma_row(out);
                    assert(Self::row(out) =~= Shape::refill_all(row.take(0), old(xs)@));
                }
                while i < children.len()
                    invariant
                        i <= children.len(),
                        row.len() == children@.len(),
                        forall|j: int| 0 <= j < children@.len() ==> #[trigger] row[j] == children@[j]@,
                        skel@ == Shape::Many(row),
                        Shape::leaves_of(row).len() <= old(xs)@.len(),
                        Shape::leaves_of(row.take(i as int)).len() <= Shape::leaves_of(row).len(),
                        xs@ == old(xs)@.skip(Shape::leaves_of(row.take(i as int)).len() as int),
                        out@.len() == i,
                        Self::row(out) == Shape::refill_all(row.take(i as int), old(xs)@),
                    decreases children.len() - i,
                {
                    proof {
                        Shape::lemma_height_of(row, i as int);
                        Shape::lemma_leaves_of_take(row, i as int);
                    }
                    let ghost prev = out;
                    let ghost k = Shape::leaves_of(row.take(i as int)).len() as int;
                    let c = Self::fill(&children[i], xs);
                    out.push_back(c);
                    proof {
                        Self::lemma_row(prev);
                        Self::lemma_row(out);
                        assert(row.take(i as int + 1).drop_last() =~= row.take(i as int));
                        assert(Self::row(out) =~= Self::row(prev).push(c@));
                        assert(xs@ =~= old(xs)@.skip(
                            Shape::leaves_of(row.take(i as int + 1)).len() as int,
                        ));
                    }
                    i += 1;
                }
                proof {
                    assert(row.take(i as int) =~= row);
                    Self::lemma_row(out);
                }
                Tree::Many(out)
            },
        }
    }

    /// Returns the tree as a list alongside a function to reconstruct the
    /// tree from a list.
    ///
    /// The list holds the leaves depth first and left to right. The function
    /// takes a list of as many elements and gives the tree of the same
    /// structure that holds them in that order.
    pub fn list(self) -> (r: (VecDeque<T>, impl Fn(VecDeque<T>) -> Tree<T>))
        ensures
            r.0@ == self@.leaves(),
            forall|xs: VecDeque<T>| xs@.len() == self@.leaves().len() ==> call_requires(r.1, (xs,)),
            forall|xs: VecDeque<T>, t: Tree<T>|
                call_ensures(r.1, (xs,), t) ==> t@ == self@.refill(xs@),
    {
        let shape: Ghost<Shape<T>> = Ghost(self@);
        let skel = self.outline();
        let mut out: VecDeque<T> = VecDeque::new();
        self.flatten_into(&mut out);
        assert(out@ =~= shape@.leaves());
        let rebuild = move |xs: VecDeque<T>| -> (t: Tree<T>)
            requires
                xs@.len() == shape@.leaves().len(),
            ensures
                t@ == shape@.refill(xs@),
            {
                let mut rest = xs;
                proof {
                    shape@.lemma_skeleton_leaves();
                    shape@.lemma_skeleton_refill(xs@);
                }
                Self::fill(&skel, &mut rest)
            };
        (out, rebuild)
    }

    /// Applies a function over all elements in the tree.
    ///
    /// The result has the structure of the tree, and each of its leaves is
    /// what `op` gave for the leaf in the same place.
    pub fn map(self, op: &impl Fn(T) -> T) -> (r: Tree<T>)
        requires
            forall|i: int|
                0 <= i < self@.leaves().len() ==> call_requires(
                    op,
                    (#[trigger] self@.leaves()[i],),
                ),
        ensures
            r@.same_structure(self@),
            r@.leaves().len() == self@.leaves().len(),
            forall|i: int|
                0 <= i < self@.leaves().len() ==> call_ensures(
                    op,
                    (self@.leaves()[i],),
                    #[trigger] r@.leaves()[i],
                ),
    {
        let ghost shape = self@;
        let (mut xs, rebuild) = self.list();
        let ghost leaves = xs@;
        let mut ys: VecDeque<T> = VecDeque::new();
        let n = xs.len();
        let mut i: usize = 0;
        assert(xs@ =~= leaves.skip(0));
        while i < n
            invariant
                i <= n,
                n == leaves.len(),
                leaves == shape.leaves(),
                xs@ == leaves.skip(i as int),
                ys@.len() == i,
                forall|j: int| 0 <= j < leaves.len() ==> call_requires(op, (#[trigger] leaves[j],)),
                forall|j: int| 0 <= j < i ==> call_ensures(op, (leaves[j],), #[trigger] ys@[j]),
            decreases n - i,
        {
            let x = xs.pop_front().unwrap();
            assert(x == leaves[i as int]);
            assert(xs@ =~= leaves.skip(i as int + 1));
            let y = op(x);
            ys.push_back(y);
            i += 1;
        }
        proof {
            shape.lemma_leaves_refill(ys@);
            shape.lemma_refill_skeleton(ys@);
            assert(ys@.take(ys@.len() as int) =~= ys@);
        }
        rebuild(ys)
    }
}

impl<T: Clone> Tree<T> {
    /// Appends a clone of each leaf of the tree to `out`, depth first and
    /// left to right.
    fn clone_leaves_into(&self, out: &mut VecDeque<T>)
        ensures
            final(out)@.len() == old(out)@.len() + self@.leaves().len(),
            final(out)@.take(old(out)@.len() as int) == old(out)@,
            forall|i: int|
                0 <= i < self@.leaves().len() ==> cloned(
                    #[trigger] self@.leaves()[i],
                    final(out)@[old(out)@.len() + i],
                ),
        decreases self@.height(),
    {
        match self {
            Tree::Zero => {
                assert(out@.take(old(out)@.len() as int) =~= old(out)@);
            },
            Tree::One(x) => {
                out.push_back(x.clone());
                assert(out@.take(old(out)@.len() as int) =~= old(out)@);
            },
            Tree::Many(children) => {
                let ghost row = Self::row(*children);
                proof {
                    Self::lemma_row(*children);
                    assert(row.take(0) =~= Seq::empty());
                    assert(out@.take(old(out)@.len() as int) =~= old(out)@);
                }
                let mut i: usize = 0;
                while i < children.len()
                    invariant
                        i <= children.len(),
                        row.len() == children@.len(),
                        forall|j: int| 0 <= j < children@.len() ==> #[trigger] row[j] == children@[j]@,
                        self@ == Shape::Many(row),
                        out@.len() == old(out)@.len() + Shape::leaves_of(row.take(i as int)).len(),
                        out@.take(old(out)@.len() as int) == old(out)@,
                        forall|k: int|
                            0 <= k < Shape::leaves_of(row.take(i as int)).len() ==> cloned(
                                #[trigger] Shape::leaves_of(row.take(i as int))[k],
                                out@[old(out)@.len() + k],
                            ),
                    decreases children.len() - i,
                {
                    proof {
                        Shape::lemma_height_of(row, i as int);
                        Shape::lemma_leaves_of_take(row, i as int);
                    }
                    let ghost before = out@;
                    let ghost done = Shape::leaves_of(row.take(i as int));
                    children[i].clone_leaves_into(out);
                    proof {
                        let now = Shape::leaves_of(row.take(i as int + 1));
                        assert(now =~= done + row[i as int].leaves());
                        assert(out@.take(old(out)@.len() as int) =~= before.take(
                            old(out)@.len() as int,
                        )) by {
                            assert(out@.take(before.len() as int) == before);
                        }
                        assert forall|k: int| 0 <= k < now.len() implies cloned(
                            #[trigger] now[k],
                            out@[old(out)@.len() + k],
                        ) by {
                            if k < done.len() {
                                assert(out@.take(before.len() as int)[old(out)@.len() + k]
                                    == before[old(out)@.len() + k]);
                                assert(now[k] == done[k]);
                            } else {
                                assert(now[k] == row[i as int].leaves()[k - done.len()]);
                            }
                        }
                    }
                    i += 1;
                }
                assert(row.take(i as int) =~= row);
            },
        }
    }
}

impl<T: Clone> Clone for Tree<T> {
    /// The clone has the structure of the tree, and each of its leaves is a
    /// clone of the leaf in the same place.
    fn clone(&self) -> (r: Self)
        ensures
            r@.same_structure(self@),
            r@.leaves().len() == self@.leaves().len(),
            forall|i: int|
                0 <= i < self@.leaves().len() ==> cloned(
                    #[trigger] self@.leaves()[i],
                    r@.leaves()[i],
                ),
    {
        let skel = self.outline();
        let mut leaves: VecDeque<T> = VecDeque::new();
        self.clone_leaves_into(&mut leaves);
        proof {
            self@.lemma_skeleton_leaves();
            self@.lemma_skeleton_refill(leaves@);
            self@.lemma_refill_skeleton(leaves@);
            self@.lemma_leaves_refill(leaves@);
            assert(leaves@.take(leaves@.len() as int) =~= leaves@);
        }
        Tree::fill(&skel, &mut leaves)
    }
}

impl<T> Shape<T> {
    /// The skeleton of a row has the skeleton of each shape in its place.
    pub proof fn lemma_skeleton_all_index(ts: Seq<Shape<T>>, i: int)
        requires
            0 <= i < ts.len(),
        ensures
            Self::skeleton_all(ts).len() == ts.len(),
            Self::skeleton_all(ts)[i] == ts[i].skeleton(),
        decreases ts,
    {
        Self::lemma_skeleton_all_leaves(ts);
        Self::lemma_skeleton_all_leaves(ts.drop_last());
        if i < ts.len() - 1 {
            Self::lemma_skeleton_all_index(ts.drop_last(), i);
        }
    }

    /// Rows of the same structure are as long as each other, and their
    /// shapes have the same structure place by place.
    pub proof fn lemma_same_structure_row(a: Seq<Shape<T>>, b: Seq<Shape<T>>, i: int)
        requires
            Shape::Many(a).same_structure(Shape::Many(b)),
            0 <= i < a.len(),
        ensures
            a.len() == b.len(),
            a[i].same_structure(b[i]),
    {
        Self::lemma_skeleton_all_leaves(a);
        Self::lemma_skeleton_all_leaves(b);
        Self::lemma_skeleton_all_index(a, i);
        Self::lemma_skeleton_all_index(b, i);
    }

    /// A shape of the structure of a row is a row of the same length.
    pub proof fn lemma_same_structure_many(self, b: Seq<Shape<T>>)
        requires
            self.same_structure(Shape::Many(b)),
        ensures
            self is Many,
            self->Many_0.len() == b.len(),
    {
        Self::lemma_skeleton_all_leaves(self->Many_0);
        Self::lemma_skeleton_all_leaves(b);
    }
}

impl<T> Tree<T> {
    /// Takes the tree apart: gives the subtrees of a `Many`, and none for a
    /// tree of another kind.
    pub fn into_row(self) -> (r: VecDeque<Tree<T>>)
        ensures
            match self@ {
                Shape::Many(ts) => Self::row(r) == ts,
                _ => r@.len() == 0,
            },
    {
        match self {
            Tree::Many(ts) => {
                proof {
                    Self::lemma_row(ts);
                }
                ts
            },
            _ => VecDeque::new(),
        }
    }
}

impl<T> Shape<T> {
    /// The leaves of a row of one shape are the leaves of the shape.
    pub proof fn lemma_leaves_of_one(s: Shape<T>)
        ensures
            Self::leaves_of(seq![s]) == s.leaves(),
            Shape::Many(seq![s]).leaves() == s.leaves(),
    {
        let row = seq![s];
        assert(row.drop_last() =~= Seq::<Shape<T>>::empty());
        assert(Self::leaves_of(row.drop_last()) =~= Seq::<T>::empty());
        assert(Self::leaves_of(row) =~= s.leaves());
    }

    /// The leaves of a row of two shapes are the leaves of the first, then
    /// those of the second.
    pub proof fn lemma_leaves_of_two(s: Shape<T>, t: Shape<T>)
        ensures
            Self::leaves_of(seq![s, t]) == s.leaves() + t.leaves(),
            Shape::Many(seq![s, t]).leaves() == s.leaves() + t.leaves(),
    {
        let row = seq![s, t];
        assert(row.drop_last() =~= seq![s]);
        Self::lemma_leaves_of_one(s);
    }
}

} // verus!
