//! Traversal of the values of a type that lie within a value of the same type.

use crate::error::UniplateError;
use crate::traits::context::ContextIter;
use crate::traits::holes::Hole;
use crate::traits::holes::HoleView;
use crate::traits::holes::HolesIter;
use crate::tree::Shape;
use crate::tree::Tree;
use std::collections::VecDeque;
use vstd::prelude::*;

verus! {

/// The type of the measure by which every child is less than its parent.
pub type Rank = nat;

/// `Uniplate` for type `T` operates over all values of type `T` within `T`.
///
/// An implementation gives the one traversal step: the shape of the direct
/// children of a node, and the node put together again around a shape of
/// replacement children.
///
/// Beside the two functions of the step stand their model (`shape`,
/// `rebuilt`, `rank`) and the laws that every implementation has to meet.
/// The model and the laws are for proofs alone: they are never called when
/// the program runs.
pub trait Uniplate: Sized + Clone {
    /// The direct children of the node, in the structure in which they lie.
    spec fn shape(&self) -> Shape<Self>;

    /// The node with `children` in the place of its direct children.
    spec fn rebuilt(&self, children: Shape<Self>) -> Self;

    /// A measure that every child has less of than its parent.
    spec fn rank(&self) -> Rank;

    /// Putting a node together around its own children gives the node.
    proof fn lemma_rebuilt_shape(&self)
        ensures
            self.rebuilt(self.shape()) == *self,
    ;

    /// Every child ranks below its parent.
    proof fn lemma_child_rank(&self, child: Self)
        ensures
            self.shape().leaves().contains(child) ==> child.rank() < self.rank(),
    ;

    /// A clone of a node is equal to the node.
    proof fn lemma_clone(&self, other: Self)
        requires
            cloned(*self, other),
        ensures
            other == *self,
    ;

    /// The direct children of the node, in the structure in which they lie.
    fn uniplate(&self) -> (children: Tree<Self>)
        ensures
            children@ == self.shape(),
    ;

    /// Puts the node together again around `children`, which must have the
    /// structure that [`Uniplate::uniplate`] gave.
    fn reconstruct(&self, children: Tree<Self>) -> (node: Self)
        requires
            children@.same_structure(self.shape()),
        ensures
            node == self.rebuilt(children@),
    ;
}

/// The direct children of `n`, left to right.
pub open spec fn children<T: Uniplate>(n: T) -> Seq<T> {
    n.shape().leaves()
}

/// Each of the children of `n` ranks below `n`.
pub proof fn lemma_nth_child_rank<T: Uniplate>(n: T, i: int)
    requires
        0 <= i < children(n).len(),
    ensures
        children(n)[i].rank() < n.rank(),
{
    assert(n.shape().leaves().contains(children(n)[i]));
    n.lemma_child_rank(children(n)[i]);
}

/// `n` with `cs` in the place of its direct children.
pub open spec fn with_children<T: Uniplate>(n: T, cs: Seq<T>) -> T {
    n.rebuilt(n.shape().refill(cs))
}

/// `n` followed by everything below it, in preorder.
pub open spec fn universe<T: Uniplate>(n: T) -> Seq<T>
    decreases n.rank(), children(n).len() + 1,
{
    seq![n] + universe_upto(n, children(n).len())
}

/// The universes of the first `k` children of `n`, one after the other.
pub open spec fn universe_upto<T: Uniplate>(n: T, k: nat) -> Seq<T>
    decreases n.rank(), k,
{
    if k == 0 || k > children(n).len() {
        Seq::empty()
    } else {
        proof {
            lemma_nth_child_rank(n, k - 1);
        }
        universe_upto(n, (k - 1) as nat) + universe(children(n)[k - 1])
    }
}

/// The universes of the nodes of `cs`, one after the other.
pub open spec fn universe_all<T: Uniplate>(cs: Seq<T>) -> Seq<T>
    decreases cs.len(),
{
    if cs.len() == 0 {
        Seq::empty()
    } else {
        universe_all(cs.drop_last()) + universe(cs.last())
    }
}

/// `f` returns what `g` says, whenever it returns.
pub open spec fn computes<A, B, F: Fn(A) -> B>(f: F, g: spec_fn(A) -> B) -> bool {
    forall|x: A, y: B| call_ensures(f, (x,), y) ==> y == g(x)
}

/// `f` returns what `g` says of the node and of the folded children,
/// whenever it returns.
pub open spec fn computes_fold<T, R, F: Fn(T, VecDeque<R>) -> R>(
    f: F,
    g: spec_fn(T, Seq<R>) -> R,
) -> bool {
    forall|x: T, rs: VecDeque<R>, y: R| call_ensures(f, (x, rs), y) ==> y == g(x, rs@)
}

/// `n` with `g` applied to each of its direct children.
pub open spec fn descended<T: Uniplate>(n: T, g: spec_fn(T) -> T) -> T {
    with_children(n, children(n).map_values(g))
}

/// `n` with `g` applied to every node, bottom up.
pub open spec fn transformed<T: Uniplate>(n: T, g: spec_fn(T) -> T) -> T
    decreases n.rank(), children(n).len() + 1,
{
    g(with_children(n, transformed_upto(n, g, children(n).len())))
}

/// The first `k` children of `n`, each transformed by `g`.
pub open spec fn transformed_upto<T: Uniplate>(n: T, g: spec_fn(T) -> T, k: nat) -> Seq<T>
    decreases n.rank(), k,
{
    if k == 0 || k > children(n).len() {
        Seq::empty()
    } else {
        proof {
            lemma_nth_child_rank(n, k - 1);
        }
        transformed_upto(n, g, (k - 1) as nat).push(transformed(children(n)[k - 1], g))
    }
}

/// `n` with the rule `g` applied to every node, bottom up: where the rule
/// gives nothing, the node stays as its rewritten children make it.
pub open spec fn rewritten<T: Uniplate>(n: T, g: spec_fn(T) -> Option<T>) -> T
    decreases n.rank(), children(n).len() + 1,
{
    let node = with_children(n, rewritten_upto(n, g, children(n).len()));
    match g(node) {
        None => node,
        Some(m) => m,
    }
}

/// The first `k` children of `n`, each rewritten by `g`.
pub open spec fn rewritten_upto<T: Uniplate>(
    n: T,
    g: spec_fn(T) -> Option<T>,
    k: nat,
) -> Seq<T>
    decreases n.rank(), k,
{
    if k == 0 || k > children(n).len() {
        Seq::empty()
    } else {
        proof {
            lemma_nth_child_rank(n, k - 1);
        }
        rewritten_upto(n, g, (k - 1) as nat).push(rewritten(children(n)[k - 1], g))
    }
}

/// The fold of `n`: `g` applied to `n` and to the folds of its children.
pub open spec fn folded<T: Uniplate, R>(n: T, g: spec_fn(T, Seq<R>) -> R) -> R
    decreases n.rank(), children(n).len() + 1,
{
    g(n, folded_upto(n, g, children(n).len()))
}

/// The folds of the first `k` children of `n`.
pub open spec fn folded_upto<T: Uniplate, R>(n: T, g: spec_fn(T, Seq<R>) -> R, k: nat) -> Seq<R>
    decreases n.rank(), k,
{
    if k == 0 || k > children(n).len() {
        Seq::empty()
    } else {
        proof {
            lemma_nth_child_rank(n, k - 1);
        }
        folded_upto(n, g, (k - 1) as nat).push(folded(children(n)[k - 1], g))
    }
}

/// Each value of `ys` is one that `f` may give for the value in the same
/// place in `xs`.
pub open spec fn maps_to<T, F: Fn(T) -> T>(f: F, xs: Seq<T>, ys: Seq<T>) -> bool {
    &&& ys.len() == xs.len()
    &&& forall|i: int| 0 <= i < xs.len() ==> call_ensures(f, (xs[i],), #[trigger] ys[i])
}

/// `r` is `n` with each of its direct children replaced by what `f` may
/// give for it.
pub open spec fn descends_to<T: Uniplate, F: Fn(T) -> T>(n: T, f: F, r: T) -> bool {
    exists|ys: Seq<T>| maps_to(f, children(n), ys) && r == with_children(n, ys)
}

/// `r` is what `f` may give for `n` where it is applied to every node,
/// bottom up: for `n` put together around what it may give for each of its
/// children.
pub open spec fn transforms_to<T: Uniplate, F: Fn(T) -> T>(n: T, f: F, r: T) -> bool
    decreases n.rank(), 1nat,
{
    exists|cs: Seq<T>|
        {
            &&& cs.len() == children(n).len()
            &&& forall|i: int| #[trigger] transforms_child(n, f, cs, i)
            &&& call_ensures(f, (with_children(n, cs),), r)
        }
}

/// `cs[i]` is what `f` may give for the child of `n` at place `i`, where
/// there is one.
pub open spec fn transforms_child<T: Uniplate, F: Fn(T) -> T>(
    n: T,
    f: F,
    cs: Seq<T>,
    i: int,
) -> bool
    decreases n.rank(), 0nat,
{
    if 0 <= i < children(n).len() {
        proof {
            lemma_nth_child_rank(n, i);
        }
        transforms_to(children(n)[i], f, cs[i])
    } else {
        true
    }
}

/// `r` is what the rule `f` may make of `n` where it is applied to every
/// node, bottom up.
pub open spec fn rewrites_to<T: Uniplate, F: Fn(T) -> Option<T>>(n: T, f: F, r: T) -> bool
    decreases n.rank(), 1nat,
{
    exists|cs: Seq<T>, o: Option<T>|
        {
            &&& cs.len() == children(n).len()
            &&& forall|i: int| #[trigger] rewrites_child(n, f, cs, i)
            &&& call_ensures(f, (with_children(n, cs),), o)
            &&& r == match o {
                None => with_children(n, cs),
                Some(m) => m,
            }
        }
}

/// `cs[i]` is what the rule `f` may make of the child of `n` at place `i`,
/// where there is one.
pub open spec fn rewrites_child<T: Uniplate, F: Fn(T) -> Option<T>>(
    n: T,
    f: F,
    cs: Seq<T>,
    i: int,
) -> bool
    decreases n.rank(), 0nat,
{
    if 0 <= i < children(n).len() {
        proof {
            lemma_nth_child_rank(n, i);
        }
        rewrites_to(children(n)[i], f, cs[i])
    } else {
        true
    }
}

/// `r` is what `f` may give for `n` and what it may give for each of its
/// children.
pub open spec fn folds_to<T: Uniplate, R, F: Fn(T, VecDeque<R>) -> R>(n: T, f: F, r: R) -> bool
    decreases n.rank(), 1nat,
{
    exists|rs: VecDeque<R>|
        {
            &&& rs@.len() == children(n).len()
            &&& forall|i: int| #[trigger] folds_child(n, f, rs@, i)
            &&& call_ensures(f, (n, rs), r)
        }
}

/// `rs[i]` is what `f` may give for the child of `n` at place `i`, where
/// there is one.
pub open spec fn folds_child<T: Uniplate, R, F: Fn(T, VecDeque<R>) -> R>(
    n: T,
    f: F,
    rs: Seq<R>,
    i: int,
) -> bool
    decreases n.rank(), 0nat,
{
    if 0 <= i < children(n).len() {
        proof {
            lemma_nth_child_rank(n, i);
        }
        folds_to(children(n)[i], f, rs[i])
    } else {
        true
    }
}

/// The operations that every [`Uniplate`] type has.
pub trait UniplateExt: Uniplate {
    /// Gets the direct children (maximal substructures) of a node.
    fn children(&self) -> (r: VecDeque<Self>)
        ensures
            r@ == children(*self),
    ;

    /// Reconstructs the node with the given children.
    ///
    /// Fails if `children` has not as many elements as the node has
    /// children.
    fn with_children(&self, children: VecDeque<Self>) -> (r: Result<Self, UniplateError>)
        ensures
            children@.len() == crate::traits::uniplate::children(*self).len() ==> r == Ok::<
                Self,
                UniplateError,
            >(with_children(*self, children@)),
            children@.len() != crate::traits::uniplate::children(*self).len() ==> r == Err::<
                Self,
                UniplateError,
            >(
                UniplateError::WrongNumberOfChildren(
                    crate::traits::uniplate::children(*self).len() as usize,
                    children@.len() as usize,
                ),
            ),
    ;

    /// Gets all children of a node, including itself and all children.
    ///
    /// Universe does a preorder traversal: it returns a given node first,
    /// followed by its children from left to right.
    fn universe(&self) -> (r: VecDeque<Self>)
        ensures
            r@ == universe(*self),
    ;

    /// Applies a function to all direct children of this node.
    fn descend(&self, op: &impl Fn(Self) -> Self) -> (r: Self)
        requires
            forall|i: int|
                0 <= i < crate::traits::uniplate::children(*self).len() ==> call_requires(
                    op,
                    (#[trigger] crate::traits::uniplate::children(*self)[i],),
                ),
        ensures
            descends_to(*self, op, r),
            forall|g: spec_fn(Self) -> Self| #[trigger] computes(op, g) ==> r == descended(*self, g),
    ;

    /// Applies the given function to all nodes bottom up.
    fn transform(&self, f: &impl Fn(Self) -> Self) -> (r: Self)
        requires
            forall|x: Self| call_requires(f, (x,)),
        ensures
            transforms_to(*self, f, r),
            forall|g: spec_fn(Self) -> Self| #[trigger] computes(f, g) ==> r == transformed(*self, g),
    ;

    /// Rewrites by applying a rule everywhere it can, bottom up.
    fn rewrite(&self, f: &impl Fn(Self) -> Option<Self>) -> (r: Self)
        requires
            forall|x: Self| call_requires(f, (x,)),
        ensures
            rewrites_to(*self, f, r),
            forall|g: spec_fn(Self) -> Option<Self>| #[trigger]
                computes(f, g) ==> r == rewritten(*self, g),
    ;

    /// Performs a fold-like computation on each value.
    ///
    /// Working from the bottom up, this applies the given callback function
    /// to each node and the folds of its children.
    fn cata<R>(&self, op: &impl Fn(Self, VecDeque<R>) -> R) -> (r: R)
        requires
            forall|x: Self, rs: VecDeque<R>| call_requires(op, (x, rs)),
        ensures
            folds_to(*self, op, r),
            forall|g: spec_fn(Self, Seq<R>) -> R| #[trigger]
                computes_fold(op, g) ==> r == folded(*self, g),
    ;

    /// Gives the direct children of the node one after the other, each
    /// paired with the hole where the child was, which can be filled with a
    /// new value.
    fn holes(&self) -> (it: HolesIter<Self>)
        ensures
            it.wf(),
            it.parent() == *self,
            it.position() == 0,
            it.remaining() == children(*self),
    ;

    /// Gets the nth one holed context: the node with a hole where the child
    /// at place `n` is, counted from zero, or nothing where the node has
    /// not as many children.
    fn one_holed_context(&self, n: usize) -> (r: Option<Hole<Self>>)
        ensures
            r is Some == (n < children(*self).len()),
            r matches Some(hole) ==> hole.wf() && hole@ == (HoleView {
                parent: *self,
                children: children(*self),
                index: n as nat,
            }),
    ;

    /// Gives the universe of the node one after the other, each node paired
    /// with its place in the whole, which can be filled with a new value.
    ///
    /// To efficiently update multiple values in a single traversal, use
    /// [`Zipper`](crate::zipper::Zipper) instead.
    fn contexts(&self) -> (it: ContextIter<Self>)
        ensures
            it.wf(),
            it.root() == *self,
            it.remaining() == universe(*self),
    ;
}

impl<T: Uniplate> UniplateExt for T {
    fn children(&self) -> (r: VecDeque<Self>) {
        let (list, _) = self.uniplate().list();
        list
    }

    fn with_children(&self, children: VecDeque<Self>) -> (r: Result<Self, UniplateError>) {
        let (old_children, rebuild) = self.uniplate().list();
        if old_children.len() != children.len() {
            Err(UniplateError::WrongNumberOfChildren(old_children.len(), children.len()))
        } else {
            proof {
                self.shape().lemma_refill_skeleton(children@);
            }
            Ok(self.reconstruct(rebuild(children)))
        }
    }

    fn universe(&self) -> (r: VecDeque<Self>)
        decreases self.rank(),
    {
        let mut results: VecDeque<Self> = VecDeque::new();
        let me = self.clone();
        proof {
            self.lemma_clone(me);
        }
        results.push_back(me);
        let cs = self.children();
        let mut i: usize = 0;
        assert(results@ =~= seq![*self] + universe_upto(*self, 0));
        while i < cs.len()
            invariant
                i <= cs.len(),
                cs@ == crate::traits::uniplate::children(*self),
                results@ == seq![*self] + universe_upto(*self, i as nat),
            decreases cs.len() - i,
        {
            proof {
                lemma_nth_child_rank(*self, i as int);
            }
            let mut sub = cs[i].universe();
            results.append(&mut sub);
            assert(results@ =~= seq![*self] + universe_upto(*self, (i + 1) as nat));
            i += 1;
        }
        results
    }

    fn holes(&self) -> (it: HolesIter<Self>) {
        let me = self.clone();
        proof {
            self.lemma_clone(me);
        }
        HolesIter::new(me)
    }

    fn one_holed_context(&self, n: usize) -> (r: Option<Hole<Self>>) {
        self.holes().nth_hole(n)
    }

    fn contexts(&self) -> (it: ContextIter<Self>) {
        let me = self.clone();
        proof {
            self.lemma_clone(me);
        }
        ContextIter::new(me)
    }

    fn descend(&self, op: &impl Fn(Self) -> Self) -> (r: Self) {
        let shape = self.uniplate();
        assert forall|i: int| 0 <= i < shape@.leaves().len() implies call_requires(
            op,
            (#[trigger] shape@.leaves()[i],),
        ) by {
            assert(shape@.leaves()[i] == crate::traits::uniplate::children(*self)[i]);
        }
        let t = shape.map(op);
        proof {
            t@.lemma_round_trip();
            t@.lemma_skeleton_refill(t@.leaves());
            self.shape().lemma_skeleton_refill(t@.leaves());
            assert forall|g: spec_fn(Self) -> Self| #[trigger] computes(op, g) implies t@.leaves()
                == crate::traits::uniplate::children(*self).map_values(g) by {
                assert(t@.leaves() =~= crate::traits::uniplate::children(*self).map_values(g));
            }
            assert(maps_to(op, crate::traits::uniplate::children(*self), t@.leaves()));
        }
        let ghost ys = t@.leaves();
        let r = self.reconstruct(t);
        assert(r == with_children(*self, ys));
        r
    }

    fn transform(&self, f: &impl Fn(Self) -> Self) -> (r: Self)
        decreases self.rank(),
    {
        let (cs, rebuild) = self.uniplate().list();
        let mut out: VecDeque<Self> = VecDeque::new();
        let mut i: usize = 0;
        assert forall|g: spec_fn(Self) -> Self| #[trigger] computes(f, g) implies out@
            == transformed_upto(*self, g, 0) by {
            assert(out@ =~= transformed_upto(*self, g, 0));
        }
        while i < cs.len()
            invariant
                i <= cs.len(),
                cs@ == crate::traits::uniplate::children(*self),
                out@.len() == i,
                forall|x: Self| call_requires(f, (x,)),
                forall|g: spec_fn(Self) -> Self| #[trigger]
                    computes(f, g) ==> out@ == transformed_upto(*self, g, i as nat),
                forall|j: int| 0 <= j < i ==> transforms_to(cs@[j], f, #[trigger] out@[j]),
            decreases cs.len() - i,
        {
            proof {
                lemma_nth_child_rank(*self, i as int);
            }
            let ghost prev = out@;
            let c = cs[i].transform(f);
            out.push_back(c);
            assert forall|g: spec_fn(Self) -> Self| #[trigger] computes(f, g) implies out@
                == transformed_upto(*self, g, (i + 1) as nat) by {
                assert(prev == transformed_upto(*self, g, i as nat));
                assert(c == transformed(cs@[i as int], g));
            }
            i += 1;
        }
        proof {
            self.shape().lemma_refill_skeleton(out@);
            assert forall|j: int| #[trigger] transforms_child(*self, f, out@, j) by {
                if 0 <= j < cs@.len() {
                    assert(transforms_to(cs@[j], f, out@[j]));
                }
            }
        }
        let ghost made = out@;
        let node = self.reconstruct(rebuild(out));
        let r = f(node);
        assert(call_ensures(f, (with_children(*self, made),), r));
        r
    }

    fn rewrite(&self, f: &impl Fn(Self) -> Option<Self>) -> (r: Self)
        decreases self.rank(),
    {
        let (cs, rebuild) = self.uniplate().list();
        let mut out: VecDeque<Self> = VecDeque::new();
        let mut i: usize = 0;
        assert forall|g: spec_fn(Self) -> Option<Self>| #[trigger] computes(f, g) implies out@
            == rewritten_upto(*self, g, 0) by {
            assert(out@ =~= rewritten_upto(*self, g, 0));
        }
        while i < cs.len()
            invariant
                i <= cs.len(),
                cs@ == crate::traits::uniplate::children(*self),
                out@.len() == i,
                forall|x: Self| call_requires(f, (x,)),
                forall|g: spec_fn(Self) -> Option<Self>| #[trigger]
                    computes(f, g) ==> out@ == rewritten_upto(*self, g, i as nat),
                forall|j: int| 0 <= j < i ==> rewrites_to(cs@[j], f, #[trigger] out@[j]),
            decreases cs.len() - i,
        {
            proof {
                lemma_nth_child_rank(*self, i as int);
            }
            let ghost prev = out@;
            let c = cs[i].rewrite(f);
            out.push_back(c);
            assert forall|g: spec_fn(Self) -> Option<Self>| #[trigger] computes(f, g) implies out@
                == rewritten_upto(*self, g, (i + 1) as nat) by {
                assert(prev == rewritten_upto(*self, g, i as nat));
                assert(c == rewritten(cs@[i as int], g));
            }
            i += 1;
        }
        proof {
            self.shape().lemma_refill_skeleton(out@);
            assert forall|j: int| #[trigger] rewrites_child(*self, f, out@, j) by {
                if 0 <= j < cs@.len() {
                    assert(rewrites_to(cs@[j], f, out@[j]));
                }
            }
        }
        let ghost made = out@;
        let node = self.reconstruct(rebuild(out));
        let kept = node.clone();
        proof {
            node.lemma_clone(kept);
        }
        let rewritten = f(node);
        assert(call_ensures(f, (with_children(*self, made),), rewritten));
        match rewritten {
            None => kept,
            Some(n) => n,
        }
    }

    fn cata<R>(&self, op: &impl Fn(Self, VecDeque<R>) -> R) -> (r: R)
        decreases self.rank(),
    {
        let cs = self.children();
        let mut out: VecDeque<R> = VecDeque::new();
        let mut i: usize = 0;
        assert forall|g: spec_fn(Self, Seq<R>) -> R| #[trigger] computes_fold(op, g) implies out@
            == folded_upto(*self, g, 0) by {
            assert(out@ =~= folded_upto(*self, g, 0));
        }
        while i < cs.len()
            invariant
                i <= cs.len(),
                cs@ == crate::traits::uniplate::children(*self),
                out@.len() == i,
                forall|x: Self, rs: VecDeque<R>| call_requires(op, (x, rs)),
                forall|g: spec_fn(Self, Seq<R>) -> R| #[trigger]
                    computes_fold(op, g) ==> out@ == folded_upto(*self, g, i as nat),
                forall|j: int| 0 <= j < i ==> folds_to(cs@[j], op, #[trigger] out@[j]),
            decreases cs.len() - i,
        {
            proof {
                lemma_nth_child_rank(*self, i as int);
            }
            let ghost prev = out@;
            let c = cs[i].cata(op);
            out.push_back(c);
            assert forall|g: spec_fn(Self, Seq<R>) -> R| #[trigger] computes_fold(op, g) implies out@
                == folded_upto(*self, g, (i + 1) as nat) by {
                assert(prev == folded_upto(*self, g, i as nat));
                assert(c == folded(cs@[i as int], g));
            }
            i += 1;
        }
        let me = self.clone();
        proof {
            self.lemma_clone(me);
            assert forall|j: int| #[trigger] folds_child(*self, op, out@, j) by {
                if 0 <= j < cs@.len() {
                    assert(folds_to(cs@[j], op, out@[j]));
                }
            }
        }
        op(me, out)
    }
}

/// Reconstruction identity: a node given its own children again is the node.
pub proof fn lemma_with_children_identity<T: Uniplate>(n: T)
    ensures
        with_children(n, children(n)) == n,
{
    n.shape().lemma_round_trip();
    n.lemma_rebuilt_shape();
}

/// The universe of a node is the node, then the universes of its children.
pub proof fn lemma_universe_unfold<T: Uniplate>(n: T)
    ensures
        universe(n) == seq![n] + universe_all(children(n)),
{
    lemma_universe_upto(n, children(n).len());
    assert(children(n).take(children(n).len() as int) =~= children(n));
}

/// The universes of the first `k` children of `n` are the universes of that
/// many nodes of its list of children.
pub proof fn lemma_universe_upto<T: Uniplate>(n: T, k: nat)
    requires
        k <= children(n).len(),
    ensures
        universe_upto(n, k) == universe_all(children(n).take(k as int)),
    decreases k,
{
    if k > 0 {
        lemma_universe_upto(n, (k - 1) as nat);
        assert(children(n).take(k as int).drop_last() =~= children(n).take(k - 1));
    }
}

/// Transforming with a function that changes nothing changes nothing.
pub proof fn lemma_transform_identity<T: Uniplate>(n: T, g: spec_fn(T) -> T)
    requires
        forall|x: T| #[trigger] g(x) == x,
    ensures
        transformed(n, g) == n,
    decreases n.rank(), children(n).len() + 1,
{
    lemma_transform_identity_upto(n, g, children(n).len());
    assert(children(n).take(children(n).len() as int) =~= children(n));
    lemma_with_children_identity(n);
}

/// [`lemma_transform_identity`] for the first `k` children of `n`.
pub proof fn lemma_transform_identity_upto<T: Uniplate>(n: T, g: spec_fn(T) -> T, k: nat)
    requires
        forall|x: T| #[trigger] g(x) == x,
        k <= children(n).len(),
    ensures
        transformed_upto(n, g, k) == children(n).take(k as int),
    decreases n.rank(), k,
{
    if k > 0 {
        lemma_nth_child_rank(n, k - 1);
        lemma_transform_identity_upto(n, g, (k - 1) as nat);
        lemma_transform_identity(children(n)[k - 1], g);
        assert(children(n).take(k as int) =~= children(n).take(k - 1).push(children(n)[k - 1]));
    } else {
        assert(children(n).take(0) =~= Seq::empty());
    }
}

/// The universes of two rows of nodes laid end to end.
pub proof fn lemma_universe_all_concat<T: Uniplate>(a: Seq<T>, b: Seq<T>)
    ensures
        universe_all(a + b) == universe_all(a) + universe_all(b),
    decreases b.len(),
{
    if b.len() == 0 {
        assert(a + b =~= a);
        assert(universe_all(a) + universe_all(b) =~= universe_all(a));
    } else {
        assert((a + b).drop_last() =~= a + b.drop_last());
        assert((a + b).last() == b.last());
        lemma_universe_all_concat(a, b.drop_last());
        assert(universe_all(a + b) =~= universe_all(a) + universe_all(b));
    }
}

/// The universes of a row of nodes are the universe of the first, then the
/// universes of the rest.
pub proof fn lemma_universe_all_first<T: Uniplate>(cs: Seq<T>)
    requires
        cs.len() > 0,
    ensures
        universe_all(cs) == universe(cs[0]) + universe_all(cs.drop_first()),
{
    let head = seq![cs[0]];
    assert(cs =~= head + cs.drop_first());
    lemma_universe_all_concat(head, cs.drop_first());
    assert(head.drop_last() =~= Seq::<T>::empty());
    assert(universe_all(head.drop_last()) =~= Seq::<T>::empty());
    assert(head.last() == cs[0]);
    assert(universe_all(head) =~= universe(cs[0]));
}

} // verus!
