//! Traversal of the values of one type that lie within a value of another.

use crate::error::UniplateError;
use crate::traits::context::ContextIterBi;
use crate::traits::holes::HolesIterBi;
use crate::traits::uniplate::computes;
use crate::traits::uniplate::maps_to;
use crate::traits::uniplate::transforms_to;
use crate::traits::uniplate::transformed;
use crate::traits::uniplate::universe;
use crate::traits::uniplate::universe_all;
use crate::traits::uniplate::Uniplate;
use crate::traits::uniplate::UniplateExt;
use crate::tree::Shape;
use crate::tree::Tree;
use std::collections::VecDeque;
use vstd::prelude::*;

verus! {

/// `Biplate<To>` for type `T` operates over all values of type `To` within
/// `T`.
///
/// `Biplate<T>` for `T` gives the node itself, not its children of type `T`:
/// for those there is [`Uniplate`].
///
/// As in [`Uniplate`], the model (`shape_bi`, `rebuilt_bi`) and the law are
/// for proofs alone.
pub trait Biplate<To: Uniplate>: Uniplate {
    /// The topmost values of type `To` within the node, in the structure in
    /// which they lie.
    spec fn shape_bi(&self) -> Shape<To>;

    /// The node with `children` in the place of those values.
    spec fn rebuilt_bi(&self, children: Shape<To>) -> Self;

    /// Putting a node together around the values that lie in it gives the
    /// node.
    proof fn lemma_rebuilt_shape_bi(&self)
        ensures
            self.rebuilt_bi(self.shape_bi()) == *self,
    ;

    /// The topmost values of type `To` within the node, in the structure in
    /// which they lie.
    fn biplate(&self) -> (children: Tree<To>)
        ensures
            children@ == self.shape_bi(),
    ;

    /// Puts the node together again around `children`, which must have the
    /// structure that [`Biplate::biplate`] gave.
    fn reconstruct_bi(&self, children: Tree<To>) -> (node: Self)
        requires
            children@.same_structure(self.shape_bi()),
        ensures
            node == self.rebuilt_bi(children@),
    ;
}

/// The topmost values of type `To` within `n`, left to right.
pub open spec fn children_bi<To: Uniplate, T: Biplate<To>>(n: T) -> Seq<To> {
    n.shape_bi().leaves()
}

/// `n` with `cs` in the place of the topmost values of type `To` within it.
pub open spec fn with_children_bi<To: Uniplate, T: Biplate<To>>(n: T, cs: Seq<To>) -> T {
    n.rebuilt_bi(n.shape_bi().refill(cs))
}

/// All values of type `To` within `n`: the universes of its topmost ones,
/// one after the other.
pub open spec fn universe_bi<To: Uniplate, T: Biplate<To>>(n: T) -> Seq<To> {
    universe_all(children_bi::<To, T>(n))
}

/// `n` with `g` applied to each of the topmost values of type `To` within
/// it.
pub open spec fn descended_bi<To: Uniplate, T: Biplate<To>>(n: T, g: spec_fn(To) -> To) -> T {
    with_children_bi(n, children_bi::<To, T>(n).map_values(g))
}

/// `n` with `g` applied to every value of type `To` within it, bottom up.
pub open spec fn transformed_bi<To: Uniplate, T: Biplate<To>>(n: T, g: spec_fn(To) -> To) -> T {
    descended_bi(n, |x: To| transformed(x, g))
}

/// `r` is `n` with each of the topmost values of type `To` within it
/// replaced by what `f` may give for it.
pub open spec fn descends_bi_to<To: Uniplate, T: Biplate<To>, F: Fn(To) -> To>(
    n: T,
    f: F,
    r: T,
) -> bool {
    exists|ys: Seq<To>| maps_to(f, children_bi::<To, T>(n), ys) && r == with_children_bi(n, ys)
}

/// `r` is `n` with each of the topmost values of type `To` within it
/// replaced by what `f` may give for it where it is applied to every node
/// of it, bottom up.
pub open spec fn transforms_bi_to<To: Uniplate, T: Biplate<To>, F: Fn(To) -> To>(
    n: T,
    f: F,
    r: T,
) -> bool {
    exists|ys: Seq<To>|
        {
            &&& ys.len() == children_bi::<To, T>(n).len()
            &&& forall|i: int|
                0 <= i < ys.len() ==> transforms_to(children_bi::<To, T>(n)[i], f, #[trigger] ys[i])
            &&& r == with_children_bi(n, ys)
        }
}

/// The operations that every [`Biplate`] type has.
pub trait BiplateExt<To: Uniplate>: Biplate<To> {
    /// Returns the topmost values of type `To` within the node. If to ==
    /// from then it returns the node itself (in contrast to children).
    fn children_bi(&self) -> (r: VecDeque<To>)
        ensures
            r@ == children_bi::<To, Self>(*self),
    ;

    /// Reconstructs the node with the given children.
    ///
    /// Fails if `children` has not as many elements as
    /// [`BiplateExt::children_bi`] gives.
    fn with_children_bi(&self, children: VecDeque<To>) -> (r: Result<Self, UniplateError>)
        ensures
            children@.len() == children_bi::<To, Self>(*self).len() ==> r == Ok::<
                Self,
                UniplateError,
            >(with_children_bi(*self, children@)),
            children@.len() != children_bi::<To, Self>(*self).len() ==> r == Err::<
                Self,
                UniplateError,
            >(
                UniplateError::WrongNumberOfChildren(
                    children_bi::<To, Self>(*self).len() as usize,
                    children@.len() as usize,
                ),
            ),
    ;

    /// Applies a function to each of the topmost values of type `To`.
    ///
    /// If from == to then this function does not descend: it applies `op`
    /// to the node itself.
    fn descend_bi(&self, op: &impl Fn(To) -> To) -> (r: Self)
        requires
            forall|i: int|
                0 <= i < children_bi::<To, Self>(*self).len() ==> call_requires(
                    op,
                    (#[trigger] children_bi::<To, Self>(*self)[i],),
                ),
        ensures
            descends_bi_to(*self, op, r),
            forall|g: spec_fn(To) -> To| #[trigger] computes(op, g) ==> r == descended_bi(*self, g),
    ;

    /// Gets all values of type `To` within the node.
    ///
    /// Each of the topmost ones comes first, followed by what lies below
    /// it, from left to right. If to == from the node itself comes first.
    fn universe_bi(&self) -> (r: VecDeque<To>)
        ensures
            r@ == universe_bi::<To, Self>(*self),
    ;

    /// Applies the given function to all values of type `To` bottom up.
    fn transform_bi(&self, op: &impl Fn(To) -> To) -> (r: Self)
        requires
            forall|x: To| call_requires(op, (x,)),
        ensures
            transforms_bi_to(*self, op, r),
            forall|g: spec_fn(To) -> To| #[trigger] computes(op, g) ==> r == transformed_bi(*self, g),
    ;

    /// Gives the topmost values of type `To` one after the other, each
    /// paired with the hole where the value was, which can be filled with a
    /// new value.
    fn holes_bi(&self) -> (it: HolesIterBi<To, Self>)
        ensures
            it.wf(),
            it.parent() == *self,
            it.position() == 0,
            it.remaining() == children_bi::<To, Self>(*self),
    ;

    /// Gives all values of type `To` within the node one after the other,
    /// each paired with its place in the whole, which can be filled with a
    /// new value.
    ///
    /// To efficiently update multiple values in a single traversal, use
    /// [`ZipperBi`](crate::zipper::ZipperBi) instead.
    fn contexts_bi(&self) -> (it: ContextIterBi<To, Self>)
        ensures
            it.wf(),
            it.remaining() == universe_bi::<To, Self>(*self),
            it.remaining().len() > 0 ==> it.root() == *self,
    ;
}

impl<To: Uniplate, T: Biplate<To>> BiplateExt<To> for T {
    fn children_bi(&self) -> (r: VecDeque<To>) {
        let (list, _) = self.biplate().list();
        list
    }

    fn with_children_bi(&self, children: VecDeque<To>) -> (r: Result<Self, UniplateError>) {
        let (old_children, rebuild) = self.biplate().list();
        if old_children.len() != children.len() {
            Err(UniplateError::WrongNumberOfChildren(old_children.len(), children.len()))
        } else {
            proof {
                self.shape_bi().lemma_refill_skeleton(children@);
            }
            Ok(self.reconstruct_bi(rebuild(children)))
        }
    }

    fn holes_bi(&self) -> (it: HolesIterBi<To, Self>) {
        let me = self.clone();
        proof {
            self.lemma_clone(me);
        }
        HolesIterBi::new(me)
    }

    fn contexts_bi(&self) -> (it: ContextIterBi<To, Self>) {
        let me = self.clone();
        proof {
            self.lemma_clone(me);
        }
        ContextIterBi::new(me)
    }

    fn descend_bi(&self, op: &impl Fn(To) -> To) -> (r: Self) {
        let shape = self.biplate();
        assert forall|i: int| 0 <= i < shape@.leaves().len() implies call_requires(
            op,
            (#[trigger] shape@.leaves()[i],),
        ) by {
            assert(shape@.leaves()[i] == children_bi::<To, Self>(*self)[i]);
        }
        let t = shape.map(op);
        proof {
            t@.lemma_round_trip();
            t@.lemma_skeleton_refill(t@.leaves());
            self.shape_bi().lemma_skeleton_refill(t@.leaves());
            assert forall|g: spec_fn(To) -> To| #[trigger] computes(op, g) implies t@.leaves()
                == children_bi::<To, Self>(*self).map_values(g) by {
                assert(t@.leaves() =~= children_bi::<To, Self>(*self).map_values(g));
            }
            assert(maps_to(op, children_bi::<To, Self>(*self), t@.leaves()));
        }
        let ghost ys = t@.leaves();
        let r = self.reconstruct_bi(t);
        assert(r == with_children_bi(*self, ys));
        r
    }

    fn universe_bi(&self) -> (r: VecDeque<To>) {
        let cs = self.children_bi();
        let mut results: VecDeque<To> = VecDeque::new();
        let mut i: usize = 0;
        assert(cs@.take(0) =~= Seq::empty());
        while i < cs.len()
            invariant
                i <= cs.len(),
                results@ == universe_all(cs@.take(i as int)),
            decreases cs.len() - i,
        {
            let mut sub = cs[i].universe();
            results.append(&mut sub);
            assert(cs@.take(i as int + 1).drop_last() =~= cs@.take(i as int));
            i += 1;
        }
        assert(cs@.take(i as int) =~= cs@);
        results
    }

    fn transform_bi(&self, op: &impl Fn(To) -> To) -> (r: Self) {
        let (cs, rebuild) = self.biplate().list();
        let mut out: VecDeque<To> = VecDeque::new();
        let mut i: usize = 0;
        while i < cs.len()
            invariant
                i <= cs.len(),
                cs@ == children_bi::<To, Self>(*self),
                out@.len() == i,
                forall|x: To| call_requires(op, (x,)),
                forall|g: spec_fn(To) -> To, j: int|
                    #[trigger] computes(op, g) && 0 <= j < i ==> #[trigger] out@[j] == transformed(
                        cs@[j],
                        g,
                    ),
                forall|j: int| 0 <= j < i ==> transforms_to(cs@[j], op, #[trigger] out@[j]),
            decreases cs.len() - i,
        {
            let c = cs[i].transform(op);
            out.push_back(c);
            i += 1;
        }
        proof {
            self.shape_bi().lemma_refill_skeleton(out@);
            assert forall|g: spec_fn(To) -> To| #[trigger] computes(op, g) implies out@
                == children_bi::<To, Self>(*self).map_values(|x: To| transformed(x, g)) by {
                assert(out@ =~= children_bi::<To, Self>(*self).map_values(
                    |x: To| transformed(x, g),
                ));
            }
        }
        let ghost made = out@;
        let r = self.reconstruct_bi(rebuild(out));
        assert(r == with_children_bi(*self, made));
        r
    }
}

/// Reconstruction identity: a node given the values within it again is the
/// node.
pub proof fn lemma_with_children_bi_identity<To: Uniplate, T: Biplate<To>>(n: T)
    ensures
        with_children_bi(n, children_bi::<To, T>(n)) == n,
{
    n.shape_bi().lemma_round_trip();
    n.lemma_rebuilt_shape_bi();
}

} // verus!
