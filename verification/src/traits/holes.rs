//! The direct children of a node, each with the means to put another value
//! in its place.

use crate::traits::biplate::children_bi;
use crate::traits::biplate::with_children_bi;
use crate::traits::biplate::Biplate;
use crate::traits::biplate::BiplateExt;
use crate::traits::uniplate::children;
use crate::traits::uniplate::with_children;
use crate::traits::uniplate::Uniplate;
use crate::traits::uniplate::UniplateExt;
use crate::zipper::clone_nodes;
use std::collections::VecDeque;
use vstd::prelude::*;

verus! {

/// The mathematical model of a hole: a node, a list of as many values as it
/// has children, and the place in the list that is open.
pub struct HoleView<P, T> {
    /// The node.
    pub parent: P,
    /// The values for the places that are not open.
    pub children: Seq<T>,
    /// The place that is open.
    pub index: nat,
}

impl<P, T> HoleView<P, T> {
    /// The list of values with `x` in the open place.
    pub open spec fn row(self, x: T) -> Seq<T> {
        self.children.update(self.index as int, x)
    }
}

/// A node with one of its direct children taken out.
pub struct Hole<T: Uniplate> {
    parent: T,
    children: VecDeque<T>,
    index: usize,
}

impl<T: Uniplate> View for Hole<T> {
    type V = HoleView<T, T>;

    closed spec fn view(&self) -> HoleView<T, T> {
        HoleView { parent: self.parent, children: self.children@, index: self.index as nat }
    }
}

impl<T: Uniplate> Hole<T> {
    /// The list has a value for every child, and the open place is one of
    /// them.
    pub open spec fn wf(&self) -> bool {
        &&& self@.children.len() == children(self@.parent).len()
        &&& self@.index < self@.children.len()
    }

    /// The node with `x` in the place of the child that was taken out.
    pub open spec fn filled(&self, x: T) -> T {
        with_children(self@.parent, self@.row(x))
    }

    /// Fills the hole: gives the node with `x` in the place of the child
    /// that was taken out.
    pub fn fill(&self, x: T) -> (r: T)
        requires
            self.wf(),
        ensures
            r == self.filled(x),
    {
        let mut row = clone_nodes(&self.children);
        let mut rest = row.split_off(self.index);
        let _ = rest.pop_front();
        row.push_back(x);
        row.append(&mut rest);
        assert(row@ =~= self@.row(x));
        let (_, rebuild) = self.parent.uniplate().list();
        proof {
            self.parent.shape().lemma_refill_skeleton(row@);
        }
        self.parent.reconstruct(rebuild(row))
    }
}

/// The direct children of a node one after the other, each with the hole
/// that it leaves.
pub struct HolesIter<T: Uniplate> {
    parent: T,
    children: VecDeque<T>,
    next: usize,
}

impl<T: Uniplate> HolesIter<T> {
    /// The node whose children are given out.
    pub closed spec fn parent(&self) -> T {
        self.parent
    }

    /// The number of children that were given out.
    pub closed spec fn position(&self) -> nat {
        self.next as nat
    }

    /// The children are those of the node, and no more were given out than
    /// there are.
    pub closed spec fn wf(&self) -> bool {
        &&& self.children@ == children(self.parent)
        &&& self.next <= self.children@.len()
    }

    /// The children that are still to come.
    pub open spec fn remaining(&self) -> Seq<T> {
        children(self.parent()).skip(self.position() as int)
    }

    /// Starts at the leftmost child of `parent`.
    pub fn new(parent: T) -> (it: Self)
        ensures
            it.wf(),
            it.parent() == parent,
            it.position() == 0,
            it.remaining() == children(parent),
    {
        let children = parent.children();
        assert(children@.skip(0) =~= children@);
        HolesIter { parent, children, next: 0 }
    }

    /// Gives the hole that the child at place `n` leaves, or nothing where
    /// the node has not as many children.
    pub fn nth_hole(&self, n: usize) -> (r: Option<Hole<T>>)
        requires
            self.wf(),
        ensures
            r is Some == (n < children(self.parent()).len()),
            r matches Some(hole) ==> hole.wf() && hole@ == (HoleView {
                parent: self.parent(),
                children: children(self.parent()),
                index: n as nat,
            }),
    {
        if n >= self.children.len() {
            return None;
        }
        let parent = self.parent.clone();
        proof {
            self.parent.lemma_clone(parent);
        }
        Some(Hole { parent, children: clone_nodes(&self.children), index: n })
    }

    /// Gives the next child and the hole that it leaves, or nothing when
    /// every child was given.
    pub fn next(&mut self) -> (r: Option<(T, Hole<T>)>)
        requires
            old(self).wf(),
        ensures
            final(self).wf(),
            final(self).parent() == old(self).parent(),
            old(self).remaining().len() == 0 ==> r is None && final(self).position() == old(
                self,
            ).position(),
            old(self).remaining().len() > 0 ==> final(self).position() == old(self).position() + 1
                && final(self).remaining() == old(self).remaining().drop_first(),
            old(self).remaining().len() > 0 ==> (r matches Some((child, hole)) && child == old(
                self,
            ).remaining()[0] && hole.wf() && hole@ == (HoleView {
                parent: old(self).parent(),
                children: children(old(self).parent()),
                index: old(self).position(),
            })),
    {
        if self.next >= self.children.len() {
            return None;
        }
        let child = self.children[self.next].clone();
        let parent = self.parent.clone();
        proof {
            self.children@[self.next as int].lemma_clone(child);
            self.parent.lemma_clone(parent);
        }
        let hole = Hole { parent, children: clone_nodes(&self.children), index: self.next };
        self.next = self.next + 1;
        assert(self.remaining() =~= old(self).remaining().drop_first());
        Some((child, hole))
    }
}

/// A node with one of the topmost values of another type within it taken
/// out.
pub struct HoleBi<To: Uniplate, From: Biplate<To>> {
    parent: From,
    children: VecDeque<To>,
    index: usize,
}

impl<To: Uniplate, From: Biplate<To>> View for HoleBi<To, From> {
    type V = HoleView<From, To>;

    closed spec fn view(&self) -> HoleView<From, To> {
        HoleView { parent: self.parent, children: self.children@, index: self.index as nat }
    }
}

impl<To: Uniplate, From: Biplate<To>> HoleBi<To, From> {
    /// The list has a value for every place, and the open place is one of
    /// them.
    pub open spec fn wf(&self) -> bool {
        &&& self@.children.len() == children_bi::<To, From>(self@.parent).len()
        &&& self@.index < self@.children.len()
    }

    /// The node with `x` in the place of the value that was taken out.
    pub open spec fn filled(&self, x: To) -> From {
        with_children_bi(self@.parent, self@.row(x))
    }

    /// Fills the hole: gives the node with `x` in the place of the value
    /// that was taken out.
    pub fn fill(&self, x: To) -> (r: From)
        requires
            self.wf(),
        ensures
            r == self.filled(x),
    {
        let mut row = clone_nodes(&self.children);
        let mut rest = row.split_off(self.index);
        let _ = rest.pop_front();
        row.push_back(x);
        row.append(&mut rest);
        assert(row@ =~= self@.row(x));
        let (_, rebuild) = self.parent.biplate().list();
        proof {
            self.parent.shape_bi().lemma_refill_skeleton(row@);
        }
        self.parent.reconstruct_bi(rebuild(row))
    }
}

/// The topmost values of one type within a node of another, one after the
/// other, each with the hole that it leaves.
pub struct HolesIterBi<To: Uniplate, From: Biplate<To>> {
    parent: From,
    children: VecDeque<To>,
    next: usize,
}

impl<To: Uniplate, From: Biplate<To>> HolesIterBi<To, From> {
    /// The node whose values are given out.
    pub closed spec fn parent(&self) -> From {
        self.parent
    }

    /// The number of values that were given out.
    pub closed spec fn position(&self) -> nat {
        self.next as nat
    }

    /// The values are those within the node, and no more were given out
    /// than there are.
    pub closed spec fn wf(&self) -> bool {
        &&& self.children@ == children_bi::<To, From>(self.parent)
        &&& self.next <= self.children@.len()
    }

    /// The values that are still to come.
    pub open spec fn remaining(&self) -> Seq<To> {
        children_bi::<To, From>(self.parent()).skip(self.position() as int)
    }

    /// Starts at the leftmost of the topmost values within `parent`.
    pub fn new(parent: From) -> (it: Self)
        ensures
            it.wf(),
            it.parent() == parent,
            it.position() == 0,
            it.remaining() == children_bi::<To, From>(parent),
    {
        let children = parent.children_bi();
        assert(children@.skip(0) =~= children@);
        HolesIterBi { parent, children, next: 0 }
    }

    /// Gives the next value and the hole that it leaves, or nothing when
    /// every value was given.
    pub fn next(&mut self) -> (r: Option<(To, HoleBi<To, From>)>)
        requires
            old(self).wf(),
        ensures
            final(self).wf(),
            final(self).parent() == old(self).parent(),
            old(self).remaining().len() == 0 ==> r is None && final(self).position() == old(
                self,
            ).position(),
            old(self).remaining().len() > 0 ==> final(self).position() == old(self).position() + 1
                && final(self).remaining() == old(self).remaining().drop_first(),
            old(self).remaining().len() > 0 ==> (r matches Some((child, hole)) && child == old(
                self,
            ).remaining()[0] && hole.wf() && hole@ == (HoleView {
                parent: old(self).parent(),
                children: children_bi::<To, From>(old(self).parent()),
                index: old(self).position(),
            })),
    {
        if self.next >= self.children.len() {
            return None;
        }
        let child = self.children[self.next].clone();
        let parent = self.parent.clone();
        proof {
            self.children@[self.next as int].lemma_clone(child);
            self.parent.lemma_clone(parent);
        }
        let hole = HoleBi { parent, children: clone_nodes(&self.children), index: self.next };
        self.next = self.next + 1;
        assert(self.remaining() =~= old(self).remaining().drop_first());
        Some((child, hole))
    }
}

} // verus!
