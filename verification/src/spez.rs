//! Resolution of a traversal step for a field: whether the type of the
//! field takes part in the traversal to the target type, or is a leaf.
//!
//! A field of type `Src` that is traversed for values of type `Dest` falls
//! under one of three cases: `Src` is `Dest`, and the field is itself the
//! one value; `Src` has a traversal to `Dest`, which is used; or neither,
//! and the field holds no value of type `Dest`. Each case has its own
//! entry here, so that which one applies is settled where the call is
//! written.
//!
//! A vector, a deque or an optional value of a type that has a traversal
//! to `Dest` has one by its elements: [`BiplateItems`].
//!
//! The traits have the same methods, and are implemented for the wrapper
//! behind a different number of references: [`BiplateItems`] behind two,
//! [`BiplateYes`] behind one, [`BiplateNo`] behind none. A call of a method
//! on the wrapper behind three references, with the three traits in scope,
//! is a call of the first of them that the types allow.

use crate::impls::biplate_within;
use crate::impls::biplate_within_deque;
use crate::impls::biplate_within_option;
use crate::impls::rebuilt_within;
use crate::impls::rebuilt_within_option;
use crate::impls::reconstruct_within;
use crate::impls::reconstruct_within_deque;
use crate::impls::reconstruct_within_option;
use crate::impls::shape_within;
use crate::impls::shape_within_option;
use crate::traits::biplate::Biplate;
use crate::traits::uniplate::Uniplate;
use crate::tree::Shape;
use crate::tree::Tree;
use std::collections::VecDeque;
use std::marker::PhantomData;
use vstd::prelude::*;

verus! {

/// A wrapper around a value of type `Src` that is traversed for values of
/// type `Dest`.
pub struct SpezBiplate<Src, Dest>(pub Src, pub PhantomData<Dest>);

/// A wrapper around a value of type `Src` that is traversed for values of
/// its own type.
pub struct SpezUniplate<Src>(pub Src);

/// The traversal step of a wrapped value whose type has a traversal to the
/// target type.
pub trait BiplateYes {
    /// The source type.
    type Src;

    /// The destination type of the traversal.
    type Dest;

    /// The values of the target type in the wrapped value.
    spec fn spez_shape(&self) -> Shape<Self::Dest>;

    /// The values of the target type in the wrapped value, by its own
    /// traversal.
    fn spez_try_biplate(&self) -> (children: Tree<Self::Dest>)
        ensures
            children@ == self.spez_shape(),
    ;

    /// The wrapped value put together again around `children`.
    fn spez_rebuild_biplate(&self, children: Tree<Self::Dest>) -> (node: Self::Src)
        requires
            children@.same_structure(self.spez_shape()),
    ;

    /// Whether the type of the wrapped value has a traversal to the target
    /// type: it has.
    fn spez_impls_biplate(&self) -> (r: bool)
        ensures
            r,
    ;
}

/// The traversal step of a wrapped value whose type has no traversal to the
/// target type: the value is a leaf.
pub trait BiplateNo {
    /// The source type.
    type Src;

    /// The destination type of the traversal.
    type Dest;

    /// No values: the wrapped value is a leaf.
    fn spez_try_biplate(&self) -> (children: Tree<Self::Dest>)
        ensures
            children@ == Shape::<Self::Dest>::Zero,
    ;

    /// A copy of the wrapped value, whatever `children` holds.
    fn spez_rebuild_biplate(&self, children: Tree<Self::Dest>) -> (node: Self::Src);

    /// Whether the type of the wrapped value has a traversal to the target
    /// type: it has not.
    fn spez_impls_biplate(&self) -> (r: bool)
        ensures
            !r,
    ;
}

impl<Src: Biplate<Dest>, Dest: Uniplate> BiplateYes for &SpezBiplate<Src, Dest> {
    type Src = Src;

    type Dest = Dest;

    open spec fn spez_shape(&self) -> Shape<Dest> {
        self.0.shape_bi()
    }

    fn spez_try_biplate(&self) -> (children: Tree<Dest>) {
        self.0.biplate()
    }

    fn spez_rebuild_biplate(&self, children: Tree<Dest>) -> (node: Src)
        ensures
            node == self.0.rebuilt_bi(children@),
    {
        self.0.reconstruct_bi(children)
    }

    fn spez_impls_biplate(&self) -> (r: bool) {
        true
    }
}

impl<Src: Clone, Dest> BiplateNo for SpezBiplate<Src, Dest> {
    type Src = Src;

    type Dest = Dest;

    fn spez_try_biplate(&self) -> (children: Tree<Dest>) {
        Tree::Zero
    }

    fn spez_rebuild_biplate(&self, children: Tree<Dest>) -> (node: Src)
        ensures
            cloned(self.0, node),
    {
        self.0.clone()
    }

    fn spez_impls_biplate(&self) -> (r: bool) {
        false
    }
}

impl<T: Uniplate> SpezBiplate<T, T> {
    /// The traversal step where the source type is the target type: the
    /// wrapped value is itself the one value.
    pub fn spez_identity(&self) -> (children: Tree<T>)
        ensures
            children@ == Shape::One(self.0),
    {
        let me = self.0.clone();
        proof {
            self.0.lemma_clone(me);
        }
        Tree::One(me)
    }

    /// The one value of `children`, which is the rebuilt node where the
    /// source type is the target type.
    pub fn spez_identity_rebuild(children: Tree<T>) -> (node: T)
        requires
            children@ is One,
        ensures
            Shape::One(node) == children@,
    {
        let (mut list, _) = children.list();
        list.pop_front().unwrap()
    }
}

/// The self-traversal step of a wrapped value whose type has one.
pub trait UniplateYes {
    /// The type to perform the traversal on.
    type T;

    /// The direct children of the wrapped value.
    spec fn spez_shape(&self) -> Shape<Self::T>;

    /// The direct children of the wrapped value, by its own traversal.
    fn spez_try_uniplate(&self) -> (children: Tree<Self::T>)
        ensures
            children@ == self.spez_shape(),
    ;

    /// The wrapped value put together again around `children`.
    fn spez_rebuild_uniplate(&self, children: Tree<Self::T>) -> (node: Self::T)
        requires
            children@.same_structure(self.spez_shape()),
    ;

    /// Whether the type of the wrapped value has a self-traversal: it has.
    fn spez_impls_uniplate(&self) -> (r: bool)
        ensures
            r,
    ;
}

/// The self-traversal step of a wrapped value whose type has none: the
/// value is a leaf.
pub trait UniplateNo {
    /// The type to perform the traversal on.
    type T;

    /// No children: the wrapped value is a leaf.
    fn spez_try_uniplate(&self) -> (children: Tree<Self::T>)
        ensures
            children@ == Shape::<Self::T>::Zero,
    ;

    /// A copy of the wrapped value, whatever `children` holds.
    fn spez_rebuild_uniplate(&self, children: Tree<Self::T>) -> (node: Self::T);

    /// Whether the type of the wrapped value has a self-traversal: it has
    /// not.
    fn spez_impls_uniplate(&self) -> (r: bool)
        ensures
            !r,
    ;
}

impl<T: Uniplate> UniplateYes for &SpezUniplate<T> {
    type T = T;

    open spec fn spez_shape(&self) -> Shape<T> {
        self.0.shape()
    }

    fn spez_try_uniplate(&self) -> (children: Tree<T>) {
        self.0.uniplate()
    }

    fn spez_rebuild_uniplate(&self, children: Tree<T>) -> (node: T)
        ensures
            node == self.0.rebuilt(children@),
    {
        self.0.reconstruct(children)
    }

    fn spez_impls_uniplate(&self) -> (r: bool) {
        true
    }
}

impl<T: Clone> UniplateNo for SpezUniplate<T> {
    type T = T;

    fn spez_try_uniplate(&self) -> (children: Tree<T>) {
        Tree::Zero
    }

    fn spez_rebuild_uniplate(&self, children: Tree<T>) -> (node: T)
        ensures
            cloned(self.0, node),
    {
        self.0.clone()
    }

    fn spez_impls_uniplate(&self) -> (r: bool) {
        false
    }
}

/// The traversal step of a wrapped collection whose elements have a
/// traversal to the target type.
pub trait BiplateItems {
    /// The source type.
    type Src;

    /// The destination type of the traversal.
    type Dest;

    /// The values of the target type in the elements of the collection.
    spec fn spez_shape(&self) -> Shape<Self::Dest>;

    /// The values of the target type in the elements of the collection.
    fn spez_try_biplate(&self) -> (children: Tree<Self::Dest>)
        ensures
            children@ == self.spez_shape(),
    ;

    /// The collection put together again, each element around the shape in
    /// its place in `children`.
    fn spez_rebuild_biplate(&self, children: Tree<Self::Dest>) -> (node: Self::Src)
        requires
            children@.same_structure(self.spez_shape()),
    ;

    /// Whether the type of the wrapped value has a traversal to the target
    /// type: it has.
    fn spez_impls_biplate(&self) -> (r: bool)
        ensures
            r,
    ;
}

impl<F: Biplate<Dest>, Dest: Uniplate> BiplateItems for &&SpezBiplate<Vec<F>, Dest> {
    type Src = Vec<F>;

    type Dest = Dest;

    open spec fn spez_shape(&self) -> Shape<Dest> {
        shape_within::<Dest, F>(self.0@)
    }

    fn spez_try_biplate(&self) -> (children: Tree<Dest>) {
        biplate_within(&self.0)
    }

    fn spez_rebuild_biplate(&self, children: Tree<Dest>) -> (node: Vec<F>)
        ensures
            node@ == rebuilt_within(self.0@, children@),
    {
        reconstruct_within(&self.0, children)
    }

    fn spez_impls_biplate(&self) -> (r: bool) {
        true
    }
}

impl<F: Biplate<Dest>, Dest: Uniplate> BiplateItems for &&SpezBiplate<VecDeque<F>, Dest> {
    type Src = VecDeque<F>;

    type Dest = Dest;

    open spec fn spez_shape(&self) -> Shape<Dest> {
        shape_within::<Dest, F>(self.0@)
    }

    fn spez_try_biplate(&self) -> (children: Tree<Dest>) {
        biplate_within_deque(&self.0)
    }

    fn spez_rebuild_biplate(&self, children: Tree<Dest>) -> (node: VecDeque<F>)
        ensures
            node@ == rebuilt_within(self.0@, children@),
    {
        reconstruct_within_deque(&self.0, children)
    }

    fn spez_impls_biplate(&self) -> (r: bool) {
        true
    }
}

impl<F: Biplate<Dest>, Dest: Uniplate> BiplateItems for &&SpezBiplate<Option<F>, Dest> {
    type Src = Option<F>;

    type Dest = Dest;

    open spec fn spez_shape(&self) -> Shape<Dest> {
        shape_within_option::<Dest, F>(self.0)
    }

    fn spez_try_biplate(&self) -> (children: Tree<Dest>) {
        biplate_within_option(&self.0)
    }

    fn spez_rebuild_biplate(&self, children: Tree<Dest>) -> (node: Option<F>)
        ensures
            node == rebuilt_within_option(self.0, children@),
    {
        reconstruct_within_option(&self.0, children)
    }

    fn spez_impls_biplate(&self) -> (r: bool) {
        true
    }
}

} // verus!
