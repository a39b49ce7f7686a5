//! The nodes of a tree in preorder, each with the means to put another
//! value in its place in the whole tree.

use crate::traits::biplate::children_bi;
use crate::traits::biplate::universe_bi;
use crate::traits::biplate::Biplate;
use crate::traits::uniplate::children;
use crate::traits::uniplate::lemma_universe_all_first;
use crate::traits::uniplate::lemma_universe_unfold;
use crate::traits::uniplate::universe;
use crate::traits::uniplate::universe_all;
use crate::traits::uniplate::Uniplate;
use crate::zipper::Frame;
use crate::zipper::Zipper;
use crate::zipper::ZipperBi;
use crate::zipper::ZipperBiView;
use crate::zipper::ZipperView;
use vstd::prelude::*;

verus! {

/// What lies to the right of the way from the root to a node: the universes
/// of the right siblings of the node, then those of the right siblings of
/// its parent, and so on up to the root.
pub open spec fn pending<T: Uniplate>(path: Seq<Frame<T>>) -> Seq<T>
    decreases path.len(),
{
    if path.len() == 0 {
        Seq::empty()
    } else {
        universe_all(path.last().right) + pending(path.drop_last())
    }
}

/// The focus of a cursor and all that comes after it in the preorder of the
/// whole tree.
pub open spec fn onward<T: Uniplate>(z: ZipperView<T>) -> Seq<T> {
    universe(z.focus) + pending(z.path)
}

/// Going down to the first child leaves what comes after the focus.
pub proof fn lemma_onward_down<T: Uniplate>(z: ZipperView<T>)
    requires
        z.has_down(),
    ensures
        onward(z.down()) == onward(z).drop_first(),
{
    let cs = children(z.focus);
    let d = z.down();
    lemma_universe_unfold(z.focus);
    lemma_universe_all_first(cs);
    assert(d.path.drop_last() =~= z.path);
    assert(onward(d) =~= onward(z).drop_first());
}

/// A node without children is all of its universe.
pub proof fn lemma_onward_leaf<T: Uniplate>(z: ZipperView<T>)
    requires
        !z.has_down(),
    ensures
        pending(z.path) == onward(z).drop_first(),
{
    lemma_universe_unfold(z.focus);
    assert(children(z.focus) =~= Seq::empty());
    assert(universe(z.focus) =~= seq![z.focus]);
    assert(pending(z.path) =~= onward(z).drop_first());
}

/// Going right continues with what was pending.
pub proof fn lemma_onward_right<T: Uniplate>(z: ZipperView<T>)
    requires
        z.has_right(),
    ensures
        onward(z.right()) == pending(z.path),
{
    let r = z.right();
    lemma_universe_all_first(z.path.last().right);
    assert(r.path.drop_last() =~= z.path.drop_last());
    assert(onward(r) =~= pending(z.path));
}

/// Where there is nothing to the right, what is pending is what is pending
/// above.
pub proof fn lemma_pending_up<T: Uniplate>(z: ZipperView<T>)
    requires
        z.has_up(),
        !z.has_right(),
    ensures
        pending(z.up().path) == pending(z.path),
{
    assert(z.path.last().right =~= Seq::empty());
    assert(pending(z.path) =~= pending(z.path.drop_last()));
}

/// A place in a tree: the tree with one of its nodes taken out.
pub struct Context<T: Uniplate> {
    zipper: Zipper<T>,
}

impl<T: Uniplate> View for Context<T> {
    type V = ZipperView<T>;

    closed spec fn view(&self) -> ZipperView<T> {
        self.zipper@
    }
}

impl<T: Uniplate> Context<T> {
    /// The cursor at the place is well formed.
    pub open spec fn wf(&self) -> bool {
        self@.wf()
    }

    /// The whole tree with `x` at the place.
    pub open spec fn filled(&self, x: T) -> T {
        self@.with_focus(x).root()
    }

    /// Gives the whole tree with `x` in the place of the node that was
    /// taken out.
    pub fn fill(&self, x: T) -> (r: T)
        requires
            self.wf(),
        ensures
            r == self.filled(x),
    {
        let mut zipper = self.zipper.clone();
        zipper.replace_focus(x);
        zipper.rebuild_root()
    }
}

/// The nodes of a tree in preorder, each with its place in the tree.
pub struct ContextIter<T: Uniplate> {
    zipper: Zipper<T>,
    done: bool,
}

impl<T: Uniplate> ContextIter<T> {
    /// The cursor is well formed.
    pub closed spec fn wf(&self) -> bool {
        self.zipper.wf()
    }

    /// The cursor at the node that comes next.
    pub closed spec fn cursor(&self) -> ZipperView<T> {
        self.zipper@
    }

    /// The tree that is walked.
    pub closed spec fn root(&self) -> T {
        self.zipper@.root()
    }

    /// The nodes that are still to come.
    pub closed spec fn remaining(&self) -> Seq<T> {
        if self.done {
            Seq::empty()
        } else {
            onward(self.zipper@)
        }
    }

    /// Starts at `root`.
    pub fn new(root: T) -> (it: Self)
        ensures
            it.wf(),
            it.root() == root,
            it.cursor() == ZipperView::at_root(root),
            it.remaining() == universe(root),
    {
        let it = ContextIter { zipper: Zipper::new(root), done: false };
        assert(it.remaining() =~= universe(root));
        it
    }

    /// Gives the next node in preorder and its place in the tree, or
    /// nothing when every node was given.
    ///
    /// The place is where a zipper stands that has come to the node from
    /// the root, so that to fill the place is to replace the focus of that
    /// zipper and to rebuild the root. The place filled with the node
    /// itself is the tree that is walked.
    pub fn next(&mut self) -> (r: Option<(T, Context<T>)>)
        requires
            old(self).wf(),
        ensures
            final(self).wf(),
            final(self).root() == old(self).root(),
            old(self).remaining().len() == 0 ==> r is None && final(self).remaining() == old(
                self,
            ).remaining(),
            old(self).remaining().len() > 0 ==> final(self).remaining() == old(
                self,
            ).remaining().drop_first(),
            old(self).remaining().len() > 0 ==> (r matches Some((node, context)) && node == old(
                self,
            ).remaining()[0] && context.wf() && context@ == old(self).cursor() && context@.focus
                == node && context.filled(node) == old(self).root()),
    {
        if self.done {
            return None;
        }
        let node = self.zipper.focus().clone();
        proof {
            self.zipper@.focus.lemma_clone(node);
        }
        let context = Context { zipper: self.zipper.clone() };
        let ghost start = self.zipper@;
        assert(start.with_focus(node) == start);

        // Prepare for the next element: try moving down or right; if we
        // cannot, move up the tree until we can move right.
        if self.zipper.go_down().is_none() {
            proof {
                lemma_onward_leaf(start);
            }
            loop
                invariant_except_break
                    !self.done,
                    pending(self.zipper@.path) == onward(start).drop_first(),
                invariant
                    self.zipper.wf(),
                    self.zipper@.root() == start.root(),
                ensures
                    self.zipper.wf(),
                    self.zipper@.root() == start.root(),
                    self.remaining() == onward(start).drop_first(),
                decreases self.zipper@.path.len(),
            {
                let ghost here = self.zipper@;
                if self.zipper.go_right().is_some() {
                    proof {
                        lemma_onward_right(here);
                    }
                    break ;
                }
                if self.zipper.go_up().is_none() {
                    // At the top again, so this was the last node.
                    self.done = true;
                    assert(pending(here.path) =~= Seq::empty());
                    break ;
                }
                proof {
                    lemma_pending_up(here);
                }
            }
        } else {
            proof {
                lemma_onward_down(start);
            }
        }
        Some((node, context))
    }
}

/// The focus of a cursor below a top node of another type, and all that
/// comes after it among the values within the top node.
pub open spec fn onward_bi<To: Uniplate, From: Biplate<To>>(z: ZipperBiView<To, From>) -> Seq<To> {
    onward(z.inner) + universe_all(z.right)
}

/// What comes after the focus and all that lies below it.
pub open spec fn pending_bi<To: Uniplate, From: Biplate<To>>(z: ZipperBiView<To, From>) -> Seq<
    To,
> {
    pending(z.inner.path) + universe_all(z.right)
}

/// Starting at the leftmost of the topmost values, everything within the
/// top node is to come.
pub proof fn lemma_onward_bi_top<To: Uniplate, From: Biplate<To>>(top: From)
    requires
        ZipperBiView::<To, From>::has_top(top),
    ensures
        onward_bi(ZipperBiView::<To, From>::at_top(top)) == universe_bi::<To, From>(top),
{
    let z = ZipperBiView::<To, From>::at_top(top);
    lemma_universe_all_first(children_bi::<To, From>(top));
    assert(onward_bi(z) =~= universe_bi::<To, From>(top));
}

/// Going down to the first child leaves what comes after the focus.
pub proof fn lemma_onward_bi_down<To: Uniplate, From: Biplate<To>>(z: ZipperBiView<To, From>)
    requires
        z.has_down(),
    ensures
        onward_bi(z.down()) == onward_bi(z).drop_first(),
{
    lemma_onward_down(z.inner);
    assert(onward_bi(z.down()) =~= onward_bi(z).drop_first());
}

/// A node without children is all of its universe.
pub proof fn lemma_onward_bi_leaf<To: Uniplate, From: Biplate<To>>(z: ZipperBiView<To, From>)
    requires
        !z.has_down(),
    ensures
        pending_bi(z) == onward_bi(z).drop_first(),
{
    lemma_onward_leaf(z.inner);
    lemma_universe_unfold(z.inner.focus);
    assert(pending_bi(z) =~= onward_bi(z).drop_first());
}

/// Going right continues with what was pending.
pub proof fn lemma_onward_bi_right<To: Uniplate, From: Biplate<To>>(z: ZipperBiView<To, From>)
    requires
        z.has_right(),
    ensures
        onward_bi(z.right()) == pending_bi(z),
{
    if z.inner.has_up() {
        lemma_onward_right(z.inner);
    } else {
        lemma_universe_all_first(z.right);
        assert(z.inner.path =~= Seq::empty());
        assert(onward_bi(z.right()) =~= pending_bi(z));
    }
}

/// Where there is nothing to the right, what is pending is what is pending
/// above, and nothing at the top.
pub proof fn lemma_pending_bi_up<To: Uniplate, From: Biplate<To>>(z: ZipperBiView<To, From>)
    requires
        !z.has_right(),
    ensures
        z.has_up() ==> pending_bi(z.up()) == pending_bi(z),
        !z.has_up() ==> pending_bi(z) == Seq::<To>::empty(),
{
    if z.has_up() {
        lemma_pending_up(z.inner);
    } else {
        assert(z.inner.path =~= Seq::empty());
        assert(z.right =~= Seq::empty());
        assert(pending_bi(z) =~= Seq::<To>::empty());
    }
}

/// A place in a node for a value of another type: the node with one of the
/// values within it taken out.
pub struct ContextBi<To: Uniplate, From: Biplate<To>> {
    zipper: ZipperBi<To, From>,
}

impl<To: Uniplate, From: Biplate<To>> View for ContextBi<To, From> {
    type V = ZipperBiView<To, From>;

    closed spec fn view(&self) -> ZipperBiView<To, From> {
        self.zipper@
    }
}

impl<To: Uniplate, From: Biplate<To>> ContextBi<To, From> {
    /// The cursor at the place is well formed.
    pub open spec fn wf(&self) -> bool {
        self@.wf()
    }

    /// The whole node with `x` at the place.
    pub open spec fn filled(&self, x: To) -> From {
        self@.with_focus(x).root()
    }

    /// Gives the whole node with `x` in the place of the value that was
    /// taken out.
    pub fn fill(&self, x: To) -> (r: From)
        requires
            self.wf(),
        ensures
            r == self.filled(x),
    {
        let mut zipper = self.zipper.clone();
        zipper.replace_focus(x);
        zipper.rebuild_root()
    }
}

/// The values of one type within a node of another in preorder, each with
/// its place in the node.
pub struct ContextIterBi<To: Uniplate, From: Biplate<To>> {
    zipper: Option<ZipperBi<To, From>>,
    done: bool,
}

impl<To: Uniplate, From: Biplate<To>> ContextIterBi<To, From> {
    /// The cursor is well formed.
    pub closed spec fn wf(&self) -> bool {
        self.zipper matches Some(z) ==> z.wf()
    }

    /// The cursor at the value that comes next, where there is a value of
    /// type `To` within the node.
    pub closed spec fn cursor(&self) -> ZipperBiView<To, From> {
        self.zipper->0@
    }

    /// The node that is walked, where there is a value of type `To` within
    /// it.
    pub closed spec fn root(&self) -> From {
        self.zipper->0@.root()
    }

    /// The values that are still to come.
    pub closed spec fn remaining(&self) -> Seq<To> {
        match self.zipper {
            Some(z) => if self.done {
                Seq::empty()
            } else {
                onward_bi(z@)
            },
            None => Seq::empty(),
        }
    }

    /// Starts at the leftmost of the topmost values within `root`.
    pub fn new(root: From) -> (it: Self)
        ensures
            it.wf(),
            it.remaining() == universe_bi::<To, From>(root),
            it.remaining().len() > 0 ==> it.root() == root && it.cursor() == ZipperBiView::<
                To,
                From,
            >::at_top(root),
    {
        proof {
            if ZipperBiView::<To, From>::has_top(root) {
                lemma_onward_bi_top::<To, From>(root);
                ZipperBiView::<To, From>::lemma_at_top(root);
            } else {
                assert(children_bi::<To, From>(root) =~= Seq::empty());
                assert(universe_bi::<To, From>(root) =~= Seq::empty());
            }
        }
        ContextIterBi { zipper: ZipperBi::new(root), done: false }
    }

    /// Gives the next value in preorder and its place in the node, or
    /// nothing when every value was given.
    ///
    /// The place filled with the value itself is the node that is walked.
    pub fn next(&mut self) -> (r: Option<(To, ContextBi<To, From>)>)
        requires
            old(self).wf(),
        ensures
            final(self).wf(),
            final(self).root() == old(self).root(),
            old(self).remaining().len() == 0 ==> r is None && final(self).remaining() == old(
                self,
            ).remaining(),
            old(self).remaining().len() > 0 ==> final(self).remaining() == old(
                self,
            ).remaining().drop_first(),
            old(self).remaining().len() > 0 ==> (r matches Some((node, context)) && node == old(
                self,
            ).remaining()[0] && context.wf() && context@ == old(self).cursor() && context@.focus()
                == node && context.filled(node) == old(self).root()),
    {
        if self.done {
            return None;
        }
        let mut zipper = match self.zipper.take() {
            Some(z) => z,
            None => {
                return None;
            },
        };
        let node = zipper.focus().clone();
        proof {
            zipper@.focus().lemma_clone(node);
            lemma_universe_unfold(node);
        }
        let context = ContextBi { zipper: zipper.clone() };
        let ghost start = zipper@;
        assert(start.with_focus(node) == start);
        let mut done = false;

        // Prepare for the next element: try moving down or right; if we
        // cannot, move up the tree until we can move right.
        if zipper.go_down().is_none() {
            proof {
                lemma_onward_bi_leaf(start);
            }
            loop
                invariant_except_break
                    !done,
                    pending_bi(zipper@) == onward_bi(start).drop_first(),
                invariant
                    zipper.wf(),
                    zipper@.root() == start.root(),
                ensures
                    zipper.wf(),
                    zipper@.root() == start.root(),
                    done ==> onward_bi(start).drop_first() == Seq::<To>::empty(),
                    !done ==> onward_bi(zipper@) == onward_bi(start).drop_first(),
                decreases zipper@.inner.path.len(),
            {
                let ghost here = zipper@;
                if zipper.go_right().is_some() {
                    proof {
                        lemma_onward_bi_right(here);
                    }
                    break ;
                }
                proof {
                    lemma_pending_bi_up(here);
                }
                if zipper.go_up().is_none() {
                    // At the top again, so this was the last value.
                    done = true;
                    break ;
                }
            }
        } else {
            proof {
                lemma_onward_bi_down(start);
            }
        }
        self.done = done;
        self.zipper = Some(zipper);
        Some((node, context))
    }
}

} // verus!
