//! Cursors into Uniplate types.
//!
//! A zipper is a cursor into a tree. The cursor can be moved to the parent,
//! the first child and the neighbouring siblings of the node it is at, and
//! the node at the cursor can be replaced without touching its ancestors:
//! they are put together again only when the cursor moves up.

use crate::traits::biplate::children_bi;
use crate::traits::biplate::with_children_bi;
use crate::traits::biplate::Biplate;
use crate::traits::biplate::BiplateExt;
use crate::traits::uniplate::children;
use crate::traits::uniplate::lemma_with_children_identity;
use crate::traits::uniplate::with_children;
use crate::traits::uniplate::Uniplate;
use crate::traits::uniplate::UniplateExt;
use std::collections::VecDeque;
use vstd::prelude::*;

verus! {

/// One level of the way from the focus back to the root: the siblings to
/// the left and to the right of the node on the way, and their parent as it
/// was when the cursor went down.
pub struct Frame<T> {
    /// The left siblings, leftmost first.
    pub left: Seq<T>,
    /// The right siblings, leftmost first.
    pub right: Seq<T>,
    /// The parent of the siblings.
    pub parent: T,
}

impl<T: Uniplate> Frame<T> {
    /// The frame has a place for each child of the parent.
    pub open spec fn wf(self) -> bool {
        self.left.len() + 1 + self.right.len() == children(self.parent).len()
    }

    /// All the nodes of the level, with `focus` in the open place.
    pub open spec fn row(self, focus: T) -> Seq<T> {
        self.left.push(focus) + self.right
    }

    /// The parent put together again, with `focus` in the open place.
    pub open spec fn closed(self, focus: T) -> T {
        with_children(self.parent, self.row(focus))
    }
}

/// The mathematical model of a zipper: the node at the cursor and the way
/// back to the root, the level below the root first.
pub struct ZipperView<T> {
    /// The node at the cursor.
    pub focus: T,
    /// The levels above the focus, immediate parent last.
    pub path: Seq<Frame<T>>,
}

impl<T: Uniplate> ZipperView<T> {
    /// Every level has a place for each child of its parent.
    pub open spec fn wf(self) -> bool {
        forall|i: int| 0 <= i < self.path.len() ==> #[trigger] self.path[i].wf()
    }

    /// The cursor at `root`, with nothing above it.
    pub open spec fn at_root(root: T) -> Self {
        ZipperView { focus: root, path: Seq::empty() }
    }

    /// The same cursor with `focus` in the place of the node it is at.
    pub open spec fn with_focus(self, focus: T) -> Self {
        ZipperView { focus, path: self.path }
    }

    /// The focus has a parent.
    pub open spec fn has_up(self) -> bool {
        self.path.len() > 0
    }

    /// The cursor moved to the parent, which holds the focus as it is now.
    pub open spec fn up(self) -> Self {
        ZipperView { focus: self.path.last().closed(self.focus), path: self.path.drop_last() }
    }

    /// The focus has a child.
    pub open spec fn has_down(self) -> bool {
        children(self.focus).len() > 0
    }

    /// The cursor moved to the first child of the focus.
    pub open spec fn down(self) -> Self {
        ZipperView {
            focus: children(self.focus)[0],
            path: self.path.push(
                Frame {
                    left: Seq::empty(),
                    right: children(self.focus).drop_first(),
                    parent: self.focus,
                },
            ),
        }
    }

    /// The focus has a sibling to its left.
    pub open spec fn has_left(self) -> bool {
        self.path.len() > 0 && self.path.last().left.len() > 0
    }

    /// The cursor moved to the sibling next to the focus on the left.
    pub open spec fn left(self) -> Self {
        let f = self.path.last();
        ZipperView {
            focus: f.left.last(),
            path: self.path.drop_last().push(
                Frame {
                    left: f.left.drop_last(),
                    right: seq![self.focus] + f.right,
                    parent: f.parent,
                },
            ),
        }
    }

    /// The focus has a sibling to its right.
    pub open spec fn has_right(self) -> bool {
        self.path.len() > 0 && self.path.last().right.len() > 0
    }

    /// The cursor moved to the sibling next to the focus on the right.
    pub open spec fn right(self) -> Self {
        let f = self.path.last();
        ZipperView {
            focus: f.right.first(),
            path: self.path.drop_last().push(
                Frame {
                    left: f.left.push(self.focus),
                    right: f.right.drop_first(),
                    parent: f.parent,
                },
            ),
        }
    }

    /// The whole tree, every level put together again around the focus.
    pub open spec fn root(self) -> T
        decreases self.path.len(),
    {
        if self.path.len() == 0 {
            self.focus
        } else {
            self.up().root()
        }
    }

    /// The ancestors of the focus as they are with the focus as it is now,
    /// the parent first and the root last.
    pub open spec fn ancestors(self) -> Seq<T>
        decreases self.path.len(),
    {
        if self.path.len() == 0 {
            Seq::empty()
        } else {
            seq![self.up().focus] + self.up().ancestors()
        }
    }

    /// Moving to the first child and rebuilding gives the same tree.
    pub proof fn lemma_down_root(self)
        requires
            self.has_down(),
        ensures
            self.down().wf() == self.wf(),
            self.down().up() == self,
            self.down().root() == self.root(),
    {
        let d = self.down();
        let cs = children(self.focus);
        assert(d.path.drop_last() =~= self.path);
        assert(d.path.last().row(d.focus) =~= cs);
        lemma_with_children_identity(self.focus);
        assert(d.up() == self);
        if self.wf() {
            assert forall|i: int| 0 <= i < d.path.len() implies #[trigger] d.path[i].wf() by {
                if i < self.path.len() {
                    assert(d.path[i] == self.path[i]);
                }
            }
        }
        if d.wf() {
            assert forall|i: int| 0 <= i < self.path.len() implies #[trigger] self.path[i].wf() by {
                assert(d.path[i] == self.path[i]);
            }
        }
    }

    /// Moving to the left sibling and rebuilding gives the same tree.
    pub proof fn lemma_left_root(self)
        requires
            self.has_left(),
        ensures
            self.left().wf() == self.wf(),
            self.left().right() == self,
            self.left().up() == self.up(),
            self.left().root() == self.root(),
    {
        let l = self.left();
        let f = self.path.last();
        assert(l.path.drop_last() =~= self.path.drop_last());
        assert(l.path.last().row(l.focus) =~= f.row(self.focus));
        assert(l.up() == self.up());
        assert(l.path.last().left.push(l.focus) =~= f.left);
        assert(l.path.last().right.drop_first() =~= f.right);
        assert(self.path.drop_last().push(f) =~= self.path);
        assert(l.right() == self);
        self.lemma_wf_last(l);
    }

    /// Moving to the right sibling and rebuilding gives the same tree.
    pub proof fn lemma_right_root(self)
        requires
            self.has_right(),
        ensures
            self.right().wf() == self.wf(),
            self.right().left() == self,
            self.right().up() == self.up(),
            self.right().root() == self.root(),
    {
        let r = self.right();
        let f = self.path.last();
        assert(r.path.drop_last() =~= self.path.drop_last());
        assert(r.path.last().row(r.focus) =~= f.row(self.focus));
        assert(r.up() == self.up());
        assert(r.path.last().left.drop_last() =~= f.left);
        assert(seq![r.focus] + r.path.last().right =~= f.right);
        assert(self.path.drop_last().push(f) =~= self.path);
        assert(r.left() == self);
        self.lemma_wf_last(r);
    }

    /// Two cursors that differ in the last level alone, which has as many
    /// places in both, are well formed together.
    proof fn lemma_wf_last(self, other: Self)
        requires
            self.path.len() > 0,
            other.path.len() == self.path.len(),
            other.path.drop_last() == self.path.drop_last(),
            other.path.last().wf() == self.path.last().wf(),
        ensures
            other.wf() == self.wf(),
    {
        let n = self.path.len() - 1;
        if self.wf() {
            assert forall|i: int| 0 <= i < other.path.len() implies #[trigger] other.path[i].wf() by {
                if i < n {
                    assert(other.path[i] == other.path.drop_last()[i]);
                    assert(self.path[i] == self.path.drop_last()[i]);
                } else {
                    assert(self.path[n].wf());
                }
            }
        }
        if other.wf() {
            assert forall|i: int| 0 <= i < self.path.len() implies #[trigger] self.path[i].wf() by {
                if i < n {
                    assert(other.path[i] == other.path.drop_last()[i]);
                    assert(self.path[i] == self.path.drop_last()[i]);
                } else {
                    assert(other.path[n].wf());
                }
            }
        }
    }

    /// Moving up keeps the cursor well formed and the tree the same.
    pub proof fn lemma_up_root(self)
        requires
            self.has_up(),
        ensures
            self.wf() ==> self.up().wf(),
            self.up().root() == self.root(),
    {
        if self.wf() {
            let u = self.up();
            assert forall|i: int| 0 <= i < u.path.len() implies #[trigger] u.path[i].wf() by {
                assert(u.path[i] == self.path[i]);
            }
        }
    }
}

/// A copy of a list of nodes.
pub(crate) fn clone_nodes<T: Uniplate>(nodes: &VecDeque<T>) -> (r: VecDeque<T>)
    ensures
        r@ == nodes@,
{
    let mut out: VecDeque<T> = VecDeque::new();
    let mut i: usize = 0;
    while i < nodes.len()
        invariant
            i <= nodes.len(),
            out@ == nodes@.take(i as int),
        decreases nodes.len() - i,
    {
        let c = nodes[i].clone();
        proof {
            nodes@[i as int].lemma_clone(c);
        }
        out.push_back(c);
        assert(out@ =~= nodes@.take(i as int + 1));
        i += 1;
    }
    assert(nodes@.take(i as int) =~= nodes@);
    out
}

struct PathSegment<T: Uniplate> {
    /// Left siblings of the node, leftmost first.
    left: VecDeque<T>,
    /// Right siblings of the node, leftmost first.
    right: VecDeque<T>,
    /// The parent of the node, as it was when the cursor went down.
    parent: T,
}

impl<T: Uniplate> View for PathSegment<T> {
    type V = Frame<T>;

    closed spec fn view(&self) -> Frame<T> {
        Frame { left: self.left@, right: self.right@, parent: self.parent }
    }
}

impl<T: Uniplate> Clone for PathSegment<T> {
    fn clone(&self) -> (r: Self)
        ensures
            r@ == self@,
    {
        let parent = self.parent.clone();
        proof {
            self.parent.lemma_clone(parent);
        }
        PathSegment { left: clone_nodes(&self.left), right: clone_nodes(&self.right), parent }
    }
}

/// A Zipper over `Uniplate` types.
///
/// See the module-level documentation.
pub struct Zipper<T: Uniplate> {
    /// The current node.
    focus: T,
    /// The path back to the top, immediate parent last.
    ///
    /// If empty, the focus is the top level node.
    path: Vec<PathSegment<T>>,
}

impl<T: Uniplate> View for Zipper<T> {
    type V = ZipperView<T>;

    closed spec fn view(&self) -> ZipperView<T> {
        ZipperView {
            focus: self.focus,
            path: Seq::new(self.path@.len(), |i: int| self.path@[i]@),
        }
    }
}

impl<T: Uniplate> Clone for Zipper<T> {
    fn clone(&self) -> (r: Self)
        ensures
            r@ == self@,
    {
        let focus = self.focus.clone();
        proof {
            self.focus.lemma_clone(focus);
        }
        let mut path: Vec<PathSegment<T>> = Vec::new();
        let mut i: usize = 0;
        while i < self.path.len()
            invariant
                i <= self.path.len(),
                path@.len() == i,
                forall|j: int| 0 <= j < i ==> #[trigger] path@[j]@ == self.path@[j]@,
            decreases self.path.len() - i,
        {
            let seg = self.path[i].clone();
            path.push(seg);
            i += 1;
        }
        let r = Zipper { focus, path };
        assert(r@.path =~= self@.path);
        r
    }
}

impl<T: Uniplate> Zipper<T> {
    /// Every level of the path has a place for each child of its parent.
    pub open spec fn wf(&self) -> bool {
        self@.wf()
    }

    /// Creates a new [`Zipper`] with `root` as the root node.
    ///
    /// The focus is initially the root node.
    pub fn new(root: T) -> (z: Self)
        ensures
            z@ == ZipperView::at_root(root),
            z.wf(),
    {
        let z = Zipper { focus: root, path: Vec::new() };
        assert(z@.path =~= Seq::empty());
        z
    }

    /// Borrows the current focus.
    pub fn focus(&self) -> (r: &T)
        ensures
            *r == self@.focus,
    {
        &self.focus
    }

    /// Returns the depth of the focus from the root.
    pub fn depth(&self) -> (r: usize)
        ensures
            r == self@.path.len(),
    {
        self.path.len()
    }

    /// Returns whether the focus has a parent.
    pub fn has_up(&self) -> (r: bool)
        ensures
            r == self@.has_up(),
    {
        self.path.len() > 0
    }

    /// Returns whether the focus has a child.
    pub fn has_down(&self) -> (r: bool)
        ensures
            r == self@.has_down(),
    {
        !self.focus.uniplate().is_empty()
    }

    /// Returns whether the focus has a sibling to its left.
    pub fn has_left(&self) -> (r: bool)
        ensures
            r == self@.has_left(),
    {
        let n = self.path.len();
        n > 0 && self.path[n - 1].left.len() > 0
    }

    /// Returns whether the focus has a sibling to its right.
    pub fn has_right(&self) -> (r: bool)
        ensures
            r == self@.has_right(),
    {
        let n = self.path.len();
        n > 0 && self.path[n - 1].right.len() > 0
    }

    /// Returns the place of the focus among its siblings, counted from the
    /// left and from zero, or nothing at the root.
    pub fn siblings_index(&self) -> (r: Option<usize>)
        ensures
            r == if self@.has_up() {
                Some(self@.path.last().left.len() as usize)
            } else {
                None
            },
    {
        let n = self.path.len();
        if n > 0 {
            Some(self.path[n - 1].left.len())
        } else {
            None
        }
    }
}

impl<T: Uniplate> Zipper<T> {
    /// The view of a path is the row of the views of its segments.
    proof fn lemma_view(self)
        ensures
            self@.focus == self.focus,
            self@.path.len() == self.path@.len(),
            forall|i: int| 0 <= i < self.path@.len() ==> #[trigger] self@.path[i] == self.path@[i]@,
    {
    }

    /// Borrows the current focus through a mutable borrow of the zipper.
    ///
    /// The zipper is left as it is.
    pub fn focus_mut(&mut self) -> (r: &T)
        ensures
            *r == old(self)@.focus,
            final(self)@ == old(self)@,
    {
        &self.focus
    }

    /// Replaces the focus of the [`Zipper`], returning the old focus.
    pub fn replace_focus(&mut self, new_focus: T) -> (r: T)
        ensures
            r == old(self)@.focus,
            final(self)@ == old(self)@.with_focus(new_focus),
            final(self).wf() == old(self).wf(),
    {
        let mut held = new_focus;
        std::mem::swap(&mut self.focus, &mut held);
        assert(self@.path =~= old(self)@.path);
        held
    }

    /// Sets the focus to the parent of the focus (if it exists).
    ///
    /// The parent is put together again around the focus as it is now and
    /// its siblings.
    pub fn go_up(&mut self) -> (r: Option<()>)
        requires
            old(self).wf(),
        ensures
            final(self).wf(),
            r == if old(self)@.has_up() {
                Some(())
            } else {
                None
            },
            final(self)@ == if old(self)@.has_up() {
                old(self)@.up()
            } else {
                old(self)@
            },
            final(self)@.root() == old(self)@.root(),
    {
        proof {
            old(self).lemma_view();
        }
        match self.path.pop() {
            None => {
                assert(self@.path =~= old(self)@.path);
                None
            },
            Some(seg) => {
                proof {
                    old(self)@.lemma_up_root();
                    assert(self@.path =~= old(self)@.path.drop_last());
                    assert(seg@ == old(self)@.path.last());
                }
                let PathSegment { left, right, parent } = seg;
                let mut row = left;
                let mut right = right;
                let focus = self.focus.clone();
                proof {
                    self.focus.lemma_clone(focus);
                }
                row.push_back(focus);
                row.append(&mut right);
                proof {
                    assert(old(self)@.path[old(self)@.path.len() - 1].wf());
                    assert(row@ =~= seg@.row(focus));
                }
                let (_, rebuild) = parent.uniplate().list();
                proof {
                    parent.shape().lemma_refill_skeleton(row@);
                }
                self.focus = parent.reconstruct(rebuild(row));
                assert(self@.path =~= old(self)@.path.drop_last());
                Some(())
            },
        }
    }

    /// Sets the focus to the left-most child of the focus (if it exists).
    pub fn go_down(&mut self) -> (r: Option<()>)
        requires
            old(self).wf(),
        ensures
            final(self).wf(),
            r == if old(self)@.has_down() {
                Some(())
            } else {
                None
            },
            final(self)@ == if old(self)@.has_down() {
                old(self)@.down()
            } else {
                old(self)@
            },
            final(self)@.root() == old(self)@.root(),
    {
        proof {
            old(self).lemma_view();
        }
        let mut siblings = self.focus.children();
        match siblings.pop_front() {
            None => None,
            Some(new_focus) => {
                proof {
                    old(self)@.lemma_down_root();
                }
                let mut parent = new_focus;
                std::mem::swap(&mut self.focus, &mut parent);
                let ghost frame = Frame { left: Seq::<T>::empty(), right: siblings@, parent };
                assert(siblings@ =~= children(parent).drop_first());
                assert(frame.wf());
                let seg = PathSegment { left: VecDeque::new(), right: siblings, parent };
                assert(seg@ == frame);
                self.path.push(seg);
                assert(self@.path =~= old(self)@.down().path);
                Some(())
            },
        }
    }
}

impl<T: Uniplate> Zipper<T> {
    /// Sets the focus to the left sibling of the focus (if it exists).
    pub fn go_left(&mut self) -> (r: Option<()>)
        requires
            old(self).wf(),
        ensures
            final(self).wf(),
            r == if old(self)@.has_left() {
                Some(())
            } else {
                None
            },
            final(self)@ == if old(self)@.has_left() {
                old(self)@.left()
            } else {
                old(self)@
            },
            final(self)@.root() == old(self)@.root(),
    {
        proof {
            old(self).lemma_view();
        }
        if !self.has_left() {
            return None;
        }
        proof {
            old(self)@.lemma_left_root();
        }
        let mut seg = self.path.pop().unwrap();
        let mut old_focus = seg.left.pop_back().unwrap();
        std::mem::swap(&mut self.focus, &mut old_focus);
        seg.right.push_front(old_focus);
        assert(seg@ == old(self)@.left().path.last());
        self.path.push(seg);
        assert(self@.path =~= old(self)@.left().path);
        Some(())
    }

    /// Sets the focus to the right sibling of the focus (if it exists).
    pub fn go_right(&mut self) -> (r: Option<()>)
        requires
            old(self).wf(),
        ensures
            final(self).wf(),
            r == if old(self)@.has_right() {
                Some(())
            } else {
                None
            },
            final(self)@ == if old(self)@.has_right() {
                old(self)@.right()
            } else {
                old(self)@
            },
            final(self)@.root() == old(self)@.root(),
    {
        proof {
            old(self).lemma_view();
        }
        if !self.has_right() {
            return None;
        }
        proof {
            old(self)@.lemma_right_root();
        }
        let mut seg = self.path.pop().unwrap();
        let mut old_focus = seg.right.pop_front().unwrap();
        std::mem::swap(&mut self.focus, &mut old_focus);
        seg.left.push_back(old_focus);
        assert(seg@ == old(self)@.right().path.last());
        self.path.push(seg);
        assert(self@.path =~= old(self)@.right().path);
        Some(())
    }

    /// Rebuilds the root node, consuming the [`Zipper`].
    ///
    /// Every level is put together again around the focus as it is now.
    pub fn rebuild_root(self) -> (r: T)
        requires
            self.wf(),
        ensures
            r == self@.root(),
    {
        let mut zipper = self;
        while zipper.has_up()
            invariant
                zipper.wf(),
                zipper@.root() == self@.root(),
            decreases zipper@.path.len(),
        {
            zipper.go_up();
        }
        zipper.focus
    }

    /// Returns the left siblings of the focus, leftmost first.
    pub fn iter_left_siblings(&self) -> (r: VecDeque<T>)
        ensures
            r@ == if self@.has_up() {
                self@.path.last().left
            } else {
                Seq::empty()
            },
    {
        let n = self.path.len();
        if n > 0 {
            clone_nodes(&self.path[n - 1].left)
        } else {
            VecDeque::new()
        }
    }

    /// Returns the right siblings of the focus, leftmost first.
    pub fn iter_right_siblings(&self) -> (r: VecDeque<T>)
        ensures
            r@ == if self@.has_up() {
                self@.path.last().right
            } else {
                Seq::empty()
            },
    {
        let n = self.path.len();
        if n > 0 {
            clone_nodes(&self.path[n - 1].right)
        } else {
            VecDeque::new()
        }
    }

    /// Returns the focus and its siblings, leftmost first.
    pub fn iter_siblings(&self) -> (r: VecDeque<T>)
        ensures
            r@ == if self@.has_up() {
                self@.path.last().row(self@.focus)
            } else {
                seq![self@.focus]
            },
    {
        let mut row = self.iter_left_siblings();
        let focus = self.focus.clone();
        proof {
            self.focus.lemma_clone(focus);
        }
        row.push_back(focus);
        let mut right = self.iter_right_siblings();
        row.append(&mut right);
        proof {
            if self@.has_up() {
                assert(row@ =~= self@.path.last().row(self@.focus));
            } else {
                assert(row@ =~= seq![self@.focus]);
            }
        }
        row
    }

    /// Returns the ancestors of the focus as they are with the focus as it
    /// is now, the parent first and the root last.
    pub fn iter_ancestors(&self) -> (r: Vec<T>)
        requires
            self.wf(),
        ensures
            r@ == self@.ancestors(),
    {
        let mut zipper = self.clone();
        let mut out: Vec<T> = Vec::new();
        assert(out@ + zipper@.ancestors() =~= self@.ancestors());
        while zipper.has_up()
            invariant
                zipper.wf(),
                out@ + zipper@.ancestors() == self@.ancestors(),
            decreases zipper@.path.len(),
        {
            let ghost before = zipper@;
            let ghost sofar = out@;
            zipper.go_up();
            let node = zipper.focus.clone();
            proof {
                zipper.focus.lemma_clone(node);
            }
            out.push(node);
            assert(out@ + zipper@.ancestors() =~= sofar + before.ancestors());
        }
        assert(out@ + zipper@.ancestors() =~= out@);
        out
    }
}

/// The mathematical model of a [`ZipperBi`]: the level below the top node,
/// which is of another type, and below that level a cursor as in a
/// [`Zipper`].
pub struct ZipperBiView<To, From> {
    /// The values to the left of the one the cursor is in, leftmost first.
    pub left: Seq<To>,
    /// The values to the right of the one the cursor is in, leftmost first.
    pub right: Seq<To>,
    /// The top node.
    pub top: From,
    /// The cursor within one of the topmost values of the top node.
    pub inner: ZipperView<To>,
}

impl<To: Uniplate, From: Biplate<To>> ZipperBiView<To, From> {
    /// Every level has a place for each child of its parent.
    pub open spec fn wf(self) -> bool {
        &&& self.inner.wf()
        &&& self.left.len() + 1 + self.right.len() == children_bi::<To, From>(self.top).len()
    }

    /// The top node has a value to put the cursor at.
    pub open spec fn has_top(top: From) -> bool {
        children_bi::<To, From>(top).len() > 0
    }

    /// The cursor at the leftmost of the topmost values of `top`.
    pub open spec fn at_top(top: From) -> Self {
        ZipperBiView {
            left: Seq::empty(),
            right: children_bi::<To, From>(top).drop_first(),
            top,
            inner: ZipperView::at_root(children_bi::<To, From>(top)[0]),
        }
    }

    /// The node at the cursor.
    pub open spec fn focus(self) -> To {
        self.inner.focus
    }

    /// The number of levels above the focus, the top node counted.
    pub open spec fn depth(self) -> nat {
        self.inner.path.len() + 1
    }

    /// The same cursor with `focus` in the place of the node it is at.
    pub open spec fn with_focus(self, focus: To) -> Self {
        ZipperBiView { inner: self.inner.with_focus(focus), ..self }
    }

    /// The focus has a parent of its own type.
    pub open spec fn has_up(self) -> bool {
        self.inner.has_up()
    }

    /// The cursor moved to the parent.
    pub open spec fn up(self) -> Self {
        ZipperBiView { inner: self.inner.up(), ..self }
    }

    /// The focus has a child.
    pub open spec fn has_down(self) -> bool {
        self.inner.has_down()
    }

    /// The cursor moved to the first child of the focus.
    pub open spec fn down(self) -> Self {
        ZipperBiView { inner: self.inner.down(), ..self }
    }

    /// The focus has a sibling to its left.
    pub open spec fn has_left(self) -> bool {
        if self.inner.has_up() {
            self.inner.has_left()
        } else {
            self.left.len() > 0
        }
    }

    /// The cursor moved to the sibling next to the focus on the left.
    pub open spec fn left(self) -> Self {
        if self.inner.has_up() {
            ZipperBiView { inner: self.inner.left(), ..self }
        } else {
            ZipperBiView {
                left: self.left.drop_last(),
                right: seq![self.inner.focus] + self.right,
                top: self.top,
                inner: ZipperView::at_root(self.left.last()),
            }
        }
    }

    /// The focus has a sibling to its right.
    pub open spec fn has_right(self) -> bool {
        if self.inner.has_up() {
            self.inner.has_right()
        } else {
            self.right.len() > 0
        }
    }

    /// The cursor moved to the sibling next to the focus on the right.
    pub open spec fn right(self) -> Self {
        if self.inner.has_up() {
            ZipperBiView { inner: self.inner.right(), ..self }
        } else {
            ZipperBiView {
                left: self.left.push(self.inner.focus),
                right: self.right.drop_first(),
                top: self.top,
                inner: ZipperView::at_root(self.right.first()),
            }
        }
    }

    /// The whole top node, every level put together again around the focus.
    pub open spec fn root(self) -> From {
        with_children_bi(self.top, self.left.push(self.inner.root()) + self.right)
    }

    /// The cursor at the leftmost value of a top node is well formed, and
    /// rebuilding from it gives the top node.
    pub proof fn lemma_at_top(top: From)
        requires
            Self::has_top(top),
        ensures
            Self::at_top(top).wf(),
            Self::at_top(top).root() == top,
    {
        let v = Self::at_top(top);
        assert(v.left.push(v.inner.root()) + v.right =~= children_bi::<To, From>(top));
        crate::traits::biplate::lemma_with_children_bi_identity::<To, From>(top);
    }

    /// Moving to the left sibling and rebuilding gives the same top node.
    pub proof fn lemma_left_root(self)
        requires
            self.has_left(),
        ensures
            self.left().wf() == self.wf(),
            self.left().root() == self.root(),
    {
        if self.inner.has_up() {
            self.inner.lemma_left_root();
        } else {
            let l = self.left();
            assert(l.left.push(l.inner.root()) + l.right =~= self.left.push(self.inner.root())
                + self.right);
        }
    }

    /// Moving to the right sibling and rebuilding gives the same top node.
    pub proof fn lemma_right_root(self)
        requires
            self.has_right(),
        ensures
            self.right().wf() == self.wf(),
            self.right().root() == self.root(),
    {
        if self.inner.has_up() {
            self.inner.lemma_right_root();
        } else {
            let r = self.right();
            assert(r.left.push(r.inner.root()) + r.right =~= self.left.push(self.inner.root())
                + self.right);
        }
    }
}

/// A Zipper over `Biplate` types.
///
/// A `ZipperBi<To, From>` traverses through all values of type `To` in a
/// value of type `From`.
///
/// Unlike [`Zipper`], the root node can never be focused on (as it is not of
/// type `To`). Instead, the initial node is the left-most child.
pub struct ZipperBi<To: Uniplate, From: Biplate<To>> {
    /// The topmost values to the left of the one the cursor is in.
    left: VecDeque<To>,
    /// The topmost values to the right of the one the cursor is in.
    right: VecDeque<To>,
    /// The top node, as it was when the zipper was made.
    top: From,
    /// The cursor within one of the topmost values.
    zipper: Zipper<To>,
}

impl<To: Uniplate, From: Biplate<To>> View for ZipperBi<To, From> {
    type V = ZipperBiView<To, From>;

    closed spec fn view(&self) -> ZipperBiView<To, From> {
        ZipperBiView { left: self.left@, right: self.right@, top: self.top, inner: self.zipper@ }
    }
}

impl<To: Uniplate, From: Biplate<To>> Clone for ZipperBi<To, From> {
    fn clone(&self) -> (r: Self)
        ensures
            r@ == self@,
    {
        let top = self.top.clone();
        proof {
            self.top.lemma_clone(top);
        }
        ZipperBi {
            left: clone_nodes(&self.left),
            right: clone_nodes(&self.right),
            top,
            zipper: self.zipper.clone(),
        }
    }
}

impl<To: Uniplate, From: Biplate<To>> ZipperBi<To, From> {
    /// Every level of the path has a place for each child of its parent.
    pub open spec fn wf(&self) -> bool {
        self@.wf()
    }

    /// Creates a new [`ZipperBi`] with `top` as the root node.
    ///
    /// The focus is set to the left-most child of `top`.
    ///
    /// Returns `None` if the root node has no children of type `To`.
    pub fn new(top: From) -> (r: Option<Self>)
        ensures
            r is Some == ZipperBiView::<To, From>::has_top(top),
            r matches Some(z) ==> z@ == ZipperBiView::<To, From>::at_top(top) && z.wf(),
    {
        let mut siblings = top.children_bi();
        match siblings.pop_front() {
            None => None,
            Some(focus) => {
                proof {
                    ZipperBiView::<To, From>::lemma_at_top(top);
                }
                let z = ZipperBi {
                    left: VecDeque::new(),
                    right: siblings,
                    top,
                    zipper: Zipper::new(focus),
                };
                assert(z@.right =~= ZipperBiView::<To, From>::at_top(top).right);
                Some(z)
            },
        }
    }

    /// Borrows the current focus.
    pub fn focus(&self) -> (r: &To)
        ensures
            *r == self@.focus(),
    {
        self.zipper.focus()
    }

    /// Borrows the current focus through a mutable borrow of the zipper.
    ///
    /// The zipper is left as it is.
    pub fn focus_mut(&mut self) -> (r: &To)
        ensures
            *r == old(self)@.focus(),
            final(self)@ == old(self)@,
    {
        self.zipper.focus()
    }

    /// Replaces the focus, returning the old focus.
    pub fn replace_focus(&mut self, new_focus: To) -> (r: To)
        ensures
            r == old(self)@.focus(),
            final(self)@ == old(self)@.with_focus(new_focus),
            final(self).wf() == old(self).wf(),
    {
        self.zipper.replace_focus(new_focus)
    }

    /// Rebuilds the root node, consuming the [`ZipperBi`].
    pub fn rebuild_root(self) -> (r: From)
        requires
            self.wf(),
        ensures
            r == self@.root(),
    {
        let ZipperBi { left, right, top, zipper } = self;
        let mut row = left;
        let mut right = right;
        let node = zipper.rebuild_root();
        row.push_back(node);
        row.append(&mut right);
        let (_, rebuild) = top.biplate().list();
        proof {
            top.shape_bi().lemma_refill_skeleton(row@);
        }
        top.reconstruct_bi(rebuild(row))
    }

    /// Returns the depth of the focus from the root, or the greatest number
    /// there is where the depth is greater.
    pub fn depth(&self) -> (r: usize)
        ensures
            r == if self@.depth() <= usize::MAX {
                self@.depth()
            } else {
                usize::MAX as nat
            },
    {
        let below = self.zipper.depth();
        if below < usize::MAX {
            below + 1
        } else {
            below
        }
    }

    /// Sets the focus to the parent of the focus, if it exists and is of
    /// type `To`.
    ///
    /// To get the topmost node (of type `From`), use
    /// [`rebuild_root`](ZipperBi::rebuild_root).
    pub fn go_up(&mut self) -> (r: Option<()>)
        requires
            old(self).wf(),
        ensures
            final(self).wf(),
            r == if old(self)@.has_up() {
                Some(())
            } else {
                None
            },
            final(self)@ == if old(self)@.has_up() {
                old(self)@.up()
            } else {
                old(self)@
            },
            final(self)@.root() == old(self)@.root(),
    {
        self.zipper.go_up()
    }

    /// Sets the focus to the left-most child of the focus (if it exists).
    pub fn go_down(&mut self) -> (r: Option<()>)
        requires
            old(self).wf(),
        ensures
            final(self).wf(),
            r == if old(self)@.has_down() {
                Some(())
            } else {
                None
            },
            final(self)@ == if old(self)@.has_down() {
                old(self)@.down()
            } else {
                old(self)@
            },
            final(self)@.root() == old(self)@.root(),
    {
        self.zipper.go_down()
    }

    /// Sets the focus to the left sibling of the focus (if it exists).
    pub fn go_left(&mut self) -> (r: Option<()>)
        requires
            old(self).wf(),
        ensures
            final(self).wf(),
            r == if old(self)@.has_left() {
                Some(())
            } else {
                None
            },
            final(self)@ == if old(self)@.has_left() {
                old(self)@.left()
            } else {
                old(self)@
            },
            final(self)@.root() == old(self)@.root(),
    {
        if self.zipper.has_up() {
            self.zipper.go_left()
        } else {
            match self.left.pop_back() {
                None => None,
                Some(sibling) => {
                    proof {
                        old(self)@.lemma_left_root();
                    }
                    let old_focus = self.zipper.replace_focus(sibling);
                    self.right.push_front(old_focus);
                    assert(self@.inner.path =~= Seq::empty());
                    Some(())
                },
            }
        }
    }

    /// Sets the focus to the right sibling of the focus (if it exists).
    pub fn go_right(&mut self) -> (r: Option<()>)
        requires
            old(self).wf(),
        ensures
            final(self).wf(),
            r == if old(self)@.has_right() {
                Some(())
            } else {
                None
            },
            final(self)@ == if old(self)@.has_right() {
                old(self)@.right()
            } else {
                old(self)@
            },
            final(self)@.root() == old(self)@.root(),
    {
        if self.zipper.has_up() {
            self.zipper.go_right()
        } else {
            match self.right.pop_front() {
                None => None,
                Some(sibling) => {
                    proof {
                        old(self)@.lemma_right_root();
                    }
                    let old_focus = self.zipper.replace_focus(sibling);
                    self.left.push_back(old_focus);
                    assert(self@.inner.path =~= Seq::empty());
                    assert(self@.right =~= old(self)@.right().right);
                    Some(())
                },
            }
        }
    }
}

} // verus!
