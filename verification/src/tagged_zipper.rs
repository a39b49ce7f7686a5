//! A Tagged Zipper is a wrapper around a Zipper that allows for attaching
//! arbitrary data to each node.
//!
//! Each position in the tree has a tag of its own. A tag is made by the
//! constructor function when the cursor first comes to the position, and
//! is kept while the cursor is elsewhere. Replacing the focus drops the tags
//! of the focus and of everything below it, since that part of the tree may
//! have changed: they are made anew when the cursor comes to them.

use crate::traits::uniplate::Uniplate;
use crate::zipper::Zipper;
use crate::zipper::ZipperView;
use std::collections::VecDeque;
use vstd::prelude::*;

verus! {

/// The tags of a position and of the positions below it that the cursor has
/// been to: of the first children, as many as it has visited.
pub struct TagTree<D> {
    /// The tag of the position.
    pub data: D,
    /// The tags of the children, leftmost first.
    pub children: Seq<TagTree<D>>,
}

/// The tags that belong to one level of the way back to the root.
pub struct TagFrame<D> {
    /// The tag of the parent.
    pub data: D,
    /// The tags of the left siblings, leftmost first.
    pub left: Seq<TagTree<D>>,
    /// The tags of the right siblings that have any, leftmost first.
    pub right: Seq<TagTree<D>>,
}

impl<D> TagTree<D> {
    /// The tags of a position that the cursor has just come to.
    pub open spec fn fresh(data: D) -> Self {
        TagTree { data, children: Seq::empty() }
    }
}

impl<D> TagFrame<D> {
    /// The tags of the parent, with `tag` for the child in the open place.
    pub open spec fn closed(self, tag: TagTree<D>) -> TagTree<D> {
        TagTree { data: self.data, children: self.left.push(tag) + self.right }
    }
}

/// The mathematical model of a [`TaggedZipper`]: the cursor, the tags at and
/// below the focus, and the tags along the way back to the root.
pub struct TaggedView<T, D> {
    /// The cursor.
    pub zipper: ZipperView<T>,
    /// The tags at and below the focus.
    pub tag: TagTree<D>,
    /// The tags along the way back to the root, immediate parent last.
    pub frames: Seq<TagFrame<D>>,
}

impl<T: Uniplate, D> TaggedView<T, D> {
    /// The cursor is well formed, there are tags for every level, and on
    /// every level for every left sibling.
    pub open spec fn wf(self) -> bool {
        &&& self.zipper.wf()
        &&& self.frames.len() == self.zipper.path.len()
        &&& forall|i: int|
            0 <= i < self.frames.len() ==> (#[trigger] self.frames[i]).left.len()
                == self.zipper.path[i].left.len()
    }

    /// The cursor at `root`, with `data` for its tag.
    pub open spec fn at_root(root: T, data: D) -> Self {
        TaggedView {
            zipper: ZipperView::at_root(root),
            tag: TagTree::fresh(data),
            frames: Seq::empty(),
        }
    }

    /// The same, with `data` for the tag of the focus.
    pub open spec fn with_tag(self, data: D) -> Self {
        TaggedView { tag: TagTree { data, children: self.tag.children }, ..self }
    }

    /// The same, with the tags at and below the focus dropped and `data`
    /// for the tag of the focus.
    pub open spec fn invalidated(self, data: D) -> Self {
        TaggedView { tag: TagTree::fresh(data), ..self }
    }

    /// The cursor moved to the parent.
    pub open spec fn up(self) -> Self {
        TaggedView {
            zipper: self.zipper.up(),
            tag: self.frames.last().closed(self.tag),
            frames: self.frames.drop_last(),
        }
    }

    /// The first child has a tag already.
    pub open spec fn down_is_known(self) -> bool {
        self.tag.children.len() > 0
    }

    /// The cursor moved to the first child, whose tag is `data` if it has
    /// none yet.
    pub open spec fn down(self, data: D) -> Self {
        TaggedView {
            zipper: self.zipper.down(),
            tag: if self.down_is_known() {
                self.tag.children.first()
            } else {
                TagTree::fresh(data)
            },
            frames: self.frames.push(
                TagFrame {
                    data: self.tag.data,
                    left: Seq::empty(),
                    right: if self.down_is_known() {
                        self.tag.children.drop_first()
                    } else {
                        Seq::empty()
                    },
                },
            ),
        }
    }

    /// The cursor moved to the sibling on the left.
    pub open spec fn left(self) -> Self {
        let f = self.frames.last();
        TaggedView {
            zipper: self.zipper.left(),
            tag: f.left.last(),
            frames: self.frames.drop_last().push(
                TagFrame { data: f.data, left: f.left.drop_last(), right: seq![self.tag] + f.right },
            ),
        }
    }

    /// The sibling on the right has a tag already.
    pub open spec fn right_is_known(self) -> bool {
        self.frames.len() > 0 && self.frames.last().right.len() > 0
    }

    /// The cursor moved to the sibling on the right, whose tag is `data` if
    /// it has none yet.
    pub open spec fn right(self, data: D) -> Self {
        let f = self.frames.last();
        TaggedView {
            zipper: self.zipper.right(),
            tag: if self.right_is_known() {
                f.right.first()
            } else {
                TagTree::fresh(data)
            },
            frames: self.frames.drop_last().push(
                TagFrame {
                    data: f.data,
                    left: f.left.push(self.tag),
                    right: if self.right_is_known() {
                        f.right.drop_first()
                    } else {
                        Seq::empty()
                    },
                },
            ),
        }
    }
}

struct TagNode<D> {
    data: D,
    children: VecDeque<TagNode<D>>,
}

impl<D> TagNode<D> {
    spec fn model(self) -> TagTree<D>
        decreases self, 0nat,
    {
        TagTree { data: self.data, children: Self::models(self.children, self.children@.len()) }
    }

    spec fn models(ts: VecDeque<TagNode<D>>, n: nat) -> Seq<TagTree<D>>
        decreases ts, n,
    {
        if n == 0 || n > ts@.len() {
            Seq::empty()
        } else {
            proof {
                vstd::std_specs::vecdeque::axiom_vec_dequeue_index_decreases(ts, n - 1);
            }
            Self::models(ts, (n - 1) as nat).push(ts@[n - 1].model())
        }
    }

    spec fn row(ts: VecDeque<TagNode<D>>) -> Seq<TagTree<D>> {
        Self::models(ts, ts@.len())
    }

    proof fn lemma_models(ts: VecDeque<TagNode<D>>, n: nat)
        requires
            n <= ts@.len(),
        ensures
            Self::models(ts, n).len() == n,
            forall|i: int| 0 <= i < n ==> #[trigger] Self::models(ts, n)[i] == ts@[i].model(),
        decreases n,
    {
        if n > 0 {
            Self::lemma_models(ts, (n - 1) as nat);
        }
    }

    proof fn lemma_row(ts: VecDeque<TagNode<D>>)
        ensures
            Self::row(ts).len() == ts@.len(),
            forall|i: int| 0 <= i < ts@.len() ==> #[trigger] Self::row(ts)[i] == ts@[i].model(),
    {
        Self::lemma_models(ts, ts@.len());
    }
}

struct TagSegment<D> {
    data: D,
    left: VecDeque<TagNode<D>>,
    right: VecDeque<TagNode<D>>,
}

impl<D> TagSegment<D> {
    spec fn model(self) -> TagFrame<D> {
        TagFrame {
            data: self.data,
            left: TagNode::row(self.left),
            right: TagNode::row(self.right),
        }
    }
}

/// A cursor into Uniplate types that allows for attaching arbitrary data to
/// each node.
///
/// This is an extension of the [`Zipper`] type where each node in the tree
/// has a tag of its own, accessible via the `tag` and `tag_mut` methods.
///
/// Mutable access to the inner tree is not provided, as it could lead to
/// inconsistencies between the tree and associated tags. Instead, use the
/// methods provided by this type to mutate the zipper.
#[verifier::reject_recursive_types(D)]
pub struct TaggedZipper<T: Uniplate, D, F: Fn(&T) -> D> {
    zipper: Zipper<T>,
    /// The tag of the focus.
    tag_data: D,
    /// The tags of the children of the focus that have any.
    tag_children: VecDeque<TagNode<D>>,
    /// The tags along the path, immediate parent last.
    tag_path: Vec<TagSegment<D>>,
    construct_tag: F,
}

impl<T: Uniplate, D, F: Fn(&T) -> D> View for TaggedZipper<T, D, F> {
    type V = TaggedView<T, D>;

    closed spec fn view(&self) -> TaggedView<T, D> {
        TaggedView {
            zipper: self.zipper@,
            tag: TagTree { data: self.tag_data, children: TagNode::row(self.tag_children) },
            frames: Seq::new(self.tag_path@.len(), |i: int| self.tag_path@[i].model()),
        }
    }
}

impl<T: Uniplate, D, F: Fn(&T) -> D> TaggedZipper<T, D, F> {
    /// The constructor of tags.
    pub closed spec fn constructor(&self) -> F {
        self.construct_tag
    }

    /// `data` is a tag that the constructor may give for `node`.
    pub closed spec fn makes(&self, node: T, data: D) -> bool {
        call_ensures(self.construct_tag, (&node,), data)
    }

    /// The constructor takes every node.
    pub closed spec fn total(&self) -> bool {
        forall|t: &T| call_requires(self.construct_tag, (t,))
    }

    /// The tags and the cursor fit together, and the constructor takes
    /// every node.
    pub open spec fn wf(&self) -> bool {
        &&& self@.wf()
        &&& self.total()
    }

    /// What the constructor is said to make is what it may return, and it
    /// is total where it takes every node.
    pub proof fn lemma_constructor(&self)
        ensures
            forall|node: T, data: D|
                #[trigger] self.makes(node, data) == call_ensures(self.constructor(), (&node,), data),
            self.total() == (forall|t: &T| call_requires(self.constructor(), (t,))),
    {
        assert(self.constructor() == self.construct_tag);
        if self.total() {
            assert forall|t: &T| call_requires(self.constructor(), (t,)) by {
                assert(call_requires(self.construct_tag, (t,)));
            }
        }
        if forall|t: &T| call_requires(self.constructor(), (t,)) {
            assert forall|t: &T| call_requires(self.construct_tag, (t,)) by {
                assert(call_requires(self.constructor(), (t,)));
            }
        }
    }

    /// The view of the tags along the path is the row of the models of its
    /// segments.
    proof fn lemma_view(self)
        ensures
            self@.frames.len() == self.tag_path@.len(),
            forall|i: int|
                0 <= i < self.tag_path@.len() ==> #[trigger] self@.frames[i]
                    == self.tag_path@[i].model(),
    {
    }

    /// Two values with the same cursor and as many left tags on each level
    /// as the other are well formed together.
    proof fn lemma_wf_frames(v: TaggedView<T, D>, w: TaggedView<T, D>, n: int)
        requires
            w.wf(),
            v.zipper.wf(),
            v.frames.len() == v.zipper.path.len(),
            0 <= n <= v.frames.len(),
            n <= w.frames.len(),
            forall|i: int|
                0 <= i < n ==> #[trigger] v.frames[i] == w.frames[i] && v.zipper.path[i]
                    == w.zipper.path[i],
            forall|i: int|
                n <= i < v.frames.len() ==> (#[trigger] v.frames[i]).left.len()
                    == v.zipper.path[i].left.len(),
        ensures
            v.wf(),
    {
        assert forall|i: int| 0 <= i < v.frames.len() implies (#[trigger] v.frames[i]).left.len()
            == v.zipper.path[i].left.len() by {
            if i < n {
                assert(v.frames[i] == w.frames[i]);
            }
        }
    }

    /// Creates a new `TaggedZipper` with the given root and tag constructor.
    ///
    /// The focus is initially set to the root of the tree.
    pub fn new(root: T, constructor: F) -> (z: Self)
        requires
            forall|t: &T| call_requires(constructor, (t,)),
        ensures
            z.wf(),
            z.constructor() == constructor,
            z@ == TaggedView::at_root(root, z@.tag.data),
            z.makes(root, z@.tag.data),
    {
        let data = constructor(&root);
        let z = TaggedZipper {
            zipper: Zipper::new(root),
            tag_data: data,
            tag_children: VecDeque::new(),
            tag_path: Vec::new(),
            construct_tag: constructor,
        };
        proof {
            TagNode::lemma_row(z.tag_children);
            assert(z@.tag.children =~= Seq::empty());
            assert(z@.frames =~= Seq::empty());
        }
        z
    }

    /// Returns an immutable borrow to the underlying zipper.
    ///
    /// Mutable access to the inner tree is not provided, as it could break
    /// the tag structure.
    pub fn zipper(&self) -> (r: &Zipper<T>)
        ensures
            r@ == self@.zipper,
    {
        &self.zipper
    }

    /// Borrows the current focus.
    pub fn focus(&self) -> (r: &T)
        ensures
            *r == self@.zipper.focus,
    {
        self.zipper.focus()
    }

    /// Rebuilds the root node, consuming the zipper.
    pub fn rebuild_root(self) -> (r: T)
        requires
            self.wf(),
        ensures
            r == self@.zipper.root(),
    {
        self.zipper.rebuild_root()
    }

    /// Borrows the tag of the current focus.
    pub fn tag(&self) -> (r: &D)
        ensures
            *r == self@.tag.data,
    {
        &self.tag_data
    }

    /// Mutably borrows the tag of the current focus.
    pub fn tag_mut(&mut self) -> (r: &mut D)
        ensures
            *r == old(self)@.tag.data,
            final(self)@ == old(self)@.with_tag(*final(r)),
            final(self).constructor() == old(self).constructor(),
            final(self).wf() == old(self).wf(),
    {
        &mut self.tag_data
    }

    /// Replaces the tag of the current focus, returning the old tag.
    pub fn replace_tag(&mut self, new_tag: D) -> (r: D)
        ensures
            r == old(self)@.tag.data,
            final(self)@ == old(self)@.with_tag(new_tag),
            final(self).constructor() == old(self).constructor(),
            final(self).wf() == old(self).wf(),
    {
        let mut held = new_tag;
        std::mem::swap(&mut self.tag_data, &mut held);
        held
    }

    /// Resets the tag of the current focus to the value returned by the
    /// constructor, returning the old tag.
    pub fn reset_tag(&mut self) -> (r: D)
        requires
            old(self).wf(),
        ensures
            final(self).wf(),
            final(self).constructor() == old(self).constructor(),
            r == old(self)@.tag.data,
            final(self)@ == old(self)@.with_tag(final(self)@.tag.data),
            final(self).makes(old(self)@.zipper.focus, final(self)@.tag.data),
    {
        let new_tag = (self.construct_tag)(self.zipper.focus());
        self.replace_tag(new_tag)
    }

    /// Removes the tags associated with the current focus and all its
    /// descendants.
    ///
    /// Any changes made to descendants' tags will be lost, and the
    /// constructor will be called again while exploring the subtree.
    pub fn invalidate_subtree(&mut self)
        requires
            old(self).wf(),
        ensures
            final(self).wf(),
            final(self).constructor() == old(self).constructor(),
            final(self)@ == old(self)@.invalidated(final(self)@.tag.data),
            final(self).makes(old(self)@.zipper.focus, final(self)@.tag.data),
    {
        self.tag_data = (self.construct_tag)(self.zipper.focus());
        self.tag_children = VecDeque::new();
        proof {
            TagNode::lemma_row(self.tag_children);
            assert(self@.tag.children =~= Seq::empty());
        }
    }

    /// Replaces the focus of the zipper, returning the old focus.
    ///
    /// This will also invalidate the tags for the current focus and all its
    /// descendants, as the subtree structure may have changed.
    pub fn replace_focus(&mut self, new_focus: T) -> (r: T)
        requires
            old(self).wf(),
        ensures
            final(self).wf(),
            final(self).constructor() == old(self).constructor(),
            r == old(self)@.zipper.focus,
            final(self)@ == (TaggedView {
                zipper: old(self)@.zipper.with_focus(new_focus),
                ..old(self)@
            }).invalidated(final(self)@.tag.data),
            final(self).makes(new_focus, final(self)@.tag.data),
    {
        let old_focus = self.zipper.replace_focus(new_focus);
        self.invalidate_subtree();
        old_focus
    }

    /// Takes the tags at and below the focus out, leaving `data` and
    /// `children` in their place.
    fn swap_tags(&mut self, data: D, children: VecDeque<TagNode<D>>) -> (r: TagNode<D>)
        ensures
            r.model() == old(self)@.tag,
            final(self)@ == (TaggedView {
                tag: TagTree { data, children: TagNode::row(children) },
                ..old(self)@
            }),
            final(self).constructor() == old(self).constructor(),
            final(self).total() == old(self).total(),
            final(self).tag_path == old(self).tag_path,
            final(self).zipper == old(self).zipper,
    {
        let mut data = data;
        let mut children = children;
        std::mem::swap(&mut self.tag_data, &mut data);
        std::mem::swap(&mut self.tag_children, &mut children);
        TagNode { data, children }
    }

    /// Sets the focus to the parent of the focus (if it exists).
    ///
    /// The parent has the tag it had when the cursor left it.
    pub fn go_up(&mut self) -> (r: Option<()>)
        requires
            old(self).wf(),
        ensures
            final(self).wf(),
            final(self).constructor() == old(self).constructor(),
            r == if old(self)@.zipper.has_up() {
                Some(())
            } else {
                None
            },
            final(self)@ == if old(self)@.zipper.has_up() {
                old(self)@.up()
            } else {
                old(self)@
            },
    {
        proof {
            old(self).lemma_view();
        }
        if self.zipper.go_up().is_none() {
            return None;
        }
        let seg = self.tag_path.pop().unwrap();
        let TagSegment { data, left, right } = seg;
        let mut row = left;
        let mut right = right;
        let ghost left_row = TagNode::row(row);
        let ghost right_row = TagNode::row(right);
        proof {
            TagNode::lemma_row(row);
            TagNode::lemma_row(right);
        }
        let node = self.swap_tags(data, VecDeque::new());
        row.push_back(node);
        row.append(&mut right);
        proof {
            TagNode::lemma_row(row);
            assert(TagNode::row(row) =~= left_row.push(node.model()) + right_row);
        }
        self.tag_children = row;
        proof {
            assert(self@.frames =~= old(self)@.frames.drop_last());
            old(self)@.zipper.lemma_up_root();
            Self::lemma_wf_frames(self@, old(self)@, self@.frames.len() as int);
        }
        Some(())
    }

    /// Sets the focus to the left-most child of the focus (if it exists).
    ///
    /// The child has the tag it had when the cursor left it; if the cursor
    /// has not been there, the constructor makes its tag.
    pub fn go_down(&mut self) -> (r: Option<()>)
        requires
            old(self).wf(),
        ensures
            final(self).wf(),
            final(self).constructor() == old(self).constructor(),
            r == if old(self)@.zipper.has_down() {
                Some(())
            } else {
                None
            },
            final(self)@ == if old(self)@.zipper.has_down() {
                old(self)@.down(final(self)@.tag.data)
            } else {
                old(self)@
            },
            old(self)@.zipper.has_down() && !old(self)@.down_is_known() ==> final(self).makes(
                old(self)@.zipper.down().focus,
                final(self)@.tag.data,
            ),
    {
        proof {
            old(self).lemma_view();
            if old(self)@.zipper.has_down() {
                old(self)@.zipper.lemma_down_root();
            }
        }
        if self.zipper.go_down().is_none() {
            return None;
        }
        let mut rest: VecDeque<TagNode<D>> = VecDeque::new();
        std::mem::swap(&mut self.tag_children, &mut rest);
        let ghost known = TagNode::row(rest);
        proof {
            TagNode::lemma_row(rest);
        }
        let parent = match rest.pop_front() {
            Some(first) => {
                let TagNode { data, children } = first;
                proof {
                    TagNode::lemma_row(rest);
                    assert(TagNode::row(rest) =~= known.drop_first());
                }
                self.swap_tags(data, children)
            },
            None => {
                proof {
                    TagNode::lemma_row(rest);
                    assert(TagNode::row(rest) =~= Seq::empty());
                }
                let data = (self.construct_tag)(self.zipper.focus());
                let fresh: VecDeque<TagNode<D>> = VecDeque::new();
                proof {
                    TagNode::lemma_row(fresh);
                    assert(TagNode::row(fresh) =~= Seq::empty());
                }
                self.swap_tags(data, fresh)
            },
        };
        let TagNode { data, children } = parent;
        let seg = TagSegment { data, left: VecDeque::new(), right: rest };
        proof {
            TagNode::lemma_row(seg.left);
            assert(seg.model().left =~= Seq::empty());
        }
        self.tag_path.push(seg);
        proof {
            let v = self@;
            let w = old(self)@.down(v.tag.data);
            assert(v.frames =~= w.frames);
            Self::lemma_wf_frames(v, old(self)@, old(self)@.frames.len() as int);
        }
        Some(())
    }

    /// Sets the focus to the left sibling of the focus (if it exists).
    ///
    /// The sibling has the tag it had when the cursor left it.
    pub fn go_left(&mut self) -> (r: Option<()>)
        requires
            old(self).wf(),
        ensures
            final(self).wf(),
            final(self).constructor() == old(self).constructor(),
            r == if old(self)@.zipper.has_left() {
                Some(())
            } else {
                None
            },
            final(self)@ == if old(self)@.zipper.has_left() {
                old(self)@.left()
            } else {
                old(self)@
            },
    {
        proof {
            old(self).lemma_view();
            if old(self)@.zipper.has_left() {
                old(self)@.zipper.lemma_left_root();
            }
        }
        if self.zipper.go_left().is_none() {
            return None;
        }
        let ghost last = old(self)@.frames.len() - 1;
        assert(old(self)@.frames[last].left.len() == old(self)@.zipper.path[last].left.len());
        let mut seg = self.tag_path.pop().unwrap();
        let ghost left_row = TagNode::row(seg.left);
        let ghost right_row = TagNode::row(seg.right);
        proof {
            TagNode::lemma_row(seg.left);
            TagNode::lemma_row(seg.right);
        }
        let TagNode { data, children } = seg.left.pop_back().unwrap();
        let node = self.swap_tags(data, children);
        seg.right.push_front(node);
        proof {
            TagNode::lemma_row(seg.left);
            TagNode::lemma_row(seg.right);
            assert(TagNode::row(seg.left) =~= left_row.drop_last());
            assert(TagNode::row(seg.right) =~= seq![node.model()] + right_row);
        }
        self.tag_path.push(seg);
        proof {
            let v = self@;
            let w = old(self)@.left();
            assert(node.model() == old(self)@.tag);
            assert(seg.model() == w.frames[last]);
            assert forall|i: int| 0 <= i < v.frames.len() implies v.frames[i] == w.frames[i] by {
                if i < last {
                    assert(v.frames[i] == old(self)@.frames[i]);
                }
            }
            assert(v.frames =~= old(self)@.left().frames);
            Self::lemma_wf_frames(v, old(self)@, last);
        }
        Some(())
    }

    /// Sets the focus to the right sibling of the focus (if it exists).
    ///
    /// The sibling has the tag it had when the cursor left it; if the cursor
    /// has not been there, the constructor makes its tag.
    pub fn go_right(&mut self) -> (r: Option<()>)
        requires
            old(self).wf(),
        ensures
            final(self).wf(),
            final(self).constructor() == old(self).constructor(),
            r == if old(self)@.zipper.has_right() {
                Some(())
            } else {
                None
            },
            final(self)@ == if old(self)@.zipper.has_right() {
                old(self)@.right(final(self)@.tag.data)
            } else {
                old(self)@
            },
            old(self)@.zipper.has_right() && !old(self)@.right_is_known() ==> final(self).makes(
                old(self)@.zipper.right().focus,
                final(self)@.tag.data,
            ),
    {
        proof {
            old(self).lemma_view();
            if old(self)@.zipper.has_right() {
                old(self)@.zipper.lemma_right_root();
            }
        }
        if self.zipper.go_right().is_none() {
            return None;
        }
        let ghost last = old(self)@.frames.len() - 1;
        assert(old(self)@.frames[last].left.len() == old(self)@.zipper.path[last].left.len());
        let mut seg = self.tag_path.pop().unwrap();
        let ghost left_row = TagNode::row(seg.left);
        let ghost right_row = TagNode::row(seg.right);
        proof {
            TagNode::lemma_row(seg.left);
            TagNode::lemma_row(seg.right);
        }
        let node = match seg.right.pop_front() {
            Some(next) => {
                let TagNode { data, children } = next;
                proof {
                    TagNode::lemma_row(seg.right);
                    assert(TagNode::row(seg.right) =~= right_row.drop_first());
                }
                self.swap_tags(data, children)
            },
            None => {
                proof {
                    TagNode::lemma_row(seg.right);
                    assert(TagNode::row(seg.right) =~= Seq::empty());
                }
                let data = (self.construct_tag)(self.zipper.focus());
                let fresh: VecDeque<TagNode<D>> = VecDeque::new();
                proof {
                    TagNode::lemma_row(fresh);
                    assert(TagNode::row(fresh) =~= Seq::empty());
                }
                self.swap_tags(data, fresh)
            },
        };
        seg.left.push_back(node);
        proof {
            TagNode::lemma_row(seg.left);
            assert(TagNode::row(seg.left) =~= left_row.push(node.model()));
        }
        self.tag_path.push(seg);
        proof {
            let v = self@;
            let w = old(self)@.right(v.tag.data);
            assert(node.model() == old(self)@.tag);
            assert(seg.model() == w.frames[last]);
            assert forall|i: int| 0 <= i < v.frames.len() implies v.frames[i] == w.frames[i] by {
                if i < last {
                    assert(v.frames[i] == old(self)@.frames[i]);
                }
            }
            assert(v.frames =~= old(self)@.right(v.tag.data).frames);
            Self::lemma_wf_frames(v, old(self)@, last);
        }
        Some(())
    }
}

} // verus!
