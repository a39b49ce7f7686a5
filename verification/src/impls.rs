//! Implementations of Uniplate and Biplate for common types, and the
//! traversal steps of collections.
//!
//! The integer types and `String` have nothing to traverse into: they have
//! no children, and the only value of their own type within them is the
//! value itself.
//!
//! A collection is traversed element by element, in the order of its
//! elements. An empty collection holds nothing. Where the elements are of
//! the target type, each is one value; else each is traversed by the
//! traversal of its own type to the target type.

use crate::traits::biplate::Biplate;
use crate::traits::uniplate::Rank;
use crate::traits::uniplate::Uniplate;
use crate::tree::Shape;
use crate::tree::Tree;
use std::collections::VecDeque;
use vstd::prelude::*;

verus! {

impl Uniplate for i8 {
    open spec fn shape(&self) -> Shape<i8> {
        Shape::Zero
    }

    open spec fn rebuilt(&self, children: Shape<i8>) -> i8 {
        *self
    }

    open spec fn rank(&self) -> Rank {
        0
    }

    proof fn lemma_rebuilt_shape(&self) {
    }

    proof fn lemma_child_rank(&self, child: i8) {
    }

    proof fn lemma_clone(&self, other: i8) {
    }

    fn uniplate(&self) -> (children: Tree<i8>) {
        Tree::Zero
    }

    fn reconstruct(&self, children: Tree<i8>) -> (node: i8) {
        self.clone()
    }
}

impl Biplate<i8> for i8 {
    open spec fn shape_bi(&self) -> Shape<i8> {
        Shape::One(*self)
    }

    open spec fn rebuilt_bi(&self, children: Shape<i8>) -> i8 {
        children->One_0
    }

    proof fn lemma_rebuilt_shape_bi(&self) {
    }

    fn biplate(&self) -> (children: Tree<i8>) {
        Tree::One(self.clone())
    }

    fn reconstruct_bi(&self, children: Tree<i8>) -> (node: i8) {
        let (mut list, _) = children.list();
        list.pop_front().unwrap()
    }
}

impl Uniplate for i16 {
    open spec fn shape(&self) -> Shape<i16> {
        Shape::Zero
    }

    open spec fn rebuilt(&self, children: Shape<i16>) -> i16 {
        *self
    }

    open spec fn rank(&self) -> Rank {
        0
    }

    proof fn lemma_rebuilt_shape(&self) {
    }

    proof fn lemma_child_rank(&self, child: i16) {
    }

    proof fn lemma_clone(&self, other: i16) {
    }

    fn uniplate(&self) -> (children: Tree<i16>) {
        Tree::Zero
    }

    fn reconstruct(&self, children: Tree<i16>) -> (node: i16) {
        self.clone()
    }
}

impl Biplate<i16> for i16 {
    open spec fn shape_bi(&self) -> Shape<i16> {
        Shape::One(*self)
    }

    open spec fn rebuilt_bi(&self, children: Shape<i16>) -> i16 {
        children->One_0
    }

    proof fn lemma_rebuilt_shape_bi(&self) {
    }

    fn biplate(&self) -> (children: Tree<i16>) {
        Tree::One(self.clone())
    }

    fn reconstruct_bi(&self, children: Tree<i16>) -> (node: i16) {
        let (mut list, _) = children.list();
        list.pop_front().unwrap()
    }
}

impl Uniplate for i32 {
    open spec fn shape(&self) -> Shape<i32> {
        Shape::Zero
    }

    open spec fn rebuilt(&self, children: Shape<i32>) -> i32 {
        *self
    }

    open spec fn rank(&self) -> Rank {
        0
    }

    proof fn lemma_rebuilt_shape(&self) {
    }

    proof fn lemma_child_rank(&self, child: i32) {
    }

    proof fn lemma_clone(&self, other: i32) {
    }

    fn uniplate(&self) -> (children: Tree<i32>) {
        Tree::Zero
    }

    fn reconstruct(&self, children: Tree<i32>) -> (node: i32) {
        self.clone()
    }
}

impl Biplate<i32> for i32 {
    open spec fn shape_bi(&self) -> Shape<i32> {
        Shape::One(*self)
    }

    open spec fn rebuilt_bi(&self, children: Shape<i32>) -> i32 {
        children->One_0
    }

    proof fn lemma_rebuilt_shape_bi(&self) {
    }

    fn biplate(&self) -> (children: Tree<i32>) {
        Tree::One(self.clone())
    }

    fn reconstruct_bi(&self, children: Tree<i32>) -> (node: i32) {
        let (mut list, _) = children.list();
        list.pop_front().unwrap()
    }
}

impl Uniplate for i64 {
    open spec fn shape(&self) -> Shape<i64> {
        Shape::Zero
    }

    open spec fn rebuilt(&self, children: Shape<i64>) -> i64 {
        *self
    }

    open spec fn rank(&self) -> Rank {
        0
    }

    proof fn lemma_rebuilt_shape(&self) {
    }

    proof fn lemma_child_rank(&self, child: i64) {
    }

    proof fn lemma_clone(&self, other: i64) {
    }

    fn uniplate(&self) -> (children: Tree<i64>) {
        Tree::Zero
    }

    fn reconstruct(&self, children: Tree<i64>) -> (node: i64) {
        self.clone()
    }
}

impl Biplate<i64> for i64 {
    open spec fn shape_bi(&self) -> Shape<i64> {
        Shape::One(*self)
    }

    open spec fn rebuilt_bi(&self, children: Shape<i64>) -> i64 {
        children->One_0
    }

    proof fn lemma_rebuilt_shape_bi(&self) {
    }

    fn biplate(&self) -> (children: Tree<i64>) {
        Tree::One(self.clone())
    }

    fn reconstruct_bi(&self, children: Tree<i64>) -> (node: i64) {
        let (mut list, _) = children.list();
        list.pop_front().unwrap()
    }
}

impl Uniplate for i128 {
    open spec fn shape(&self) -> Shape<i128> {
        Shape::Zero
    }

    open spec fn rebuilt(&self, children: Shape<i128>) -> i128 {
        *self
    }

    open spec fn rank(&self) -> Rank {
        0
    }

    proof fn lemma_rebuilt_shape(&self) {
    }

    proof fn lemma_child_rank(&self, child: i128) {
    }

    proof fn lemma_clone(&self, other: i128) {
    }

    fn uniplate(&self) -> (children: Tree<i128>) {
        Tree::Zero
    }

    fn reconstruct(&self, children: Tree<i128>) -> (node: i128) {
        self.clone()
    }
}

impl Biplate<i128> for i128 {
    open spec fn shape_bi(&self) -> Shape<i128> {
        Shape::One(*self)
    }

    open spec fn rebuilt_bi(&self, children: Shape<i128>) -> i128 {
        children->One_0
    }

    proof fn lemma_rebuilt_shape_bi(&self) {
    }

    fn biplate(&self) -> (children: Tree<i128>) {
        Tree::One(self.clone())
    }

    fn reconstruct_bi(&self, children: Tree<i128>) -> (node: i128) {
        let (mut list, _) = children.list();
        list.pop_front().unwrap()
    }
}

impl Uniplate for u8 {
    open spec fn shape(&self) -> Shape<u8> {
        Shape::Zero
    }

    open spec fn rebuilt(&self, children: Shape<u8>) -> u8 {
        *self
    }

    open spec fn rank(&self) -> Rank {
        0
    }

    proof fn lemma_rebuilt_shape(&self) {
    }

    proof fn lemma_child_rank(&self, child: u8) {
    }

    proof fn lemma_clone(&self, other: u8) {
    }

    fn uniplate(&self) -> (children: Tree<u8>) {
        Tree::Zero
    }

    fn reconstruct(&self, children: Tree<u8>) -> (node: u8) {
        self.clone()
    }
}

impl Biplate<u8> for u8 {
    open spec fn shape_bi(&self) -> Shape<u8> {
        Shape::One(*self)
    }

    open spec fn rebuilt_bi(&self, children: Shape<u8>) -> u8 {
        children->One_0
    }

    proof fn lemma_rebuilt_shape_bi(&self) {
    }

    fn biplate(&self) -> (children: Tree<u8>) {
        Tree::One(self.clone())
    }

    fn reconstruct_bi(&self, children: Tree<u8>) -> (node: u8) {
        let (mut list, _) = children.list();
        list.pop_front().unwrap()
    }
}

impl Uniplate for u16 {
    open spec fn shape(&self) -> Shape<u16> {
        Shape::Zero
    }

    open spec fn rebuilt(&self, children: Shape<u16>) -> u16 {
        *self
    }

    open spec fn rank(&self) -> Rank {
        0
    }

    proof fn lemma_rebuilt_shape(&self) {
    }

    proof fn lemma_child_rank(&self, child: u16) {
    }

    proof fn lemma_clone(&self, other: u16) {
    }

    fn uniplate(&self) -> (children: Tree<u16>) {
        Tree::Zero
    }

    fn reconstruct(&self, children: Tree<u16>) -> (node: u16) {
        self.clone()
    }
}

impl Biplate<u16> for u16 {
    open spec fn shape_bi(&self) -> Shape<u16> {
        Shape::One(*self)
    }

    open spec fn rebuilt_bi(&self, children: Shape<u16>) -> u16 {
        children->One_0
    }

    proof fn lemma_rebuilt_shape_bi(&self) {
    }

    fn biplate(&self) -> (children: Tree<u16>) {
        Tree::One(self.clone())
    }

    fn reconstruct_bi(&self, children: Tree<u16>) -> (node: u16) {
        let (mut list, _) = children.list();
        list.pop_front().unwrap()
    }
}

impl Uniplate for u32 {
    open spec fn shape(&self) -> Shape<u32> {
        Shape::Zero
    }

    open spec fn rebuilt(&self, children: Shape<u32>) -> u32 {
        *self
    }

    open spec fn rank(&self) -> Rank {
        0
    }

    proof fn lemma_rebuilt_shape(&self) {
    }

    proof fn lemma_child_rank(&self, child: u32) {
    }

    proof fn lemma_clone(&self, other: u32) {
    }

    fn uniplate(&self) -> (children: Tree<u32>) {
        Tree::Zero
    }

    fn reconstruct(&self, children: Tree<u32>) -> (node: u32) {
        self.clone()
    }
}

impl Biplate<u32> for u32 {
    open spec fn shape_bi(&self) -> Shape<u32> {
        Shape::One(*self)
    }

    open spec fn rebuilt_bi(&self, children: Shape<u32>) -> u32 {
        children->One_0
    }

    proof fn lemma_rebuilt_shape_bi(&self) {
    }

    fn biplate(&self) -> (children: Tree<u32>) {
        Tree::One(self.clone())
    }

    fn reconstruct_bi(&self, children: Tree<u32>) -> (node: u32) {
        let (mut list, _) = children.list();
        list.pop_front().unwrap()
    }
}

impl Uniplate for u64 {
    open spec fn shape(&self) -> Shape<u64> {
        Shape::Zero
    }

    open spec fn rebuilt(&self, children: Shape<u64>) -> u64 {
        *self
    }

    open spec fn rank(&self) -> Rank {
        0
    }

    proof fn lemma_rebuilt_shape(&self) {
    }

    proof fn lemma_child_rank(&self, child: u64) {
    }

    proof fn lemma_clone(&self, other: u64) {
    }

    fn uniplate(&self) -> (children: Tree<u64>) {
        Tree::Zero
    }

    fn reconstruct(&self, children: Tree<u64>) -> (node: u64) {
        self.clone()
    }
}

impl Biplate<u64> for u64 {
    open spec fn shape_bi(&self) -> Shape<u64> {
        Shape::One(*self)
    }

    open spec fn rebuilt_bi(&self, children: Shape<u64>) -> u64 {
        children->One_0
    }

    proof fn lemma_rebuilt_shape_bi(&self) {
    }

    fn biplate(&self) -> (children: Tree<u64>) {
        Tree::One(self.clone())
    }

    fn reconstruct_bi(&self, children: Tree<u64>) -> (node: u64) {
        let (mut list, _) = children.list();
        list.pop_front().unwrap()
    }
}

impl Uniplate for u128 {
    open spec fn shape(&self) -> Shape<u128> {
        Shape::Zero
    }

    open spec fn rebuilt(&self, children: Shape<u128>) -> u128 {
        *self
    }

    open spec fn rank(&self) -> Rank {
        0
    }

    proof fn lemma_rebuilt_shape(&self) {
    }

    proof fn lemma_child_rank(&self, child: u128) {
    }

    proof fn lemma_clone(&self, other: u128) {
    }

    fn uniplate(&self) -> (children: Tree<u128>) {
        Tree::Zero
    }

    fn reconstruct(&self, children: Tree<u128>) -> (node: u128) {
        self.clone()
    }
}

impl Biplate<u128> for u128 {
    open spec fn shape_bi(&self) -> Shape<u128> {
        Shape::One(*self)
    }

    open spec fn rebuilt_bi(&self, children: Shape<u128>) -> u128 {
        children->One_0
    }

    proof fn lemma_rebuilt_shape_bi(&self) {
    }

    fn biplate(&self) -> (children: Tree<u128>) {
        Tree::One(self.clone())
    }

    fn reconstruct_bi(&self, children: Tree<u128>) -> (node: u128) {
        let (mut list, _) = children.list();
        list.pop_front().unwrap()
    }
}

impl Uniplate for String {
    open spec fn shape(&self) -> Shape<String> {
        Shape::Zero
    }

    open spec fn rebuilt(&self, children: Shape<String>) -> String {
        *self
    }

    open spec fn rank(&self) -> Rank {
        0
    }

    proof fn lemma_rebuilt_shape(&self) {
    }

    proof fn lemma_child_rank(&self, child: String) {
    }

    proof fn lemma_clone(&self, other: String) {
    }

    fn uniplate(&self) -> (children: Tree<String>) {
        Tree::Zero
    }

    fn reconstruct(&self, children: Tree<String>) -> (node: String) {
        self.clone()
    }
}

impl Biplate<String> for String {
    open spec fn shape_bi(&self) -> Shape<String> {
        Shape::One(*self)
    }

    open spec fn rebuilt_bi(&self, children: Shape<String>) -> String {
        children->One_0
    }

    proof fn lemma_rebuilt_shape_bi(&self) {
    }

    fn biplate(&self) -> (children: Tree<String>) {
        Tree::One(self.clone())
    }

    fn reconstruct_bi(&self, children: Tree<String>) -> (node: String) {
        let (mut list, _) = children.list();
        list.pop_front().unwrap()
    }
}

/// The values of the target type in each element of a collection.
pub open spec fn shapes_within<To: Uniplate, F: Biplate<To>>(items: Seq<F>) -> Seq<Shape<To>> {
    Seq::new(items.len(), |i: int| items[i].shape_bi())
}

/// The values of the target type in a collection: nothing where it is
/// empty, else a row with the values in each element.
pub open spec fn shape_within<To: Uniplate, F: Biplate<To>>(items: Seq<F>) -> Shape<To> {
    if items.len() == 0 {
        Shape::Zero
    } else {
        Shape::Many(shapes_within(items))
    }
}

/// The elements of a collection, each put together again around the shape
/// in its place in `children`.
pub open spec fn rebuilt_within<To: Uniplate, F: Biplate<To>>(
    items: Seq<F>,
    children: Shape<To>,
) -> Seq<F> {
    if items.len() == 0 {
        items
    } else {
        Seq::new(items.len(), |i: int| items[i].rebuilt_bi(children->Many_0[i]))
    }
}

/// The elements of a collection as values of the target type: nothing
/// where it is empty, else a row with each element for one value.
pub open spec fn shape_of_items<T>(items: Seq<T>) -> Shape<T> {
    if items.len() == 0 {
        Shape::Zero
    } else {
        Shape::Many(Seq::new(items.len(), |i: int| Shape::One(items[i])))
    }
}

/// Reconstruction identity for collections: the elements put together again
/// around the values that lie in them are the elements.
pub proof fn lemma_rebuilt_within_identity<To: Uniplate, F: Biplate<To>>(items: Seq<F>)
    ensures
        rebuilt_within(items, shape_within::<To, F>(items)) == items,
{
    if items.len() > 0 {
        assert forall|i: int| 0 <= i < items.len() implies items[i].rebuilt_bi(
            shapes_within::<To, F>(items)[i],
        ) == items[i] by {
            items[i].lemma_rebuilt_shape_bi();
        }
        assert(rebuilt_within(items, shape_within::<To, F>(items)) =~= items);
    }
}

/// The leaves of a row of single values are the values.
pub proof fn lemma_shape_of_items_leaves<T>(items: Seq<T>)
    ensures
        shape_of_items(items).leaves() == items,
    decreases items.len(),
{
    let row = Seq::new(items.len(), |i: int| Shape::One(items[i]));
    if items.len() == 0 {
        assert(shape_of_items(items).leaves() =~= items);
    } else {
        lemma_leaves_of_singles(items, items.len());
        assert(items.take(items.len() as int) =~= items);
        assert(row.take(items.len() as int) =~= row);
    }
}

/// The leaves of the first `n` of a row of single values are the first `n`
/// values.
pub proof fn lemma_leaves_of_singles<T>(items: Seq<T>, n: nat)
    requires
        n <= items.len(),
    ensures
        Shape::leaves_of(Seq::new(items.len(), |i: int| Shape::One(items[i])).take(n as int))
            == items.take(n as int),
    decreases n,
{
    let row = Seq::new(items.len(), |i: int| Shape::One(items[i]));
    if n == 0 {
        assert(Shape::leaves_of(row.take(0)) =~= items.take(0));
    } else {
        lemma_leaves_of_singles(items, (n - 1) as nat);
        Shape::lemma_leaves_of_take(row, n - 1);
        assert(items.take(n as int) =~= items.take(n - 1) + seq![items[n - 1]]);
        assert(row[n - 1].leaves() =~= seq![items[n - 1]]);
    }
}

/// The traversal step of a vector whose elements are of the target type:
/// each element is one value.
pub fn biplate_items<T: Uniplate>(items: &Vec<T>) -> (children: Tree<T>)
    ensures
        children@ == shape_of_items(items@),
{
    if items.len() == 0 {
        return Tree::Zero;
    }
    let mut row: VecDeque<Tree<T>> = VecDeque::new();
    let mut i: usize = 0;
    while i < items.len()
        invariant
            i <= items.len(),
            row@.len() == i,
            forall|j: int| 0 <= j < i ==> (#[trigger] row@[j])@ == Shape::One(items@[j]),
        decreases items.len() - i,
    {
        let item = items[i].clone();
        proof {
            items@[i as int].lemma_clone(item);
        }
        row.push_back(Tree::One(item));
        i += 1;
    }
    proof {
        Tree::lemma_row(row);
        assert(Tree::row(row) =~= Seq::new(items@.len(), |i: int| Shape::One(items@[i])));
    }
    Tree::Many(row)
}

/// Puts a vector whose elements are of the target type together again: its
/// elements are the values of `children`, in order.
pub fn reconstruct_items<T: Uniplate>(items: &Vec<T>, children: Tree<T>) -> (r: Vec<T>)
    requires
        children@.same_structure(shape_of_items(items@)),
    ensures
        r@ == children@.leaves(),
        r@.len() == items@.len(),
{
    proof {
        children@.lemma_same_structure_leaves(shape_of_items(items@));
        lemma_shape_of_items_leaves(items@);
    }
    let (mut list, _) = children.list();
    let ghost leaves = list@;
    let mut out: Vec<T> = Vec::new();
    assert(list@ =~= leaves.skip(0));
    while list.len() > 0
        invariant
            out@.len() + list@.len() == leaves.len(),
            out@ == leaves.take(out@.len() as int),
            list@ == leaves.skip(out@.len() as int),
        decreases list.len(),
    {
        let ghost n = out@.len() as int;
        let x = list.pop_front().unwrap();
        out.push(x);
        assert(out@ =~= leaves.take(n + 1));
        assert(list@ =~= leaves.skip(n + 1));
    }
    assert(out@ =~= leaves);
    out
}

/// The traversal step of a vector whose elements have a traversal to the
/// target type: nothing where it is empty, else a row with the values in
/// each element.
pub fn biplate_within<To: Uniplate, F: Biplate<To>>(items: &Vec<F>) -> (children: Tree<To>)
    ensures
        children@ == shape_within::<To, F>(items@),
{
    if items.len() == 0 {
        return Tree::Zero;
    }
    let mut row: VecDeque<Tree<To>> = VecDeque::new();
    let mut i: usize = 0;
    while i < items.len()
        invariant
            i <= items.len(),
            row@.len() == i,
            forall|j: int| 0 <= j < i ==> (#[trigger] row@[j])@ == items@[j].shape_bi(),
        decreases items.len() - i,
    {
        row.push_back(items[i].biplate());
        i += 1;
    }
    proof {
        Tree::lemma_row(row);
        assert(Tree::row(row) =~= shapes_within::<To, F>(items@));
    }
    Tree::Many(row)
}

/// Puts a vector together again, each element around the shape in its
/// place in `children`.
pub fn reconstruct_within<To: Uniplate, F: Biplate<To>>(items: &Vec<F>, children: Tree<To>) -> (r:
    Vec<F>)
    requires
        children@.same_structure(shape_within::<To, F>(items@)),
    ensures
        r@ == rebuilt_within(items@, children@),
{
    let mut out: Vec<F> = Vec::new();
    if items.len() == 0 {
        assert(out@ =~= items@);
        return out;
    }
    let ghost shapes = shapes_within::<To, F>(items@);
    proof {
        children@.lemma_same_structure_many(shapes);
    }
    let ghost given = children@->Many_0;
    let mut row = children.into_row();
    proof {
        Tree::lemma_row(row);
    }
    let ghost whole = row@;
    let mut i: usize = 0;
    assert(row@ =~= whole.skip(0));
    while i < items.len()
        invariant
            i <= items.len(),
            items@.len() > 0,
            shapes == shapes_within::<To, F>(items@),
            Shape::Many(given).same_structure(Shape::Many(shapes)),
            given.len() == items@.len(),
            whole.len() == given.len(),
            forall|j: int| 0 <= j < whole.len() ==> (#[trigger] whole[j])@ == given[j],
            row@ == whole.skip(i as int),
            out@.len() == i,
            forall|j: int|
                0 <= j < i ==> #[trigger] out@[j] == items@[j].rebuilt_bi(given[j]),
        decreases items.len() - i,
    {
        proof {
            Shape::lemma_same_structure_row(given, shapes, i as int);
        }
        let sub = row.pop_front().unwrap();
        assert(sub == whole[i as int]);
        assert(row@ =~= whole.skip(i as int + 1));
        out.push(items[i].reconstruct_bi(sub));
        i += 1;
    }
    assert(out@ =~= rebuilt_within(items@, children@));
    out
}

/// The traversal step of a deque whose elements have a traversal to the
/// target type: nothing where it is empty, else a row with the values in
/// each element.
pub fn biplate_within_deque<To: Uniplate, F: Biplate<To>>(items: &VecDeque<F>) -> (children: Tree<
    To,
>)
    ensures
        children@ == shape_within::<To, F>(items@),
{
    if items.len() == 0 {
        return Tree::Zero;
    }
    let mut row: VecDeque<Tree<To>> = VecDeque::new();
    let mut i: usize = 0;
    while i < items.len()
        invariant
            i <= items.len(),
            row@.len() == i,
            forall|j: int| 0 <= j < i ==> (#[trigger] row@[j])@ == items@[j].shape_bi(),
        decreases items.len() - i,
    {
        row.push_back(items[i].biplate());
        i += 1;
    }
    proof {
        Tree::lemma_row(row);
        assert(Tree::row(row) =~= shapes_within::<To, F>(items@));
    }
    Tree::Many(row)
}

/// Puts a deque together again, each element around the shape in its place
/// in `children`.
pub fn reconstruct_within_deque<To: Uniplate, F: Biplate<To>>(
    items: &VecDeque<F>,
    children: Tree<To>,
) -> (r: VecDeque<F>)
    requires
        children@.same_structure(shape_within::<To, F>(items@)),
    ensures
        r@ == rebuilt_within(items@, children@),
{
    let mut out: VecDeque<F> = VecDeque::new();
    if items.len() == 0 {
        assert(out@ =~= items@);
        return out;
    }
    let ghost shapes = shapes_within::<To, F>(items@);
    proof {
        children@.lemma_same_structure_many(shapes);
    }
    let ghost given = children@->Many_0;
    let mut row = children.into_row();
    proof {
        Tree::lemma_row(row);
    }
    let ghost whole = row@;
    let mut i: usize = 0;
    assert(row@ =~= whole.skip(0));
    while i < items.len()
        invariant
            i <= items.len(),
            items@.len() > 0,
            shapes == shapes_within::<To, F>(items@),
            Shape::Many(given).same_structure(Shape::Many(shapes)),
            given.len() == items@.len(),
            whole.len() == given.len(),
            forall|j: int| 0 <= j < whole.len() ==> (#[trigger] whole[j])@ == given[j],
            row@ == whole.skip(i as int),
            out@.len() == i,
            forall|j: int|
                0 <= j < i ==> #[trigger] out@[j] == items@[j].rebuilt_bi(given[j]),
        decreases items.len() - i,
    {
        proof {
            Shape::lemma_same_structure_row(given, shapes, i as int);
        }
        let sub = row.pop_front().unwrap();
        assert(sub == whole[i as int]);
        assert(row@ =~= whole.skip(i as int + 1));
        out.push_back(items[i].reconstruct_bi(sub));
        i += 1;
    }
    assert(out@ =~= rebuilt_within(items@, children@));
    out
}

/// The values of the target type in an optional value: those in the value
/// where there is one, and nothing where there is none.
pub open spec fn shape_within_option<To: Uniplate, F: Biplate<To>>(item: Option<F>) -> Shape<To> {
    match item {
        Some(x) => x.shape_bi(),
        None => Shape::Zero,
    }
}

/// An optional value put together again around `children`.
pub open spec fn rebuilt_within_option<To: Uniplate, F: Biplate<To>>(
    item: Option<F>,
    children: Shape<To>,
) -> Option<F> {
    match item {
        Some(x) => Some(x.rebuilt_bi(children)),
        None => None,
    }
}

/// Reconstruction identity for optional values.
pub proof fn lemma_rebuilt_within_option_identity<To: Uniplate, F: Biplate<To>>(item: Option<F>)
    ensures
        rebuilt_within_option(item, shape_within_option::<To, F>(item)) == item,
{
    match item {
        Some(x) => {
            x.lemma_rebuilt_shape_bi();
        },
        None => {},
    }
}

/// The traversal step of an optional value whose type has a traversal to
/// the target type.
pub fn biplate_within_option<To: Uniplate, F: Biplate<To>>(item: &Option<F>) -> (children: Tree<To>)
    ensures
        children@ == shape_within_option::<To, F>(*item),
{
    match item {
        Some(x) => x.biplate(),
        None => Tree::Zero,
    }
}

/// Puts an optional value together again around `children`.
pub fn reconstruct_within_option<To: Uniplate, F: Biplate<To>>(
    item: &Option<F>,
    children: Tree<To>,
) -> (r: Option<F>)
    requires
        children@.same_structure(shape_within_option::<To, F>(*item)),
    ensures
        r == rebuilt_within_option(*item, children@),
{
    match item {
        Some(x) => Some(x.reconstruct_bi(children)),
        None => None,
    }
}

} // verus!
