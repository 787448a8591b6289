//! A binary search tree that keeps each node's height and rotates a node
//! whose two sides differ in height by more than one.
use vstd::prelude::*;
use vstd::multiset::Multiset;
use vstd::std_specs::cmp::{PartialOrdIs, PartialOrdSpec};
use crate::order::{lemma_not_less_trans, strict_weak_order};

verus! {

/// A tree: empty, or a boxed node.
#[derive(Debug)]
pub struct BinTree<T>(pub Option<Box<BinData<T>>>);

/// A node: a value, its stored height, and the trees to its left and right.
#[derive(Debug)]
pub struct BinData<T> {
    pub data: T,
    pub h: i8,
    pub left: BinTree<T>,
    pub right: BinTree<T>,
}

pub open spec fn max_int(a: int, b: int) -> int {
    if a >= b { a } else { b }
}

fn max_height(a: i8, b: i8) -> (r: i8)
    ensures
        r as int == max_int(a as int, b as int),
{
    if a >= b { a } else { b }
}

/// `after` is `before` turned right: the left child of `before` has become
/// the root, with `before` (keeping its right tree) hung to its right, and
/// the left child's right tree moved under `before`'s left.
pub open spec fn rotated_right<T>(before: BinData<T>, after: BinData<T>) -> bool {
    before.left.0 matches Some(l) ==> {
        &&& after.data == l.data
        &&& after.left == l.left
        &&& after.right.0 matches Some(m) && m.data == before.data && m.left == l.right
            && m.right == before.right
    }
}

/// `after` is `before` turned left, the mirror image of `rotated_right`.
pub open spec fn rotated_left<T>(before: BinData<T>, after: BinData<T>) -> bool {
    before.right.0 matches Some(c) ==> {
        &&& after.data == c.data
        &&& after.right == c.right
        &&& after.left.0 matches Some(m) && m.data == before.data && m.right == c.left
            && m.left == before.left
    }
}

impl<T> BinData<T> {
    /// The values below this node, in order: left, the node, right.
    pub open spec fn items(&self) -> Seq<T>
        decreases self,
    {
        self.left.items() + seq![self.data] + self.right.items()
    }

    /// The values below this node.
    pub open spec fn contents(&self) -> Multiset<T>
        decreases self,
    {
        self.left.contents().add(self.right.contents()).insert(self.data)
    }

    /// The stored height is one more than the taller side's, and the same
    /// holds of every node below.
    pub open spec fn wf(&self) -> bool
        decreases self,
    {
        &&& self.left.wf()
        &&& self.right.wf()
        &&& self.h as int == 1 + max_int(self.left.height_spec(), self.right.height_spec())
    }

    /// Turns the node left: its right child becomes the root, and that
    /// child's left tree moves under the old root. Without a right child the
    /// node is returned as it is.
    pub fn rot_left(self) -> (r: Box<Self>)
        requires
            self.left.wf(),
            self.right.wf(),
            self.left.height_spec() <= 125,
            self.right.height_spec() <= 126,
        ensures
            r.items() == self.items(),
            r.contents() == self.contents(),
            self.right.0 is None ==> *r == self,
            rotated_left(self, *r),
            self.right.0 is Some ==> {
                &&& r.wf()
                &&& r.h <= 1 + max_int(self.right.height_spec(), self.left.height_spec() + 1)
            },
    {
        let ghost s = self;
        let mut node = self;
        let mut res = match node.right.0.take() {
            Some(res) => res,
            None => return Box::new(node),
        };
        let ghost r0 = *res;
        proof {
            assert(s.right.0.unwrap() == *res);
            assert(res.left.height_spec() <= 125 && res.right.height_spec() <= 125);
            BinTree::lemma_wf_children(res.left);
        }
        let ghost inner = res.left;
        let ghost kept = res.right;
        node.right = BinTree(res.left.0.take());
        assert(node.right == inner);
        node.right.set_height();
        let ghost moved = node;
        res.left = BinTree(Some(Box::new(node)));
        res.left.set_height();
        res.h = 1 + max_height(res.left.height(), res.right.height());
        proof {
            assert(res.left.items() == moved.items());
            assert(res.left.contents() == moved.contents());
            assert(res.right == kept);
            assert(moved.left == s.left && moved.data == s.data);
            assert(s.right.items() == r0.items());
            assert(s.right.contents() == r0.contents());
            assert(r0.left == inner && r0.right == kept && r0.data == res.data);
        }
        assert(res.items() =~= s.items());
        assert(res.contents() =~= s.contents());
        res
    }

    /// Turns the node right: its left child becomes the root, and that
    /// child's right tree moves under the old root. Without a left child the
    /// node is returned as it is.
    pub fn rot_right(self) -> (r: Box<Self>)
        requires
            self.left.wf(),
            self.right.wf(),
            self.left.height_spec() <= 126,
            self.right.height_spec() <= 125,
        ensures
            r.items() == self.items(),
            r.contents() == self.contents(),
            self.left.0 is None ==> *r == self,
            rotated_right(self, *r),
            self.left.0 is Some ==> {
                &&& r.wf()
                &&& r.h <= 1 + max_int(self.left.height_spec(), self.right.height_spec() + 1)
            },
    {
        let ghost s = self;
        let mut node = self;
        let mut res = match node.left.0.take() {
            Some(res) => res,
            None => return Box::new(node),
        };
        let ghost r0 = *res;
        proof {
            assert(s.left.0.unwrap() == *res);
            assert(res.left.height_spec() <= 125 && res.right.height_spec() <= 125);
            BinTree::lemma_wf_children(res.right);
        }
        let ghost inner = res.right;
        let ghost kept = res.left;
        node.left = BinTree(res.right.0.take());
        assert(node.left == inner);
        node.left.set_height();
        let ghost moved = node;
        res.right = BinTree(Some(Box::new(node)));
        res.right.set_height();
        res.h = 1 + max_height(res.left.height(), res.right.height());
        proof {
            assert(res.right.items() == moved.items());
            assert(res.right.contents() == moved.contents());
            assert(res.left == kept);
            assert(moved.right == s.right && moved.data == s.data);
            assert(s.left.items() == r0.items());
            assert(s.left.contents() == r0.contents());
            assert(r0.right == inner && r0.left == kept && r0.data == res.data);
        }
        assert(res.items() =~= s.items());
        assert(res.contents() =~= s.contents());
        res
    }
}

impl<T> BinTree<T> {
    /// The values of the tree, in order.
    pub open spec fn items(&self) -> Seq<T>
        decreases self,
    {
        match self.0 {
            Some(b) => b.items(),
            None => Seq::empty(),
        }
    }

    /// The values of the tree.
    pub open spec fn contents(&self) -> Multiset<T>
        decreases self,
    {
        match self.0 {
            Some(b) => b.contents(),
            None => Multiset::empty(),
        }
    }

    /// The height stored at the root; zero for the empty tree.
    pub open spec fn height_spec(&self) -> int {
        match self.0 {
            Some(b) => b.h as int,
            None => 0,
        }
    }

    /// Every stored height is right.
    pub open spec fn wf(&self) -> bool
        decreases self,
    {
        match self.0 {
            Some(b) => b.wf(),
            None => true,
        }
    }

    /// Below a well-formed root, both sides are well formed and lower.
    pub proof fn lemma_wf_children(t: BinTree<T>)
        requires
            t.wf(),
        ensures
            t.0 matches Some(b) ==> {
                &&& b.wf()
                &&& b.left.wf()
                &&& b.right.wf()
                &&& b.left.height_spec() < b.h
                &&& b.right.height_spec() < b.h
            },
    {
    }

    /// A well-formed tree has no negative height.
    pub proof fn lemma_wf_height_nonneg(t: BinTree<T>)
        requires
            t.wf(),
        ensures
            t.height_spec() >= 0,
        decreases t,
    {
        if let Some(b) = t.0 {
            BinTree::lemma_wf_height_nonneg(b.left);
        }
    }

    pub fn new() -> (r: Self)
        ensures
            r.items() == Seq::<T>::empty(),
            r.wf(),
            r.height_spec() == 0,
    {
        BinTree(None)
    }

    pub fn height(&self) -> (r: i8)
        ensures
            r as int == self.height_spec(),
    {
        match self.0 {
            Some(ref t) => t.h,
            None => 0,
        }
    }

    /// Recomputes the root's height from its two sides.
    pub fn set_height(&mut self)
        requires
            old(self).0 matches Some(b) ==> b.left.height_spec() < 127 && b.right.height_spec()
                < 127,
        ensures
            final(self).items() == old(self).items(),
            final(self).contents() == old(self).contents(),
            old(self).0 is None ==> *final(self) == *old(self),
            old(self).0 matches Some(b) ==> {
                &&& final(self).0 matches Some(c) && c.left == b.left && c.right == b.right
                    && c.data == b.data
                &&& final(self).height_spec() == 1 + max_int(
                    b.left.height_spec(),
                    b.right.height_spec(),
                )
                &&& b.left.wf() && b.right.wf() ==> final(self).wf()
            },
    {
        if let Some(ref mut t) = self.0 {
            t.h = 1 + max_height(t.left.height(), t.right.height());
        }
    }

    /// Turns the root left (see [`BinData::rot_left`]).
    pub fn rot_left(&mut self)
        requires
            old(self).0 matches Some(b) ==> {
                &&& b.left.wf()
                &&& b.right.wf()
                &&& b.left.height_spec() <= 125
                &&& b.right.height_spec() <= 126
            },
        ensures
            final(self).items() == old(self).items(),
            final(self).contents() == old(self).contents(),
            old(self).0 is None ==> final(self).0 is None,
            old(self).0 matches Some(b) ==> final(self).0 matches Some(r) && rotated_left(*b, *r),
            old(self).0 matches Some(b) ==> b.right.0 is None ==> *final(self) == *old(self),
            old(self).0 matches Some(b) ==> b.right.0 is Some ==> {
                &&& final(self).wf()
                &&& final(self).height_spec() <= 1 + max_int(
                    b.right.height_spec(),
                    b.left.height_spec() + 1,
                )
            },
    {
        if let Some(v) = self.0.take() {
            self.0 = Some((*v).rot_left());
        }
    }

    /// Turns the root right (see [`BinData::rot_right`]).
    pub fn rot_right(&mut self)
        requires
            old(self).0 matches Some(b) ==> {
                &&& b.left.wf()
                &&& b.right.wf()
                &&& b.left.height_spec() <= 126
                &&& b.right.height_spec() <= 125
            },
        ensures
            final(self).items() == old(self).items(),
            final(self).contents() == old(self).contents(),
            old(self).0 is None ==> final(self).0 is None,
            old(self).0 matches Some(b) ==> final(self).0 matches Some(r) && rotated_right(*b, *r),
            old(self).0 matches Some(b) ==> b.left.0 is None ==> *final(self) == *old(self),
            old(self).0 matches Some(b) ==> b.left.0 is Some ==> {
                &&& final(self).wf()
                &&& final(self).height_spec() <= 1 + max_int(
                    b.left.height_spec(),
                    b.right.height_spec() + 1,
                )
            },
    {
        if let Some(v) = self.0.take() {
            self.0 = Some((*v).rot_right());
        }
    }
}

impl<T: PartialOrd> BinData<T> {
    /// Search order: below each node, no value on the left is greater than
    /// the node's value, and none on the right is less.
    pub open spec fn ordered(&self) -> bool
        decreases self,
    {
        &&& self.left.ordered()
        &&& self.right.ordered()
        &&& forall|x: T| #[trigger] self.left.contents().contains(x) ==> !self.data.is_lt(&x)
        &&& forall|y: T| #[trigger] self.right.contents().contains(y) ==> !y.is_lt(&self.data)
    }

    /// Turning an ordered node right keeps it ordered.
    pub proof fn lemma_rotated_right_ordered(before: BinData<T>, after: BinData<T>)
        requires
            strict_weak_order::<T>(),
            before.ordered(),
            before.left.0 is Some,
            rotated_right(before, after),
        ensures
            after.ordered(),
    {
        let l = *before.left.0.unwrap();
        let m = *after.right.0.unwrap();
        assert(before.left.contents() == l.contents());
        assert(after.right.contents() == m.contents());
        assert(l.ordered());
        assert forall|x: T| #[trigger] m.left.contents().contains(x) implies !m.data.is_lt(&x) by {
            assert(l.contents().contains(x));
        }
        assert(m.ordered());
        assert(before.left.contents().contains(l.data));
        assert forall|z: T| #[trigger] after.right.contents().contains(z) implies !z.is_lt(
            &after.data,
        ) by {
            assert(m.contents().contains(z));
            assert(m.contents() == m.left.contents().add(m.right.contents()).insert(m.data));
            if z == before.data {
                assert(!before.data.is_lt(&l.data));
            } else if l.right.contents().contains(z) {
                assert(!z.is_lt(&l.data));
            } else {
                assert(m.left.contents().add(m.right.contents()).contains(z));
                assert(before.right.contents().contains(z));
                lemma_not_less_trans(z, before.data, l.data);
            }
        }
    }

    /// Turning an ordered node left keeps it ordered.
    pub proof fn lemma_rotated_left_ordered(before: BinData<T>, after: BinData<T>)
        requires
            strict_weak_order::<T>(),
            before.ordered(),
            before.right.0 is Some,
            rotated_left(before, after),
        ensures
            after.ordered(),
    {
        let c = *before.right.0.unwrap();
        let m = *after.left.0.unwrap();
        assert(before.right.contents() == c.contents());
        assert(after.left.contents() == m.contents());
        assert(c.ordered());
        assert forall|y: T| #[trigger] m.right.contents().contains(y) implies !y.is_lt(&m.data) by {
            assert(c.contents().contains(y));
        }
        assert(m.ordered());
        assert(before.right.contents().contains(c.data));
        assert forall|x: T| #[trigger] after.left.contents().contains(x) implies !after.data.is_lt(
            &x,
        ) by {
            assert(m.contents().contains(x));
            assert(m.contents() == m.left.contents().add(m.right.contents()).insert(m.data));
            if x == before.data {
                assert(!c.data.is_lt(&before.data));
            } else if c.left.contents().contains(x) {
                assert(!c.data.is_lt(&x));
            } else {
                assert(m.left.contents().add(m.right.contents()).contains(x));
                assert(before.left.contents().contains(x));
                lemma_not_less_trans(c.data, before.data, x);
            }
        }
    }
}

impl<T: PartialOrd> BinTree<T> {
    /// Search order over the whole tree (see [`BinData::ordered`]).
    pub open spec fn ordered(&self) -> bool
        decreases self,
    {
        match self.0 {
            Some(b) => b.ordered(),
            None => true,
        }
    }

    /// Adds `data` below the node where search order places it (left of a
    /// node whose value it is less than, right otherwise), then turns a node
    /// whose sides now differ in height by more than one towards the lower
    /// side, and recomputes the heights on the way up.
    pub fn add_sorted(&mut self, data: T)
        requires
            old(self).wf(),
            old(self).height_spec() <= 125,
        ensures
            final(self).wf(),
            final(self).contents() == old(self).contents().insert(data),
            final(self).height_spec() <= old(self).height_spec() + 1,
            T::obeys_partial_cmp_spec() && strict_weak_order::<T>() && old(self).ordered()
                ==> final(self).ordered(),
        decreases old(self).items().len(),
    {
        proof {
            BinTree::lemma_wf_children(*self);
            if self.0 is Some {
                BinTree::lemma_wf_height_nonneg(self.0.unwrap().left);
                BinTree::lemma_wf_height_nonneg(self.0.unwrap().right);
            }
        }
        let rot_dir: i8 = match self.0 {
            Some(ref mut bd) => {
                if data < bd.data {
                    bd.left.add_sorted(data);
                    proof {
                        BinTree::lemma_wf_height_nonneg(bd.left);
                        assert(forall|x: T| #[trigger] bd.left.contents().contains(x) ==> x == data
                            || old(self).0.unwrap().left.contents().contains(x));
                        if T::obeys_partial_cmp_spec() && strict_weak_order::<T>() {
                            assert(data.is_lt(&bd.data));
                            assert(!bd.data.is_lt(&data));
                        }
                    }
                    if bd.left.height() - bd.right.height() > 1 {
                        1
                    } else {
                        0
                    }
                } else {
                    bd.right.add_sorted(data);
                    proof {
                        BinTree::lemma_wf_height_nonneg(bd.right);
                        assert(forall|x: T| #[trigger] bd.right.contents().contains(x) ==> x == data
                            || old(self).0.unwrap().right.contents().contains(x));
                    }
                    if bd.right.height() - bd.left.height() > 1 {
                        -1
                    } else {
                        0
                    }
                }
            },
            None => {
                self.0 = Some(
                    Box::new(BinData { data, h: 0, left: BinTree(None), right: BinTree(None) }),
                );
                0
            },
        };
        assert(self.contents() =~= old(self).contents().insert(data));
        let ghost pre = *self;
        let ghost orders = T::obeys_partial_cmp_spec() && strict_weak_order::<T>()
            && old(self).ordered();
        assert(orders ==> pre.ordered());
        match rot_dir {
            1 => {
                self.rot_right();
                proof {
                    let b = *pre.0.unwrap();
                    if orders && b.left.0 is Some {
                        BinData::lemma_rotated_right_ordered(b, *self.0.unwrap());
                    }
                }
            },
            -1 => {
                self.rot_left();
                proof {
                    let b = *pre.0.unwrap();
                    if orders && b.right.0 is Some {
                        BinData::lemma_rotated_left_ordered(b, *self.0.unwrap());
                    }
                }
            },
            _ => self.set_height(),
        }
    }
}

} // verus!
