//! An unbalanced binary search tree.
use vstd::prelude::*;
use vstd::multiset::Multiset;
use vstd::std_specs::cmp::{PartialOrdIs, PartialOrdSpec};
use crate::order::{lemma_less_trans, lemma_not_less_trans, strict_weak_order};

verus! {

/// A tree: empty, or a boxed node.
#[derive(Debug)]
pub struct BinTree<T>(pub Option<Box<BinData<T>>>);

/// A node: a value with the trees to its left and right.
#[derive(Debug)]
pub struct BinData<T> {
    pub data: T,
    pub left: BinTree<T>,
    pub right: BinTree<T>,
}

impl<T> BinTree<T> {
    /// The values of the tree, in order: left, the node, right.
    pub open spec fn items(&self) -> Seq<T>
        decreases self,
    {
        match self.0 {
            Some(b) => b.left.items() + seq![b.data] + b.right.items(),
            None => Seq::empty(),
        }
    }

    /// The values held in the tree.
    pub open spec fn contents(&self) -> Multiset<T>
        decreases self,
    {
        match self.0 {
            Some(b) => b.left.contents().add(b.right.contents()).insert(b.data),
            None => Multiset::empty(),
        }
    }

    /// The number of levels of the tree.
    pub open spec fn depth(&self) -> nat
        decreases self,
    {
        match self.0 {
            Some(b) => 1 + vstd::math::max(b.left.depth() as int, b.right.depth() as int) as nat,
            None => 0,
        }
    }

    pub fn new() -> (r: Self)
        ensures
            r.items() == Seq::<T>::empty(),
            r.contents() == Multiset::<T>::empty(),
            r.depth() == 0,
    {
        BinTree(None)
    }
}

impl<T: PartialOrd> BinTree<T> {
    /// Search order: below each node, every value on the left is less than
    /// the node's value and no value on the right is.
    pub open spec fn ordered(&self) -> bool
        decreases self,
    {
        match self.0 {
            Some(b) => {
                &&& b.left.ordered()
                &&& b.right.ordered()
                &&& forall|i: int|
                    0 <= i < b.left.items().len() ==> (#[trigger] b.left.items()[i]).is_lt(&b.data)
                &&& forall|i: int|
                    0 <= i < b.right.items().len() ==> !(#[trigger] b.right.items()[i]).is_lt(
                        &b.data,
                    )
            },
            None => true,
        }
    }

    /// The tree with one new leaf holding `d`, hung where search order
    /// places it: left of a node whose value `d` is less than, right
    /// otherwise. No other node moves.
    pub open spec fn with_leaf(self, d: T) -> BinTree<T>
        decreases self,
    {
        match self.0 {
            Some(b) => if d.is_lt(&b.data) {
                BinTree(Some(Box::new(BinData { data: b.data, left: b.left.with_leaf(d), right: b.right })))
            } else {
                BinTree(Some(Box::new(BinData { data: b.data, left: b.left, right: b.right.with_leaf(d) })))
            },
            None => BinTree(Some(Box::new(BinData { data: d, left: BinTree(None), right: BinTree(None) }))),
        }
    }

    /// Where in the in-order values the leaf for `d` lands.
    pub open spec fn leaf_index(self, d: T) -> int
        decreases self,
    {
        match self.0 {
            Some(b) => if d.is_lt(&b.data) {
                b.left.leaf_index(d)
            } else {
                b.left.items().len() + 1 + b.right.leaf_index(d)
            },
            None => 0,
        }
    }

    /// The new leaf adds `d` to the in-order values at `leaf_index`.
    pub proof fn lemma_with_leaf_items(t: BinTree<T>, d: T)
        ensures
            0 <= t.leaf_index(d) <= t.items().len(),
            t.with_leaf(d).items() == t.items().insert(t.leaf_index(d), d),
        decreases t,
    {
        if let Some(b) = t.0 {
            if d.is_lt(&b.data) {
                BinTree::lemma_with_leaf_items(b.left, d);
            } else {
                BinTree::lemma_with_leaf_items(b.right, d);
            }
            assert(t.with_leaf(d).items() =~= t.items().insert(t.leaf_index(d), d));
        } else {
            assert(t.with_leaf(d).items() =~= t.items().insert(t.leaf_index(d), d));
        }
    }

    /// In an ordered tree the leaf for `d` lands at its sorted place: `d` is
    /// less than no value before it and less than every value after it.
    pub proof fn lemma_leaf_index_sorted(t: BinTree<T>, d: T)
        requires
            strict_weak_order::<T>(),
            t.ordered(),
        ensures
            0 <= t.leaf_index(d) <= t.items().len(),
            forall|i: int| 0 <= i < t.leaf_index(d) ==> !d.is_lt(&#[trigger] t.items()[i]),
            forall|i: int| t.leaf_index(d) <= i < t.items().len() ==> d.is_lt(&#[trigger] t.items()[i]),
        decreases t,
    {
        BinTree::lemma_with_leaf_items(t, d);
        if let Some(b) = t.0 {
            let (l, r) = (b.left.items(), b.right.items());
            assert(t.items() == l + seq![b.data] + r);
            BinTree::lemma_leaf_index_sorted(b.left, d);
            BinTree::lemma_leaf_index_sorted(b.right, d);
            let k = t.leaf_index(d);
            assert forall|i: int| 0 <= i < k implies !d.is_lt(&#[trigger] t.items()[i]) by {
                if i < l.len() {
                    assert(t.items()[i] == l[i]);
                    if !d.is_lt(&b.data) {
                        assert(l[i].is_lt(&b.data));
                        if d.is_lt(&l[i]) {
                            lemma_less_trans(d, l[i], b.data);
                        }
                    }
                } else if i > l.len() {
                    assert(t.items()[i] == r[i - l.len() - 1]);
                }
            }
            assert forall|i: int| k <= i < t.items().len() implies d.is_lt(&#[trigger] t.items()[i]) by {
                if i > l.len() {
                    assert(t.items()[i] == r[i - l.len() - 1]);
                    if d.is_lt(&b.data) {
                        let y = r[i - l.len() - 1];
                        assert(!y.is_lt(&b.data));
                        if !d.is_lt(&y) {
                            lemma_not_less_trans(d, y, b.data);
                        }
                    }
                } else if i < l.len() {
                    assert(t.items()[i] == l[i]);
                }
            }
        }
    }

    /// Adds `data` as a new leaf where search order places it; in an
    /// ordered tree that is its sorted place among the in-order values.
    pub fn add_sorted(&mut self, data: T)
        requires
            T::obeys_partial_cmp_spec(),
        ensures
            *final(self) == old(self).with_leaf(data),
            final(self).items() == old(self).items().insert(old(self).leaf_index(data), data),
            final(self).contents() == old(self).contents().insert(data),
            old(self).ordered() ==> final(self).ordered(),
            strict_weak_order::<T>() && old(self).ordered() ==> {
                &&& forall|i: int|
                    0 <= i < old(self).leaf_index(data) ==> !data.is_lt(
                        &#[trigger] old(self).items()[i],
                    )
                &&& forall|i: int|
                    old(self).leaf_index(data) <= i < old(self).items().len() ==> data.is_lt(
                        &#[trigger] old(self).items()[i],
                    )
            },
            final(self).depth() <= old(self).depth() + 1,
        decreases old(self).depth(),
    {
        proof {
            BinTree::lemma_with_leaf_items(*old(self), data);
            if strict_weak_order::<T>() && old(self).ordered() {
                BinTree::lemma_leaf_index_sorted(*old(self), data);
            }
        }
        match self.0 {
            Some(ref mut bd) => {
                if data < bd.data {
                    let ghost before = bd.left;
                    bd.left.add_sorted(data);
                    proof {
                        let k = before.leaf_index(data);
                        BinTree::lemma_with_leaf_items(before, data);
                        assert forall|i: int| 0 <= i < bd.left.items().len() implies
                            (#[trigger] bd.left.items()[i]) == data
                            || before.items().contains(bd.left.items()[i]) by {
                            if i < k {
                                assert(bd.left.items()[i] == before.items()[i]);
                            } else if i > k {
                                assert(bd.left.items()[i] == before.items()[i - 1]);
                            }
                        }
                    }
                } else {
                    let ghost before = bd.right;
                    bd.right.add_sorted(data);
                    proof {
                        let k = before.leaf_index(data);
                        BinTree::lemma_with_leaf_items(before, data);
                        assert forall|i: int| 0 <= i < bd.right.items().len() implies
                            (#[trigger] bd.right.items()[i]) == data
                            || before.items().contains(bd.right.items()[i]) by {
                            if i < k {
                                assert(bd.right.items()[i] == before.items()[i]);
                            } else if i > k {
                                assert(bd.right.items()[i] == before.items()[i - 1]);
                            }
                        }
                    }
                }
                assert(final(self).contents() =~= old(self).contents().insert(data));
            },
            None => {
                self.0 = Some(Box::new(BinData { data, left: BinTree(None), right: BinTree(None) }));
                assert(final(self).contents() =~= old(self).contents().insert(data));
            },
        }
    }
}

} // verus!
