//! A singly linked list of boxed nodes.
use vstd::prelude::*;
use vstd::std_specs::cmp::{PartialOrdIs, PartialOrdSpec};

verus! {

/// A list: empty, or a value followed by the rest of the list.
#[derive(Debug)]
pub struct LinkedList<T>(pub Option<(T, Box<LinkedList<T>>)>);

/// `s` with `d` placed before the first element that `d` is not greater than.
pub open spec fn sorted_insert<T: PartialOrd>(s: Seq<T>, d: T) -> Seq<T>
    decreases s.len(),
{
    if s.len() == 0 {
        seq![d]
    } else if d.is_gt(&s[0]) {
        seq![s[0]] + sorted_insert(s.drop_first(), d)
    } else {
        seq![d] + s
    }
}

impl<T> LinkedList<T> {
    /// The values of the list, front first.
    pub open spec fn items(&self) -> Seq<T>
        decreases self,
    {
        match self.0 {
            Some((d, next)) => seq![d] + next.items(),
            None => Seq::empty(),
        }
    }

    pub fn new() -> (r: Self)
        ensures
            r.items() == Seq::<T>::empty(),
    {
        LinkedList(None)
    }

    pub fn push_front(&mut self, data: T)
        ensures
            final(self).items() == seq![data] + old(self).items(),
    {
        let t = self.0.take();
        self.0 = Some((data, Box::new(LinkedList(t))));
    }

    pub fn push_back(&mut self, data: T)
        ensures
            final(self).items() == old(self).items().push(data),
        decreases old(self).items().len(),
    {
        match self.0 {
            Some((_, ref mut child)) => {
                child.push_back(data);
                assert(final(self).items() =~= old(self).items().push(data));
            },
            None => {
                self.push_front(data);
                assert(final(self).items() =~= old(self).items().push(data));
            },
        }
    }
}

impl<T: PartialOrd + Copy> LinkedList<T> {
    /// Inserts `data` before the first value that it is not greater than.
    pub fn insert_sorted(&mut self, data: T)
        requires
            T::obeys_partial_cmp_spec(),
        ensures
            final(self).items() == sorted_insert(old(self).items(), data),
        decreases old(self).items().len(),
    {
        match self.0 {
            Some((val, ref mut child)) => {
                if data > val {
                    let ghost rest = child.items();
                    assert(old(self).items().drop_first() =~= rest);
                    child.insert_sorted(data);
                    assert(final(self).items() =~= sorted_insert(old(self).items(), data));
                } else {
                    self.push_front(data);
                }
            },
            None => self.push_front(data),
        }
    }
}

} // verus!
