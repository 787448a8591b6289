//! What the search structures need of `<` on their values.
use vstd::prelude::*;
use vstd::std_specs::cmp::{PartialOrdIs, PartialOrdSpec};

verus! {

/// `<` on `T` is a strict weak order: never both ways between two values,
/// and "not less than" is transitive.
pub open spec fn strict_weak_order<T: PartialOrd>() -> bool {
    &&& forall|x: T, y: T| #![trigger x.partial_cmp_spec(&y)] x.is_lt(&y) ==> !y.is_lt(&x)
    &&& forall|x: T, y: T, z: T|
        #![trigger x.partial_cmp_spec(&y), y.partial_cmp_spec(&z), x.partial_cmp_spec(&z)]
        !x.is_lt(&y) && !y.is_lt(&z) ==> !x.is_lt(&z)
}

/// "Not less than" chains: from `!(x < y)` and `!(y < z)`, `!(x < z)`.
pub proof fn lemma_not_less_trans<T: PartialOrd>(x: T, y: T, z: T)
    requires
        strict_weak_order::<T>(),
        !x.is_lt(&y),
        !y.is_lt(&z),
    ensures
        !x.is_lt(&z),
{
}

/// `<` chains: from `x < y` and `y < z`, `x < z`.
pub proof fn lemma_less_trans<T: PartialOrd>(x: T, y: T, z: T)
    requires
        strict_weak_order::<T>(),
        x.is_lt(&y),
        y.is_lt(&z),
    ensures
        x.is_lt(&z),
{
    if !x.is_lt(&z) {
        assert(!z.is_lt(&y));
        lemma_not_less_trans(x, z, y);
    }
}

} // verus!
