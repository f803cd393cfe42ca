use core::cmp::Ordering;

use vstd::prelude::*;
use vstd::std_specs::cmp::PartialOrdSpec;
use vstd::std_specs::cmp::PartialOrdSpecImpl;

use crate::index::Index;

verus! {

/// How two positions compare.
pub open spec fn position_order(a: u64, b: u64) -> Ordering {
    if a < b {
        Ordering::Less
    } else if a == b {
        Ordering::Equal
    } else {
        Ordering::Greater
    }
}

impl PartialOrd for Index {
    /// Indices compare as their positions do.
    fn partial_cmp(&self, other: &Index) -> (r: Option<Ordering>) {
        let a = self.value();
        let b = other.value();
        if a < b {
            Some(Ordering::Less)
        } else if a == b {
            Some(Ordering::Equal)
        } else {
            Some(Ordering::Greater)
        }
    }
}

impl PartialOrdSpecImpl for Index {
    open spec fn obeys_partial_cmp_spec() -> bool {
        true
    }

    open spec fn partial_cmp_spec(&self, other: &Index) -> Option<Ordering> {
        Some(position_order(self.pos(), other.pos()))
    }
}

/// Indices are ordered as their positions: one index comes at or before
/// another exactly when its position is no greater, and strictly before
/// exactly when its position is smaller.
pub proof fn lemma_order_is_position_order(a: Index, b: Index)
    ensures
        (PartialOrdSpec::partial_cmp_spec(&a, &b) == Some(Ordering::Less) || PartialOrdSpec::partial_cmp_spec(&a, &b) == Some(Ordering::Equal))
            <==> a.pos() <= b.pos(),
        PartialOrdSpec::partial_cmp_spec(&a, &b) == Some(Ordering::Less) <==> a.pos() < b.pos(),
        PartialOrdSpec::partial_cmp_spec(&a, &b) == Some(Ordering::Equal) <==> a == b,
{
    Index::lemma_pos_injective(a, b);
}

/// Indices form a total order that follows position: any two compare
/// (never `None`), one is greater exactly when its position is greater, and
/// swapping the two reverses the answer.
pub proof fn lemma_order_is_total(a: Index, b: Index)
    ensures
        PartialOrdSpec::partial_cmp_spec(&a, &b) is Some,
        PartialOrdSpec::partial_cmp_spec(&a, &b) == Some(Ordering::Greater) <==> a.pos() > b.pos(),
        PartialOrdSpec::partial_cmp_spec(&a, &b) == Some(Ordering::Less) <==> a.pos() < b.pos(),
        PartialOrdSpec::partial_cmp_spec(&a, &b) == Some(Ordering::Greater) <==> PartialOrdSpec::partial_cmp_spec(
            &b,
            &a,
        ) == Some(Ordering::Less),
{
}

} // verus!
