//! Views of sequences of values.

use vstd::prelude::*;

verus! {

/// The view of every item of a sequence, in order.
pub open spec fn view_each<T: View>(items: Seq<T>) -> Seq<T::V> {
    Seq::new(items.len(), |i: int| items[i]@)
}

} // verus!
