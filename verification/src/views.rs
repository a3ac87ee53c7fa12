//! Views of optional values and of lists.

use vstd::prelude::*;

verus! {

/// The view of an optional borrowed value.
pub open spec fn borrowed<T: View>(o: Option<&T>) -> Option<T::V> {
    match o {
        Some(x) => Some(x@),
        None => None,
    }
}

/// The view of an optional value.
pub open spec fn optional<T: View>(o: Option<T>) -> Option<T::V> {
    match o {
        Some(x) => Some(x@),
        None => None,
    }
}

/// The views of a list of values.
pub open spec fn list<T: View>(v: Seq<T>) -> Seq<T::V> {
    Seq::new(v.len(), |i: int| v[i]@)
}

/// One value more gives one view more.
pub proof fn list_push<T: View>(v: Seq<T>, x: T)
    ensures
        list(v.push(x)) == list(v).push(x@),
{
    assert(list(v.push(x)) =~= list(v).push(x@));
}

} // verus!
