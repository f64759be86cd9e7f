//! Views of optional values and of lists.

use vstd::prelude::*;

verus! {

/// The view of a value that may be missing.
pub open spec fn maybe<T: View>(value: Option<T>) -> Option<T::V> {
    match value {
        Some(inner) => Some(inner@),
        None => None,
    }
}

/// The views of the items of a list.
pub open spec fn list<T: View>(items: Seq<T>) -> Seq<T::V> {
    Seq::new(items.len(), |i: int| items[i]@)
}

/// An outcome with its value and its error replaced by their views.
pub open spec fn outcome<T: View, E: View>(result: Result<T, E>) -> Result<T::V, E::V> {
    match result {
        Ok(value) => Ok(value@),
        Err(error) => Err(error@),
    }
}

/// The same text again, if there is one.
pub fn copy_text(value: &Option<String>) -> (result: Option<String>)
    ensures
        maybe(result) == maybe(*value),
{
    match value {
        Some(inner) => Some(inner.clone()),
        None => None,
    }
}

} // verus!
