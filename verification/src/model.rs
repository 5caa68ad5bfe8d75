//! How the contracts speak of results.

use vstd::prelude::*;

verus! {

/// What a result stands for: the view of its value, or the view of its error.
pub open spec fn outcome<T: View, E: View>(r: Result<T, E>) -> Result<T::V, E::V> {
    match r {
        Ok(t) => Ok(t@),
        Err(e) => Err(e@),
    }
}

} // verus!
