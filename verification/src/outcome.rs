//! The model of a result.

use vstd::prelude::*;

verus! {

/// The model of a result: the model of what it holds, value or error.
pub open spec fn result_model<T: View, E: View>(r: Result<T, E>) -> Result<T::V, E::V> {
    match r {
        Ok(t) => Ok(t@),
        Err(e) => Err(e@),
    }
}

} // verus!
