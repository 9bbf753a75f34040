use vstd::prelude::*;
use crate::quotes::RetrievalError;

verus! {

/// The series that a summary is computed over: present only when retrieval
/// succeeded with at least one price. A failed retrieval and an empty answer
/// both leave the symbol without a summary.
pub fn usable_series<P>(fetched: Result<Vec<P>, RetrievalError>) -> (r: Option<Vec<P>>)
    ensures
        match fetched {
            Ok(v) => if v@.len() > 0 {
                r matches Some(s) && s@ == v@
            } else {
                r is None
            },
            Err(_) => r is None,
        },
{
    match fetched {
        Ok(closes) => {
            if closes.len() == 0 {
                None
            } else {
                Some(closes)
            }
        },
        Err(_) => None,
    }
}

} // verus!
