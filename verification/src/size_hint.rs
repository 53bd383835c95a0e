//! Exact-size reasoning over iterator size hints.
use vstd::prelude::*;

verus! {

/// The exact element count a size hint promises, if it promises one: the
/// upper bound exactly when it exists and equals the lower bound.
pub fn helper(bounds: (usize, Option<usize>)) -> (r: Option<usize>)
    ensures
        match r {
            Some(n) => bounds.1 == Some(n) && bounds.0 == n,
            None => match bounds.1 {
                Some(upper) => bounds.0 != upper,
                None => true,
            },
        },
{
    match bounds {
        (lower, Some(upper)) => {
            if lower == upper {
                Some(upper)
            } else {
                None
            }
        },
        _ => None,
    }
}

} // verus!
