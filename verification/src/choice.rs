//! Choosing between two values that were both computed beforehand.

use vstd::prelude::*;

verus! {

/// Returns `if_true` when `condition` holds and `if_false` otherwise.
///
/// Both candidates are ordinary arguments, so the caller has evaluated both
/// before the call: this selects a value, it does not branch.
pub fn ternary_operator<T>(condition: bool, if_true: T, if_false: T) -> (picked: T)
    ensures
        condition ==> picked == if_true,
        !condition ==> picked == if_false,
{
    if condition {
        if_true
    } else {
        if_false
    }
}

} // verus!
