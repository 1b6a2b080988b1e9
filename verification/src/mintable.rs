//! The mint extension's amount guard. Minting itself is a host-side action
//! (admin authorization, balance bookkeeping, an emitted event); the one
//! rule it enforces locally is that a mint amount is never negative.

use vstd::prelude::*;

verus! {

/// The non-negativity guard on a mint amount. The unverified caller aborts
/// on a negative amount instead of calling; a negative amount is therefore
/// ruled out here rather than handled.
pub fn check_nonnegative_amount(amount: i128)
    requires
        amount >= 0,
{
}

} // verus!
