//! The advisory lock that keeps runs for one day apart.
//!
//! The lock belongs to a session of the store and goes when the session ends, so a
//! run that dies does not block the next one.

use crate::time::{lemma_date_by_days, Date};
use vstd::prelude::*;

verus! {

/// The part of a lock key that all keys of this program share.
pub const LOCK_NAMESPACE: i64 = 0x544F_4F54_4F4F;

/// The lock key of the day with number `days`.
pub open spec fn lock_key_of(days: int) -> i64 {
    LOCK_NAMESPACE ^ (days as i64)
}

/// The key of the lock that guards the runs for `as_of_date`.
pub fn lock_key_for_date(as_of_date: Date) -> (r: i64)
    ensures
        r == lock_key_of(as_of_date@),
{
    let days = as_of_date.days_from_ce();
    LOCK_NAMESPACE ^ (days as i64)
}

/// Different days have different lock keys.
pub proof fn lemma_lock_keys_differ(a: Date, b: Date)
    requires
        a != b,
        crate::time::date_in_range(a@),
        crate::time::date_in_range(b@),
    ensures
        lock_key_of(a@) != lock_key_of(b@),
{
    lemma_date_by_days(a, b);
    let x = a@ as i64;
    let y = b@ as i64;
    assert(x != y);
    assert((LOCK_NAMESPACE ^ x) != (LOCK_NAMESPACE ^ y)) by (bit_vector)
        requires
            x != y,
    ;
}

} // verus!
