//! The decisions of the four C-ABI trampolines, as pure functions.
//!
//! The trampolines themselves live with the unverified embedder: they own
//! the process-wide callback slots and the raw out-pointers of the kernel
//! signatures.  Each one asks the function for its kind here what to do --
//! whether the callback is consulted, what is stored through the
//! out-pointer, and what is returned -- and then only performs it.  A
//! trampoline whose slot is empty panics in the embedder: returning a
//! made-up value would forge time readings nobody asked for.

use vstd::prelude::*;

verus! {

/// What the `clock_gettime` trampoline does: with a null out-pointer the
/// callback is not consulted and nothing is stored; the C return value is
/// 0 either way.
pub fn clock_gettime_action(out_null: bool) -> (r: (bool, i32))
    ensures
        r.0 == !out_null,
        r.1 == 0,
{
    (!out_null, 0)
}

/// What the `clock_getres` trampoline does: the same as `clock_gettime`,
/// store only through a non-null out-pointer and return 0.
pub fn clock_getres_action(out_null: bool) -> (r: (bool, i32))
    ensures
        r.0 == !out_null,
        r.1 == 0,
{
    (!out_null, 0)
}

/// What the `gettimeofday` trampoline does: consult the callback and store
/// only when the out-pointer is non-null; there is no return value, and
/// the time-zone argument plays no part at all.
pub fn gettimeofday_action(out_null: bool) -> (r: bool)
    ensures
        r == !out_null,
{
    !out_null
}

/// What the `time` trampoline does with the callback's value `res`: `res`
/// is the C return value in any case, and is stored through the
/// out-pointer exactly when that pointer is non-null.
pub fn time_action(res: i64, out_null: bool) -> (r: (Option<i64>, i64))
    ensures
        r.1 == res,
        r.0 == (if out_null {
            None::<i64>
        } else {
            Some(res)
        }),
{
    if out_null {
        (None, res)
    } else {
        (Some(res), res)
    }
}

} // verus!
