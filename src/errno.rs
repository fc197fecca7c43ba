//! Keeping the OS error code that a genuine call set across bookkeeping work.
use vstd::prelude::*;

verus! {

/// Runs `action` once, handing it the current error code, then puts back the
/// code that was there before. Returns the code that `action` left behind.
pub fn preserve_errno<F: FnOnce(i32) -> i32>(errno: &mut i32, action: F) -> (left: i32)
    requires
        action.requires((*old(errno),)),
    ensures
        action.ensures((*old(errno),), left),
        *final(errno) == *old(errno),
{
    let saved: i32 = *errno;
    let left = action(saved);
    *errno = left;
    *errno = saved;
    left
}

} // verus!
