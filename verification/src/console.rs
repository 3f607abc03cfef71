//! The standard handles of a process that attaches to its parent's console.

use crate::places::{picks, picks_next};
use vstd::prelude::*;

verus! {

/// The value of a handle that stands for no device or file.
pub const INVALID_HANDLE: isize = -1;

/// A standard handle that the process was started with leads somewhere: to a pipe or
/// a file that its output was redirected to.
pub open spec fn leads_somewhere(handle: isize) -> bool {
    handle != 0 && handle != INVALID_HANDLE
}

/// The places of the handles in `saved` to set again. Attaching to a console may
/// replace the standard handles: those that led somewhere before it are kept. Where
/// the process did not attach, nothing was replaced.
pub fn handles_to_restore(attached: bool, saved: &Vec<isize>) -> (r: Vec<usize>)
    ensures
        picks(
            r@,
            saved@.len() as int,
            |i: int| attached && leads_somewhere(saved@[i]),
        ),
{
    let mut kept: Vec<usize> = Vec::new();
    let mut i: usize = 0;
    let ghost chosen = |i: int| attached && leads_somewhere(saved@[i]);
    while i < saved.len()
        invariant
            i <= saved@.len(),
            chosen == (|i: int| attached && leads_somewhere(saved@[i])),
            picks(kept@, i as int, chosen),
        decreases saved@.len() - i,
    {
        proof {
            picks_next(kept@, i, chosen);
        }
        if attached && saved[i] != 0 && saved[i] != INVALID_HANDLE {
            kept.push(i);
        }
        i += 1;
    }
    kept
}

/// Only two values of a handle lead nowhere.
pub proof fn handles_lead_somewhere_but_for_two(handle: isize)
    ensures
        !leads_somewhere(handle) <==> handle == 0 || handle == -1,
{
}

}
