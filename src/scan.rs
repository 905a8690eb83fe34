//! Decisions of the listening loop.
use vstd::prelude::*;

verus! {

/// Whether listening that began `elapsed_secs` seconds ago has run out of
/// its `timeout`, in seconds; without a timeout it never does.
pub fn listen_timed_out(timeout: Option<u64>, elapsed_secs: u64) -> (r: bool)
    ensures
        r == match timeout {
            Some(t) => elapsed_secs >= t,
            None => false,
        },
{
    match timeout {
        Some(t) => elapsed_secs >= t,
        None => false,
    }
}

} // verus!
