//! What the progress display computes from the queue and the clock.
use vstd::prelude::*;

verus! {

/// Seconds still to go, estimated from the pace so far: `elapsed` seconds for
/// `completed` of `total` jobs. There is no estimate before the first job
/// finishes, nor when more jobs finished than there are.
pub fn eta_secs(elapsed: u64, total: u64, completed: u64) -> (r: Option<u128>)
    ensures
        completed == 0 || completed > total ==> r is None,
        1 <= completed <= total ==> r == Some(
            ((elapsed as int * (total - completed)) / completed as int) as u128,
        ),
{
    if completed == 0 || completed > total {
        return None;
    }
    let remaining = (total - completed) as u128;
    assert(elapsed as u128 * remaining <= 0xffff_ffff_ffff_ffffu128 * 0xffff_ffff_ffff_ffffu128)
        by (nonlinear_arith)
        requires
            elapsed <= 0xffff_ffff_ffff_ffffu64,
            remaining <= 0xffff_ffff_ffff_ffffu128,
    ;
    let work = elapsed as u128 * remaining;
    Some(work / completed as u128)
}

/// Jobs finished, from the queue's size at the start and now.
pub fn completed_jobs(total: usize, pending: usize) -> (r: usize)
    requires
        pending <= total,
    ensures
        r == total - pending,
{
    total - pending
}

} // verus!
