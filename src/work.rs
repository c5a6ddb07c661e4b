use vstd::prelude::*;

verus! {

/// How many values one unit of busy work fills and sorts.
pub const WORK_BLOCK_LEN: usize = 10000;

/// Busy work could not run: the random source failed.
#[derive(Clone, Copy, Debug, PartialEq, Eq, Structural)]
pub struct WorkFailure {
    /// The worker that was doing the work.
    pub worker: usize,
}

/// The values are in ascending order.
pub open spec fn is_sorted(s: Seq<u64>) -> bool {
    forall|i: int, j: int| 0 <= i < j < s.len() ==> s[i] <= s[j]
}

/// Relies on rand's `Rng::try_fill` on `thread_rng()`: the values are
/// overwritten with random ones, or an error is reported; the length stays.
#[verifier::external_body]
fn fill_random(block: &mut Vec<u64>) -> (ok: bool)
    ensures
        final(block)@.len() == old(block)@.len(),
{
    rand::Rng::try_fill(&mut rand::thread_rng(), &mut block[..]).is_ok()
}

/// Relies on std's `slice::sort_unstable`: the same values, in ascending order.
#[verifier::external_body]
fn sort_values(block: &mut Vec<u64>)
    ensures
        final(block)@.len() == old(block)@.len(),
        final(block)@.to_multiset() == old(block)@.to_multiset(),
        is_sorted(final(block)@),
{
    block.sort_unstable();
}

/// One unit of busy work for worker `num`: fills a block with random values
/// and sorts it, which keeps one CPU fully busy for a short, steady time.
/// Hands back the sorted block.
pub fn work(num: usize) -> (r: Result<Vec<u64>, WorkFailure>)
    ensures
        r matches Ok(v) ==> v@.len() == WORK_BLOCK_LEN && is_sorted(v@),
        r matches Err(f) ==> f.worker == num,
{
    let mut block: Vec<u64> = vec![0u64; WORK_BLOCK_LEN];
    if !fill_random(&mut block) {
        return Err(WorkFailure { worker: num });
    }
    sort_values(&mut block);
    Ok(block)
}

} // verus!
