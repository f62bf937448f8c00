//! The chunked wait plan.
//!
//! A cycle blocks for the configured interval before launching the
//! command. So that long waits stay observable, the wait is split into
//! coarse chunks: full chunks of `CHUNK_SECS` seconds while more than
//! a chunk remains, then one final sleep for exactly the remainder. A
//! progress line may be printed between chunks. The plan is the exact
//! sequence of sleep durations; its total is proved to equal the
//! interval.

use vstd::prelude::*;

verus! {

/// Length in seconds of one coarse sleep chunk.
pub const CHUNK_SECS: u64 = 60;

/// The sequence of sleep durations for an interval of `d` seconds:
/// chunks of `CHUNK_SECS` while more than a chunk remains, then the
/// remainder (possibly zero) as the final sleep.
pub open spec fn wait_chunks(d: nat) -> Seq<u64>
    decreases d,
{
    if d > CHUNK_SECS {
        seq![CHUNK_SECS].add(wait_chunks((d - CHUNK_SECS) as nat))
    } else {
        seq![d as u64]
    }
}

/// The total of a sequence of durations.
pub open spec fn total_secs(s: Seq<u64>) -> int
    decreases s.len(),
{
    if s.len() == 0 {
        0
    } else {
        s[0] + total_secs(s.drop_first())
    }
}

/// The plan covers the interval exactly: the chunk durations of
/// `wait_chunks(d)` sum to `d`, so a cycle that performs each sleep in
/// order blocks for the whole configured interval and no longer.
pub proof fn lemma_wait_plan_total(d: nat)
    ensures
        total_secs(wait_chunks(d)) == d,
    decreases d,
{
    if d > CHUNK_SECS {
        lemma_wait_plan_total((d - CHUNK_SECS) as nat);
        let s = wait_chunks(d);
        assert(s.drop_first() =~= wait_chunks((d - CHUNK_SECS) as nat));
        assert(s[0] == CHUNK_SECS);
        assert(total_secs(s) == CHUNK_SECS + total_secs(wait_chunks((d - CHUNK_SECS) as nat)));
    } else {
        let s = wait_chunks(d);
        assert(s == seq![d as u64]);
        assert(s.drop_first() =~= Seq::<u64>::empty());
        assert(total_secs(Seq::<u64>::empty()) == 0);
        assert(s[0] == d);
    }
}

/// The plan's shape: never empty (even a zero interval has one,
/// zero-length, final sleep), every sleep before the last a full
/// chunk, and the final sleep at most one chunk.
pub proof fn lemma_wait_plan_chunked(d: nat)
    ensures
        wait_chunks(d).len() > 0,
        forall|i: int| 0 <= i < wait_chunks(d).len() - 1 ==> wait_chunks(d)[i] == CHUNK_SECS,
        wait_chunks(d).last() <= CHUNK_SECS,
    decreases d,
{
    if d > CHUNK_SECS {
        lemma_wait_plan_chunked((d - CHUNK_SECS) as nat);
        assert forall|i: int| 0 <= i < wait_chunks(d).len() - 1 implies wait_chunks(d)[i]
            == CHUNK_SECS by {
            if i > 0 {
                assert(wait_chunks(d)[i] == wait_chunks((d - CHUNK_SECS) as nat)[i - 1]);
            }
        }
        assert(wait_chunks(d).last() == wait_chunks((d - CHUNK_SECS) as nat).last());
    }
}

/// The executable wait plan for an interval of `d` seconds.
pub fn wait_plan(d: u64) -> (plan: Vec<u64>)
    ensures
        plan@ == wait_chunks(d as nat),
{
    let mut plan: Vec<u64> = Vec::new();
    let mut remaining: u64 = d;
    while remaining > CHUNK_SECS
        invariant
            wait_chunks(d as nat) =~= plan@.add(wait_chunks(remaining as nat)),
        decreases remaining,
    {
        plan.push(CHUNK_SECS);
        remaining = remaining - CHUNK_SECS;
    }
    plan.push(remaining);
    proof {
        assert(plan@ =~= wait_chunks(d as nat));
    }
    plan
}

} // verus!
