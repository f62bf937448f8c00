//! The repeat policy and the run-loop state machine.
//!
//! A run either repeats forever or counts down a bounded number of
//! cycles. The policy is the only state the loop mutates: it is
//! consulted before each cycle, and stepped after each completed one.
//! A launch failure ends the run regardless of the remaining count.
//!
//! The driver performs the sleeps and launches; the decisions are all
//! here. `run_launches` is the mathematical model of the whole loop:
//! given the policy and the success or failure of each would-be
//! launch, it says how many launches the loop performs. The lemmas
//! below pin the model down for every policy.

use vstd::prelude::*;

verus! {

/// How many cycles the run still owes: forever, or a countdown.
/// `Bounded(0)` is the exhausted terminal state.
#[derive(Clone, Copy, PartialEq, Eq, Structural, Debug)]
pub enum RepeatPolicy {
    Infinite,
    Bounded(u64),
}

impl RepeatPolicy {
    /// Whether the policy asks for another cycle.
    pub open spec fn wants_cycle_spec(self) -> bool {
        match self {
            RepeatPolicy::Infinite => true,
            RepeatPolicy::Bounded(n) => n > 0,
        }
    }

    /// The policy after one completed cycle.
    pub open spec fn step_spec(self) -> RepeatPolicy {
        match self {
            RepeatPolicy::Infinite => RepeatPolicy::Infinite,
            RepeatPolicy::Bounded(n) => if n > 0 {
                RepeatPolicy::Bounded((n - 1) as u64)
            } else {
                RepeatPolicy::Bounded(0)
            },
        }
    }

    /// The remaining cycle count; zero for an infinite policy, whose
    /// count never runs out.
    pub open spec fn remaining_spec(self) -> nat {
        match self {
            RepeatPolicy::Infinite => 0,
            RepeatPolicy::Bounded(n) => n as nat,
        }
    }

    /// Consulted before each cycle: `true` exactly when another cycle
    /// is owed.
    pub fn wants_cycle(&self) -> (r: bool)
        ensures
            r == self.wants_cycle_spec(),
    {
        match self {
            RepeatPolicy::Infinite => true,
            RepeatPolicy::Bounded(n) => *n > 0,
        }
    }

    /// Counts one completed cycle off a bounded policy; an infinite
    /// policy is unchanged.
    pub fn step(&mut self)
        requires
            old(self).wants_cycle_spec(),
        ensures
            *final(self) == old(self).step_spec(),
    {
        match self {
            RepeatPolicy::Infinite => {},
            RepeatPolicy::Bounded(n) => {
                *n = *n - 1;
            },
        }
    }
}

/// How many launches a run performs: one launch per wanted cycle,
/// consuming one entry of `outcomes` each (`true` for a successful
/// launch, `false` for a launch failure), until the policy is
/// exhausted, a launch fails, or no further outcome is given.
pub open spec fn run_launches(p: RepeatPolicy, outcomes: Seq<bool>) -> nat
    decreases outcomes.len(),
{
    if !p.wants_cycle_spec() || outcomes.len() == 0 {
        0
    } else if !outcomes[0] {
        1
    } else {
        (1 + run_launches(p.step_spec(), outcomes.drop_first())) as nat
    }
}

/// With a bound of zero the command is never launched: the loop ends
/// before the first cycle, whatever the outcomes would have been.
pub proof fn lemma_bounded_zero_never_launches(outcomes: Seq<bool>)
    ensures
        run_launches(RepeatPolicy::Bounded(0), outcomes) == 0,
{
}

/// With a bound of `k` and no launch failure among the first `k`
/// outcomes, the command is launched exactly `k` times, one cycle
/// after another.
pub proof fn lemma_bounded_exact_launches(k: u64, outcomes: Seq<bool>)
    requires
        outcomes.len() >= k,
        forall|i: int| 0 <= i < k ==> outcomes[i],
    ensures
        run_launches(RepeatPolicy::Bounded(k), outcomes) == k,
    decreases k,
{
    if k > 0 {
        lemma_bounded_exact_launches((k - 1) as u64, outcomes.drop_first());
        assert(RepeatPolicy::Bounded(k).step_spec() == RepeatPolicy::Bounded((k - 1) as u64));
        assert(forall|i: int| 0 <= i < k - 1 ==> #[trigger] outcomes.drop_first()[i]
            == outcomes[i + 1]);
    }
}

/// An infinite policy launches for as long as launches keep
/// succeeding: every one of the given outcomes is consumed.
pub proof fn lemma_infinite_launches_while_successful(outcomes: Seq<bool>)
    requires
        forall|i: int| 0 <= i < outcomes.len() ==> outcomes[i],
    ensures
        run_launches(RepeatPolicy::Infinite, outcomes) == outcomes.len(),
    decreases outcomes.len(),
{
    if outcomes.len() > 0 {
        lemma_infinite_launches_while_successful(outcomes.drop_first());
        assert(forall|i: int| 0 <= i < outcomes.len() - 1 ==> #[trigger] outcomes.drop_first()[i]
            == outcomes[i + 1]);
    }
}

/// The first launch failure ends any run: with the failure at
/// position `f`, exactly `f + 1` launch attempts occur, whatever
/// outcomes follow and however much of a bounded count remains.
pub proof fn lemma_failure_ends_run(p: RepeatPolicy, outcomes: Seq<bool>, f: int)
    requires
        0 <= f < outcomes.len(),
        !outcomes[f],
        forall|i: int| 0 <= i < f ==> outcomes[i],
        p.remaining_spec() > f || p is Infinite,
    ensures
        run_launches(p, outcomes) == f + 1,
    decreases f,
{
    if f > 0 {
        lemma_failure_ends_run(p.step_spec(), outcomes.drop_first(), f - 1);
        assert(forall|i: int| 0 <= i < outcomes.len() - 1 ==> #[trigger] outcomes.drop_first()[i]
            == outcomes[i + 1]);
    }
}

} // verus!
