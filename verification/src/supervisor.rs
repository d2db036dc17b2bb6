//! Reconnect policy for the control channel.
//!
//! Acquiring the control channel never gives up: attempts are made in
//! order, each bounded by a per-attempt timeout, with a fixed backoff
//! sleep after every failure, until one succeeds. The policy here is the
//! pure part: against a given sequence of attempt outcomes, which attempt
//! yields the client and how many attempts were made.

use vstd::prelude::*;

verus! {

/// Index of the first successful attempt in a sequence of outcomes, or
/// `None` when every attempt fails.
pub open spec fn first_success(outcomes: Seq<bool>) -> Option<int>
    decreases outcomes.len(),
{
    if outcomes.len() == 0 {
        None
    } else if outcomes[0] {
        Some(0int)
    } else {
        match first_success(outcomes.drop_first()) {
            None => None,
            Some(i) => Some(i + 1),
        }
    }
}

/// When the first `n` attempts fail and attempt `n` succeeds, the first
/// success sits at index `n`: acquisition returns that attempt's client
/// after `n + 1` attempts, with a backoff sleep after each of the `n`
/// failures.
pub proof fn lemma_first_success_after_failures(outcomes: Seq<bool>, n: int)
    requires
        0 <= n < outcomes.len(),
        outcomes[n],
        forall|k: int| 0 <= k < n ==> !outcomes[k],
    ensures
        first_success(outcomes) == Some(n),
    decreases n,
{
    if n > 0 {
        lemma_first_success_after_failures(outcomes.drop_first(), n - 1);
    }
}

/// When every attempt fails, no attempt is the first success: the real
/// loop would still be retrying.
pub proof fn lemma_first_success_none(outcomes: Seq<bool>)
    requires
        forall|k: int| 0 <= k < outcomes.len() ==> !outcomes[k],
    ensures
        first_success(outcomes) is None,
    decreases outcomes.len(),
{
    if outcomes.len() > 0 {
        lemma_first_success_none(outcomes.drop_first());
    }
}

/// The number of connection attempts an acquisition makes against the
/// given outcomes: one per failure before the first success, plus the
/// successful attempt itself. `None` when every outcome fails, in which
/// case the real loop has not returned yet.
pub fn attempts_to_acquire(outcomes: &Vec<bool>) -> (r: Option<usize>)
    ensures
        match r {
            Some(n) => 1 <= n <= outcomes@.len() && first_success(outcomes@) == Some(n - 1),
            None => first_success(outcomes@) is None,
        },
{
    let len = outcomes.len();
    let mut i: usize = 0;
    while i < len
        invariant
            i <= len,
            len == outcomes@.len(),
            forall|k: int| 0 <= k < i ==> !outcomes@[k],
        decreases len - i,
    {
        if outcomes[i] {
            proof {
                lemma_first_success_after_failures(outcomes@, i as int);
            }
            return Some(i + 1);
        }
        i = i + 1;
    }
    proof {
        lemma_first_success_none(outcomes@);
    }
    None
}

} // verus!
