//! The pause/unpause state machine.
//!
//! The controller holds a single belief: whether the controlled client
//! was last successfully told to pause. Each tick it is handed one scan
//! result and decides at most one control call; the belief changes only
//! when that call is confirmed to have succeeded, so a run never issues
//! two calls of the same kind without an opposite scan result between
//! them.

use vstd::prelude::*;
use vstd::string::*;

use crate::process::str_eq;

verus! {

/// Configuration consumed once at startup.
pub struct Config {
    /// Base names of processes whose presence pauses the client.
    pub pause_on: Vec<String>,
    /// The belief to start from, before the first reconciliation.
    pub start_paused: bool,
}

/// Whether a command-line argument asks for verbose reporting.
pub fn is_verbose_flag(flag: &str) -> (r: bool)
    ensures
        r == (flag@ == "-v"@ || flag@ == "--verbose"@),
{
    str_eq(flag, "-v") || str_eq(flag, "--verbose")
}

/// A control call issued to the controlled client.
#[derive(Clone, Copy, Debug, PartialEq, Eq, Structural)]
pub enum ControlAction {
    /// Tell the client to pause all work.
    Pause,
    /// Tell the client to resume all work.
    Unpause,
}

/// What one tick decides, given the current belief and the scan result:
/// a pause call when a watched process appeared while unpaused, an
/// unpause call when none is present while paused, and no call when the
/// scan agrees with the belief.
pub open spec fn spec_decide(paused: bool, found: bool) -> Option<ControlAction> {
    if found && !paused {
        Some(ControlAction::Pause)
    } else if !found && paused {
        Some(ControlAction::Unpause)
    } else {
        None
    }
}

/// The control calls of a run of ticks that all succeed, one entry per
/// tick, starting from belief `paused`.
pub open spec fn actions_of(paused: bool, scans: Seq<bool>) -> Seq<Option<ControlAction>>
    decreases scans.len(),
{
    if scans.len() == 0 {
        Seq::empty()
    } else {
        seq![spec_decide(paused, scans[0])] + actions_of(scans[0], scans.drop_first())
    }
}

/// The belief in force when tick `i` runs: the initial belief for the
/// first tick, afterwards the previous tick's scan result.
pub open spec fn belief_at(b0: bool, scans: Seq<bool>, i: int) -> bool {
    if i == 0 {
        b0
    } else {
        scans[i - 1]
    }
}

pub proof fn lemma_actions_of_len(b0: bool, scans: Seq<bool>)
    ensures
        actions_of(b0, scans).len() == scans.len(),
    decreases scans.len(),
{
    if scans.len() > 0 {
        lemma_actions_of_len(scans[0], scans.drop_first());
    }
}

/// Each tick's call is decided by the belief the previous scan results
/// left behind and that tick's own scan result.
pub proof fn lemma_actions_of_index(b0: bool, scans: Seq<bool>, i: int)
    requires
        0 <= i < scans.len(),
    ensures
        actions_of(b0, scans)[i] == spec_decide(belief_at(b0, scans, i), scans[i]),
    decreases i,
{
    lemma_actions_of_len(scans[0], scans.drop_first());
    if i > 0 {
        lemma_actions_of_index(scans[0], scans.drop_first(), i - 1);
    }
}

/// Number of control calls among the decisions of a run: the ticks that
/// issued a call.
pub open spec fn count_some(actions: Seq<Option<ControlAction>>) -> nat
    decreases actions.len(),
{
    if actions.len() == 0 {
        0
    } else {
        (if actions[0] is Some {
            1nat
        } else {
            0nat
        }) + count_some(actions.drop_first())
    }
}

/// Number of strict alternations of a scan sequence relative to the
/// belief in force: positions whose scan result disagrees with what the
/// results before them (or the initial belief) left behind.
pub open spec fn alternations(b0: bool, scans: Seq<bool>) -> nat
    decreases scans.len(),
{
    if scans.len() == 0 {
        0
    } else {
        (if scans[0] != b0 {
            1nat
        } else {
            0nat
        }) + alternations(scans[0], scans.drop_first())
    }
}

/// A run issues exactly one control call per strict alternation of the
/// scan-result sequence relative to the current belief.
pub proof fn lemma_calls_equal_alternations(b0: bool, scans: Seq<bool>)
    ensures
        count_some(actions_of(b0, scans)) == alternations(b0, scans),
    decreases scans.len(),
{
    if scans.len() > 0 {
        let rest = actions_of(scans[0], scans.drop_first());
        assert((seq![spec_decide(b0, scans[0])] + rest).drop_first() =~= rest);
        lemma_calls_equal_alternations(scans[0], scans.drop_first());
    }
}

/// Between a position holding `v` and a later one holding the opposite
/// value lies a flip: a position holding the opposite value whose
/// predecessor still holds `v`.
proof fn lemma_first_flip(scans: Seq<bool>, v: bool, lo: int, hi: int)
    requires
        0 <= lo < hi < scans.len(),
        scans[lo] == v,
        scans[hi] == !v,
    ensures
        exists|m: int| lo < m <= hi && #[trigger] scans[m] == !v && scans[m - 1] == v,
    decreases hi - lo,
{
    if scans[hi - 1] == v {
        assert(lo < hi <= hi && scans[hi] == !v && scans[hi - 1] == v);
    } else {
        lemma_first_flip(scans, v, lo, hi - 1);
        let m = choose|m: int| lo < m <= hi - 1 && #[trigger] scans[m] == !v && scans[m - 1] == v;
        assert(lo < m <= hi && scans[m] == !v && scans[m - 1] == v);
    }
}

/// No two control calls of the same kind occur without an intervening
/// call of the opposite kind: between any two equal calls of a run
/// stands an opposite one, because the scan results must have flipped
/// back in between.
pub proof fn lemma_no_redundant_calls(b0: bool, scans: Seq<bool>, i: int, j: int)
    requires
        0 <= i < j < scans.len(),
        actions_of(b0, scans)[i] is Some,
        actions_of(b0, scans)[j] == actions_of(b0, scans)[i],
    ensures
        exists|k: int|
            i < k < j && #[trigger] actions_of(b0, scans)[k] is Some && actions_of(b0, scans)[k]
                != actions_of(b0, scans)[i],
{
    lemma_actions_of_index(b0, scans, i);
    lemma_actions_of_index(b0, scans, j);
    let v = scans[i];
    assert(belief_at(b0, scans, i) == !v);
    assert(scans[j] == v && scans[j - 1] == !v);
    assert(i < j - 1);
    lemma_first_flip(scans, v, i, j - 1);
    let m = choose|m: int| i < m <= j - 1 && #[trigger] scans[m] == !v && scans[m - 1] == v;
    lemma_actions_of_index(b0, scans, m);
    assert(actions_of(b0, scans)[m] is Some && actions_of(b0, scans)[m] != actions_of(
        b0,
        scans,
    )[i]);
}

/// The pause/unpause state machine. It owns the belief of whether the
/// controlled client was last told to pause and decides when a control
/// call is due; performing the call is its caller's work.
pub struct PauseController {
    /// Base names of processes whose presence pauses the client.
    pub pause_on: Vec<String>,
    /// Whether transitions are reported on the diagnostic stream.
    pub verbose: bool,
    /// The belief: whether the client was last successfully told to pause.
    pub paused: bool,
}

impl PauseController {
    /// Sets the controller up from the configuration.
    pub fn new(config: Config, verbose: bool) -> (c: Self)
        ensures
            c.pause_on == config.pause_on,
            c.verbose == verbose,
            c.paused == config.start_paused,
    {
        PauseController { pause_on: config.pause_on, verbose, paused: config.start_paused }
    }

    /// The reconciliation call due right after a connect or reconnect:
    /// the controlled client's actual state is then unknown, so the
    /// current belief is re-imposed with one unconditional call.
    pub fn startup_action(&self) -> (r: ControlAction)
        ensures
            r == (if self.paused {
                ControlAction::Pause
            } else {
                ControlAction::Unpause
            }),
    {
        if self.paused {
            ControlAction::Pause
        } else {
            ControlAction::Unpause
        }
    }

    /// Decides what one tick does with the given scan result.
    pub fn decide(&self, found: bool) -> (r: Option<ControlAction>)
        ensures
            r == spec_decide(self.paused, found),
    {
        if found && !self.paused {
            Some(ControlAction::Pause)
        } else if !found && self.paused {
            Some(ControlAction::Unpause)
        } else {
            None
        }
    }

    /// Records that a decided control call succeeded: only then does the
    /// belief change, so a failed call leaves the controller ready to
    /// decide the same transition again.
    pub fn confirm(&mut self, action: ControlAction)
        ensures
            final(self).paused == (action == ControlAction::Pause),
            final(self).pause_on == old(self).pause_on,
            final(self).verbose == old(self).verbose,
    {
        self.paused = action == ControlAction::Pause;
    }

    /// Runs a sequence of ticks whose control calls all succeed,
    /// returning the call (if any) each tick issued.
    pub fn run_scans(&mut self, scans: &Vec<bool>) -> (actions: Vec<Option<ControlAction>>)
        ensures
            actions@ == actions_of(old(self).paused, scans@),
            count_some(actions@) == alternations(old(self).paused, scans@),
            final(self).pause_on == old(self).pause_on,
            final(self).verbose == old(self).verbose,
            final(self).paused == (if scans@.len() == 0 {
                old(self).paused
            } else {
                scans@[scans@.len() - 1]
            }),
    {
        proof {
            lemma_calls_equal_alternations(self.paused, scans@);
        }
        let n = scans.len();
        let mut actions: Vec<Option<ControlAction>> = Vec::new();
        let mut i: usize = 0;
        proof {
            assert(scans@.skip(0) =~= scans@);
        }
        while i < n
            invariant
                i <= n,
                n == scans@.len(),
                actions@.len() == i,
                self.pause_on == old(self).pause_on,
                self.verbose == old(self).verbose,
                self.paused == belief_at(old(self).paused, scans@, i as int),
                actions_of(old(self).paused, scans@) == actions@ + actions_of(
                    self.paused,
                    scans@.skip(i as int),
                ),
            decreases n - i,
        {
            let found = scans[i];
            let a = self.decide(found);
            proof {
                assert(scans@.skip(i as int).drop_first() =~= scans@.skip(i as int + 1));
                assert(actions@ + actions_of(self.paused, scans@.skip(i as int)) =~= (actions@
                    + seq![spec_decide(self.paused, found)]) + actions_of(
                    found,
                    scans@.skip(i as int + 1),
                ));
            }
            if let Some(act) = a {
                self.confirm(act);
            }
            actions.push(a);
            i = i + 1;
        }
        proof {
            assert(actions_of(self.paused, scans@.skip(n as int)) =~= Seq::empty());
            assert(actions@ + Seq::<Option<ControlAction>>::empty() =~= actions@);
        }
        actions
    }
}

/// One full connected session, from configuration to the calls issued:
/// the reconciliation call that follows the connect, then one decision
/// per scan result, with every control call succeeding.
pub fn run(config: Config, verbose: bool, scans: &Vec<bool>) -> (r: (
    ControlAction,
    Vec<Option<ControlAction>>,
))
    ensures
        r.0 == (if config.start_paused {
            ControlAction::Pause
        } else {
            ControlAction::Unpause
        }),
        r.1@ == actions_of(config.start_paused, scans@),
{
    let mut controller = PauseController::new(config, verbose);
    let first = controller.startup_action();
    let actions = controller.run_scans(scans);
    (first, actions)
}

/// The notice reported on a transition when verbose reporting is on.
pub fn transition_message(action: ControlAction) -> (r: String)
    ensures
        action == ControlAction::Pause ==> r@ == "pausing fah"@,
        action == ControlAction::Unpause ==> r@ == "unpausing fah"@,
{
    match action {
        ControlAction::Pause => String::from_str("pausing fah"),
        ControlAction::Unpause => String::from_str("unpausing fah"),
    }
}

} // verus!
