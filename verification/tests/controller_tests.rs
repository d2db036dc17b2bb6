use fah_pauser::controller::{
    is_verbose_flag, run, transition_message, Config, ControlAction, PauseController,
};
use fah_pauser::supervisor::attempts_to_acquire;

fn watch_list() -> Vec<String> {
    vec![String::from("game.exe")]
}

#[test]
fn startup_reconciles_to_the_configured_belief() {
    let unpaused = PauseController::new(
        Config { pause_on: watch_list(), start_paused: false },
        false,
    );
    assert_eq!(unpaused.startup_action(), ControlAction::Unpause);

    let paused = PauseController::new(Config { pause_on: watch_list(), start_paused: true }, false);
    assert_eq!(paused.startup_action(), ControlAction::Pause);
}

#[test]
fn a_tick_acts_only_on_disagreement() {
    let mut c = PauseController::new(Config { pause_on: watch_list(), start_paused: false }, false);
    assert_eq!(c.decide(false), None);
    assert_eq!(c.decide(true), Some(ControlAction::Pause));
    c.confirm(ControlAction::Pause);
    assert!(c.paused);
    assert_eq!(c.decide(true), None);
    assert_eq!(c.decide(false), Some(ControlAction::Unpause));
    c.confirm(ControlAction::Unpause);
    assert!(!c.paused);
}

#[test]
fn end_to_end_scenario() {
    // Four ticks against the watch-list ["game.exe"], starting unpaused:
    // the pause call comes after the second tick, nothing after the
    // third, and the unpause call after the fourth.
    let mut c = PauseController::new(Config { pause_on: watch_list(), start_paused: false }, false);
    let scans = vec![false, true, true, false];
    let actions = c.run_scans(&scans);
    assert_eq!(
        actions,
        vec![None, Some(ControlAction::Pause), None, Some(ControlAction::Unpause)]
    );
    assert!(!c.paused);
}

#[test]
fn run_issues_reconciliation_then_transitions() {
    let scans = vec![false, true, true, false];
    let (first, actions) = run(
        Config { pause_on: watch_list(), start_paused: false },
        false,
        &scans,
    );
    assert_eq!(first, ControlAction::Unpause);
    assert_eq!(
        actions,
        vec![None, Some(ControlAction::Pause), None, Some(ControlAction::Unpause)]
    );

    let (first_paused, _) = run(
        Config { pause_on: watch_list(), start_paused: true },
        false,
        &scans,
    );
    assert_eq!(first_paused, ControlAction::Pause);
}

#[test]
fn calls_match_alternations_of_the_scan_sequence() {
    let mut c = PauseController::new(Config { pause_on: watch_list(), start_paused: false }, false);
    let scans = vec![true, true, false, true, false, false, true];
    let actions = c.run_scans(&scans);
    let calls: Vec<ControlAction> = actions.into_iter().flatten().collect();
    // One call per strict alternation relative to the belief, and the
    // kinds alternate: no two consecutive calls agree.
    assert_eq!(
        calls,
        vec![
            ControlAction::Pause,
            ControlAction::Unpause,
            ControlAction::Pause,
            ControlAction::Unpause,
            ControlAction::Pause,
        ]
    );
}

#[test]
fn steady_scans_issue_no_calls() {
    let mut c = PauseController::new(Config { pause_on: watch_list(), start_paused: true }, false);
    let scans = vec![true, true, true];
    let actions = c.run_scans(&scans);
    assert_eq!(actions, vec![None, None, None]);
    assert!(c.paused);
}

#[test]
fn verbose_flag_forms() {
    assert!(is_verbose_flag("-v"));
    assert!(is_verbose_flag("--verbose"));
    assert!(!is_verbose_flag("-q"));
    assert!(!is_verbose_flag(""));
    assert!(!is_verbose_flag("verbose"));
}

#[test]
fn transition_messages() {
    assert_eq!(transition_message(ControlAction::Pause), "pausing fah");
    assert_eq!(transition_message(ControlAction::Unpause), "unpausing fah");
}

#[test]
fn reconnect_counts_failures_before_the_first_success() {
    // Three failed attempts, then a success: the client is acquired on
    // the fourth attempt, after a backoff sleep between each failure.
    let outcomes = vec![false, false, false, true];
    assert_eq!(attempts_to_acquire(&outcomes), Some(4));

    let immediate = vec![true, false];
    assert_eq!(attempts_to_acquire(&immediate), Some(1));

    let exhausted = vec![false, false];
    assert_eq!(attempts_to_acquire(&exhausted), None);
}
