use ev3dev_lang_rust::wait::state_contains;
use ev3dev_lang_rust::wait::wait_start;
use ev3dev_lang_rust::wait::wait_step;
use ev3dev_lang_rust::wait::WaitStep;

#[test]
fn wait_immediate_returns_true_without_blocking() {
    assert_eq!(wait_start(true, None), WaitStep::Return(true));
    assert_eq!(wait_start(true, Some(0)), WaitStep::Return(true));
    assert_eq!(wait_start(true, Some(200)), WaitStep::Return(true));
}

#[test]
fn wait_start_blocks_on_full_budget() {
    assert_eq!(wait_start(false, Some(200)), WaitStep::Block(200));
    assert_eq!(wait_start(false, None), WaitStep::Block(-1));
}

#[test]
fn wait_budget_is_consumed_exactly() {
    // A 200 ms wait on an always-false condition: every block is bounded
    // by the unspent remainder, and false comes only at or past 200 ms.
    assert_eq!(wait_step(false, Some(200), 0), WaitStep::Block(200));
    assert_eq!(wait_step(false, Some(200), 60), WaitStep::Block(140));
    assert_eq!(wait_step(false, Some(200), 199), WaitStep::Block(1));
    assert_eq!(wait_step(false, Some(200), 200), WaitStep::Return(false));
    assert_eq!(wait_step(false, Some(200), 260), WaitStep::Return(false));
}

#[test]
fn wait_timeout_is_checked_before_the_condition() {
    assert_eq!(wait_step(true, Some(200), 200), WaitStep::Return(false));
    assert_eq!(wait_step(true, Some(200), 120), WaitStep::Return(true));
}

#[test]
fn state_flag_membership() {
    let state = vec!["running".to_string(), "ramping".to_string()];
    assert!(state_contains(&state, "running"));
    assert!(state_contains(&state, "ramping"));
    assert!(!state_contains(&state, "holding"));
    assert!(!state_contains(&Vec::new(), "running"));
}

#[test]
fn unbounded_wait_keeps_blocking() {
    assert_eq!(wait_step(false, None, 100_000), WaitStep::Block(-1));
    assert_eq!(wait_step(true, None, 100_000), WaitStep::Return(true));
}
