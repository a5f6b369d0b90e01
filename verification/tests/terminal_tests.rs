use rush::terminal::{
    classify_check, establish_process_group, job_control_plan, should_request_foreground,
    term_step, GroupAction, TermEvent, TermState,
};

#[test]
fn check_classification_compares_groups() {
    assert_eq!(classify_check(42, 42), TermEvent::InForeground);
    assert_eq!(classify_check(42, 7), TermEvent::NotInForeground);
}

#[test]
fn signal_requested_only_while_acquiring() {
    assert!(should_request_foreground(TermState::Acquiring { retries_left: 3 }));
    assert!(!should_request_foreground(TermState::Background { budget: 3 }));
    assert!(!should_request_foreground(TermState::Foreground));
    assert!(!should_request_foreground(TermState::Degraded));
}

#[test]
fn job_control_plan_uses_own_pid_as_group() {
    let (set_group, set_foreground) = job_control_plan(1234);
    assert_eq!(set_group, GroupAction::SetGroup { pid: 1234, pgid: 1234 });
    assert_eq!(set_foreground, GroupAction::SetForeground { pgid: 1234 });
}

#[test]
fn foreground_check_ends_acquisition() {
    let st = term_step(TermState::Background { budget: 5 }, TermEvent::InForeground);
    assert_eq!(st, TermState::Foreground);
    let st = term_step(TermState::Acquiring { retries_left: 3 }, TermEvent::InForeground);
    assert_eq!(st, TermState::Foreground);
}

#[test]
fn negative_check_spends_one_retry() {
    let st = term_step(TermState::Background { budget: 2 }, TermEvent::NotInForeground);
    assert_eq!(st, TermState::Acquiring { retries_left: 1 });
    let st = term_step(st, TermEvent::NotInForeground);
    assert_eq!(st, TermState::Acquiring { retries_left: 0 });
}

#[test]
fn spent_budget_degrades() {
    let st = term_step(TermState::Background { budget: 0 }, TermEvent::NotInForeground);
    assert_eq!(st, TermState::Degraded);
    let st = term_step(TermState::Acquiring { retries_left: 0 }, TermEvent::NotInForeground);
    assert_eq!(st, TermState::Degraded);
}

#[test]
fn failed_check_degrades_at_once() {
    let st = term_step(TermState::Background { budget: 9 }, TermEvent::CheckFailed);
    assert_eq!(st, TermState::Degraded);
}

#[test]
fn final_states_absorb() {
    assert_eq!(term_step(TermState::Foreground, TermEvent::NotInForeground), TermState::Foreground);
    assert_eq!(term_step(TermState::Degraded, TermEvent::InForeground), TermState::Degraded);
}

#[test]
fn acquisition_cannot_outlive_budget() {
    let mut st = TermState::Background { budget: 4 };
    let mut steps: u32 = 0;
    while !matches!(st, TermState::Foreground | TermState::Degraded) {
        st = term_step(st, TermEvent::NotInForeground);
        steps += 1;
        assert!(steps <= 5);
    }
    assert_eq!(st, TermState::Degraded);
}

#[test]
fn process_group_setup_is_repeatable() {
    let first = establish_process_group();
    let second = establish_process_group();
    assert_eq!(first.group_set, second.group_set);
}
