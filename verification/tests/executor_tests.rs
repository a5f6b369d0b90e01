use rush::executor::{ExecAction, ExecEvent, PipelineRun, RunPhase};
use rush::pipeline::{plan_piped, plan_piped_redirect};

fn s(x: &str) -> String {
    x.to_string()
}

#[test]
fn two_stage_run_spawns_hands_over_and_waits_every_stage() {
    let mut m = PipelineRun::new(vec![vec![s("printf"), s("a")], vec![s("wc"), s("-c")]], false);
    assert_eq!(
        m.action(),
        ExecAction::Spawn { stage: 0, first: true, last: false, capture: false, lead_group: true }
    );
    assert_eq!(m.stage_argv(0), &vec![s("printf"), s("a")]);
    m.step(ExecEvent::SpawnOk);
    assert_eq!(
        m.action(),
        ExecAction::Spawn { stage: 1, first: false, last: true, capture: false, lead_group: false }
    );
    assert_eq!(m.stage_argv(1), &vec![s("wc"), s("-c")]);
    m.step(ExecEvent::SpawnOk);
    assert_eq!(m.action(), ExecAction::GiveTerminal { leader: 0 });
    m.step(ExecEvent::TerminalHandled);
    assert_eq!(m.action(), ExecAction::Wait { stage: 0, capture: false });
    m.step(ExecEvent::WaitDone { success: true });
    assert_eq!(m.action(), ExecAction::Wait { stage: 1, capture: false });
    m.step(ExecEvent::WaitDone { success: true });
    assert_eq!(m.action(), ExecAction::RestoreTerminal);
    m.step(ExecEvent::TerminalRestored);
    assert!(m.finished());
    assert_eq!(m.action(), ExecAction::Finish { success: true });
    assert!(!m.terminal_given);
}

#[test]
fn only_final_stage_status_counts() {
    let mut m = PipelineRun::new(vec![vec![s("false")], vec![s("wc")]], false);
    m.step(ExecEvent::SpawnOk);
    m.step(ExecEvent::SpawnOk);
    m.step(ExecEvent::TerminalHandled);
    m.step(ExecEvent::WaitDone { success: false });
    assert!(!m.finished());
    m.step(ExecEvent::WaitDone { success: true });
    assert_eq!(m.action(), ExecAction::RestoreTerminal);
    m.step(ExecEvent::TerminalRestored);
    assert_eq!(m.action(), ExecAction::Finish { success: true });
}

#[test]
fn final_stage_failure_fails_pipeline() {
    let mut m = PipelineRun::new(vec![vec![s("true")], vec![s("false")]], false);
    m.step(ExecEvent::SpawnOk);
    m.step(ExecEvent::SpawnOk);
    m.step(ExecEvent::TerminalHandled);
    m.step(ExecEvent::WaitDone { success: true });
    m.step(ExecEvent::WaitDone { success: false });
    m.step(ExecEvent::TerminalRestored);
    assert_eq!(m.action(), ExecAction::Finish { success: false });
}

#[test]
fn spawn_failure_reaps_then_fails_without_restore() {
    let mut m = PipelineRun::new(
        vec![vec![s("no-such-executable")], vec![s("wc")]],
        false,
    );
    m.step(ExecEvent::SpawnFailed);
    assert_eq!(m.action(), ExecAction::Reap);
    m.step(ExecEvent::Reaped);
    assert!(m.finished());
    assert_eq!(m.action(), ExecAction::Finish { success: false });
    assert_eq!(m.phase, RunPhase::Finished { success: false });
    assert!(!m.terminal_given);
}

#[test]
fn later_spawn_failure_also_fails_whole_pipeline() {
    let mut m = PipelineRun::new(vec![vec![s("printf"), s("a")], vec![s("nope")]], false);
    m.step(ExecEvent::SpawnOk);
    m.step(ExecEvent::SpawnFailed);
    assert_eq!(m.action(), ExecAction::Reap);
    m.step(ExecEvent::Reaped);
    assert_eq!(m.action(), ExecAction::Finish { success: false });
}

#[test]
fn wait_failure_reaps_then_restores_terminal() {
    let mut m = PipelineRun::new(vec![vec![s("cat")]], false);
    m.step(ExecEvent::SpawnOk);
    m.step(ExecEvent::TerminalHandled);
    assert!(m.terminal_given);
    m.step(ExecEvent::WaitFailed);
    assert_eq!(m.action(), ExecAction::Reap);
    m.step(ExecEvent::Reaped);
    assert_eq!(m.action(), ExecAction::RestoreTerminal);
    m.step(ExecEvent::TerminalRestored);
    assert_eq!(m.action(), ExecAction::Finish { success: false });
    assert!(!m.terminal_given);
}

#[test]
fn same_run_twice_same_outcome() {
    let trace = [
        ExecEvent::SpawnOk,
        ExecEvent::SpawnOk,
        ExecEvent::TerminalHandled,
        ExecEvent::WaitDone { success: true },
        ExecEvent::WaitDone { success: true },
        ExecEvent::TerminalRestored,
    ];
    let mut first = PipelineRun::new(vec![vec![s("printf"), s("a")], vec![s("wc"), s("-c")]], false);
    let mut second = PipelineRun::new(vec![vec![s("printf"), s("a")], vec![s("wc"), s("-c")]], false);
    for ev in trace {
        assert_eq!(first.action(), second.action());
        first.step(ev);
        second.step(ev);
    }
    assert_eq!(first.phase, second.phase);
    assert_eq!(first.phase, RunPhase::Finished { success: true });
}

#[test]
fn plan_piped_splits_stages() {
    let m = plan_piped(vec![s("ls|wc")]);
    assert!(!m.capture_final);
    assert_eq!(m.stages, vec![vec![s("ls")], vec![s("wc")]]);
    assert_eq!(m.phase, RunPhase::Spawning);
}

#[test]
fn plan_redirect_truncates_final_stage() {
    let (m, target) = plan_piped_redirect(vec![s("echo"), s("hi"), s(">"), s("/tmp/out.txt")]);
    assert!(m.capture_final);
    assert_eq!(m.stages, vec![vec![s("echo"), s("hi")]]);
    assert_eq!(target, Some(s("/tmp/out.txt")));
    assert_eq!(
        m.action(),
        ExecAction::Spawn { stage: 0, first: true, last: true, capture: true, lead_group: true }
    );
}

#[test]
fn redirect_capture_rides_on_the_final_wait() {
    let (mut m, _target) = plan_piped_redirect(vec![s("ls|wc"), s(">"), s("out")]);
    m.step(ExecEvent::SpawnOk);
    m.step(ExecEvent::SpawnOk);
    m.step(ExecEvent::TerminalHandled);
    assert_eq!(m.action(), ExecAction::Wait { stage: 0, capture: false });
    m.step(ExecEvent::WaitDone { success: true });
    assert_eq!(m.action(), ExecAction::Wait { stage: 1, capture: true });
}

#[test]
fn plan_redirect_without_operator_has_no_target() {
    let (m, target) = plan_piped_redirect(vec![s("echo"), s("hi")]);
    assert!(m.capture_final);
    assert_eq!(m.stages, vec![vec![s("echo"), s("hi")]]);
    assert_eq!(target, None);
}

#[test]
fn plan_redirect_only_touches_last_stage() {
    let (m, target) = plan_piped_redirect(vec![s("cat"), s("x|sort"), s(">"), s("out")]);
    assert_eq!(m.stages, vec![vec![s("cat"), s("x")], vec![s("sort")]]);
    assert_eq!(target, Some(s("out")));
}
