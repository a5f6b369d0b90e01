//! Foreground-terminal ownership at startup: the shell checks whether its
//! process group owns the terminal, signals itself to request ownership
//! while it does not, and gives up into a degraded, job-control-free mode
//! once a bounded retry budget is spent — it never spins unboundedly.

use vstd::prelude::*;

verus! {

/// `nix::errno::Errno`, the error the terminal and process-group calls
/// return; opaque here, mapped away by the callers.
#[verifier::external_type_specification]
#[verifier::external_body]
pub struct ExErrno(nix::errno::Errno);

/// Where terminal acquisition stands.
#[derive(Clone, Copy, Debug, PartialEq, Eq, Structural)]
pub enum TermState {
    /// Not yet checked whether the shell's group owns the terminal;
    /// `budget` rechecks are allowed before giving up.
    Background { budget: u32 },
    /// The shell's group was not the foreground group; it has asked for
    /// ownership and may recheck `retries_left` more times.
    Acquiring { retries_left: u32 },
    /// The shell's group owns the terminal.
    Foreground,
    /// Ownership could not be obtained or checked: the shell runs on
    /// without job control.
    Degraded,
}

/// What one foreground check found.
#[derive(Clone, Copy, Debug, PartialEq, Eq, Structural)]
pub enum TermEvent {
    /// The shell's process group is the terminal's foreground group.
    InForeground,
    /// Some other process group owns the terminal.
    NotInForeground,
    /// The terminal could not be asked (no controlling terminal, say).
    CheckFailed,
}

/// Acquisition is over, for good or ill.
pub open spec fn term_final(s: TermState) -> bool {
    s is Foreground || s is Degraded
}

/// How many more checks acquisition can consume before it must be over.
pub open spec fn term_measure(s: TermState) -> nat {
    match s {
        TermState::Background { budget } => (budget + 1) as nat,
        TermState::Acquiring { retries_left } => (retries_left + 1) as nat,
        TermState::Foreground => 0,
        TermState::Degraded => 0,
    }
}

/// One acquisition step: a positive check lands in the foreground; a failed
/// check degrades at once; a negative check spends one retry, degrading
/// when none is left. Final states absorb.
pub open spec fn term_step_spec(s: TermState, ev: TermEvent) -> TermState {
    match s {
        TermState::Background { budget } => match ev {
            TermEvent::InForeground => TermState::Foreground,
            TermEvent::NotInForeground => if budget == 0 {
                TermState::Degraded
            } else {
                TermState::Acquiring { retries_left: (budget - 1) as u32 }
            },
            TermEvent::CheckFailed => TermState::Degraded,
        },
        TermState::Acquiring { retries_left } => match ev {
            TermEvent::InForeground => TermState::Foreground,
            TermEvent::NotInForeground => if retries_left == 0 {
                TermState::Degraded
            } else {
                TermState::Acquiring { retries_left: (retries_left - 1) as u32 }
            },
            TermEvent::CheckFailed => TermState::Degraded,
        },
        TermState::Foreground => TermState::Foreground,
        TermState::Degraded => TermState::Degraded,
    }
}

/// One acquisition step, executed.
pub fn term_step(s: TermState, ev: TermEvent) -> (r: TermState)
    ensures
        r == term_step_spec(s, ev),
{
    match s {
        TermState::Background { budget } => match ev {
            TermEvent::InForeground => TermState::Foreground,
            TermEvent::NotInForeground => if budget == 0 {
                TermState::Degraded
            } else {
                TermState::Acquiring { retries_left: budget - 1 }
            },
            TermEvent::CheckFailed => TermState::Degraded,
        },
        TermState::Acquiring { retries_left } => match ev {
            TermEvent::InForeground => TermState::Foreground,
            TermEvent::NotInForeground => if retries_left == 0 {
                TermState::Degraded
            } else {
                TermState::Acquiring { retries_left: retries_left - 1 }
            },
            TermEvent::CheckFailed => TermState::Degraded,
        },
        TermState::Foreground => TermState::Foreground,
        TermState::Degraded => TermState::Degraded,
    }
}

/// The acquisition state after a sequence of check outcomes.
pub open spec fn run_term(s: TermState, evs: Seq<TermEvent>) -> TermState
    decreases evs.len(),
{
    if evs.len() == 0 {
        s
    } else {
        run_term(term_step_spec(s, evs.first()), evs.drop_first())
    }
}

/// Every step out of a non-final state spends part of the measure: the wait
/// is bounded.
pub proof fn lemma_term_step_spends(s: TermState, ev: TermEvent)
    requires
        !term_final(s),
    ensures
        term_measure(term_step_spec(s, ev)) < term_measure(s),
{
}

/// Acquisition never outlives its budget: whatever the checks find, after
/// at most `term_measure(s)` of them the controller stands in the
/// foreground or has degraded — it cannot spin unboundedly.
pub proof fn lemma_acquisition_bounded(s: TermState, evs: Seq<TermEvent>)
    requires
        evs.len() >= term_measure(s),
    ensures
        term_final(run_term(s, evs)),
    decreases evs.len(),
{
    if evs.len() == 0 {
    } else if term_final(s) {
        lemma_term_final_absorbs(s, evs);
    } else {
        lemma_term_step_spends(s, evs.first());
        lemma_acquisition_bounded(term_step_spec(s, evs.first()), evs.drop_first());
    }
}

/// A final state stays final under any further checks.
pub proof fn lemma_term_final_absorbs(s: TermState, evs: Seq<TermEvent>)
    requires
        term_final(s),
    ensures
        run_term(s, evs) == s,
    decreases evs.len(),
{
    if evs.len() > 0 {
        assert(term_step_spec(s, evs.first()) == s);
        lemma_term_final_absorbs(s, evs.drop_first());
    }
}

/// Relies on nix::unistd::getpgrp: returns the calling process's own
/// process group id; the call always succeeds.
#[verifier::external_body]
fn own_process_group() -> i32 {
    nix::unistd::getpgrp().as_raw()
}

/// Relies on nix::unistd::getpid: returns the calling process's own
/// process id; the call always succeeds.
#[verifier::external_body]
fn own_pid() -> i32 {
    nix::unistd::getpid().as_raw()
}

/// Relies on nix::unistd::tcgetpgrp, asked on the shell's standard input:
/// returns the terminal's foreground process group id, or the error when
/// there is no controlling terminal to ask.
#[verifier::external_body]
fn terminal_foreground_group() -> Result<i32, nix::errno::Errno> {
    nix::unistd::tcgetpgrp(std::io::stdin()).map(|p| p.as_raw())
}

/// Relies on nix::sys::signal::kill: sends the terminal-background-read
/// signal to the process with id `pid`, the conventional request to be
/// brought into the foreground.
#[verifier::external_body]
fn send_background_read_signal(pid: i32) -> Result<(), nix::errno::Errno> {
    nix::sys::signal::kill(nix::unistd::Pid::from_raw(pid), nix::sys::signal::Signal::SIGTTIN)
}

/// Relies on nix::unistd::setpgid: makes `pgid` the process group of the
/// process `pid`, or returns the error.
#[verifier::external_body]
fn set_process_group(pid: i32, pgid: i32) -> Result<(), nix::errno::Errno> {
    nix::unistd::setpgid(nix::unistd::Pid::from_raw(pid), nix::unistd::Pid::from_raw(pgid))
}

/// Relies on nix::unistd::tcsetpgrp on the shell's standard input: makes
/// `pgid` the terminal's foreground process group, or returns the error.
#[verifier::external_body]
fn set_terminal_foreground_group(pgid: i32) -> Result<(), nix::errno::Errno> {
    nix::unistd::tcsetpgrp(std::io::stdin(), nix::unistd::Pid::from_raw(pgid))
}

/// Running one more check outcome is one more step.
pub proof fn lemma_run_term_snoc(s: TermState, evs: Seq<TermEvent>, ev: TermEvent)
    ensures
        run_term(s, evs.push(ev)) == term_step_spec(run_term(s, evs), ev),
    decreases evs.len(),
{
    if evs.len() == 0 {
        reveal_with_fuel(run_term, 2);
        assert(evs.push(ev).first() == ev);
        assert(evs.push(ev).drop_first() =~= Seq::<TermEvent>::empty());
    } else {
        assert(evs.push(ev).first() == evs.first());
        assert(evs.push(ev).drop_first() =~= evs.drop_first().push(ev));
        lemma_run_term_snoc(term_step_spec(s, evs.first()), evs.drop_first(), ev);
    }
}

/// What one foreground check means: the shell is in the foreground exactly
/// when the group the terminal names is the shell's own.
pub fn classify_check(fg: i32, own: i32) -> (ev: TermEvent)
    ensures
        ev == if fg == own {
            TermEvent::InForeground
        } else {
            TermEvent::NotInForeground
        },
{
    if fg == own {
        TermEvent::InForeground
    } else {
        TermEvent::NotInForeground
    }
}

/// When the shell asks to be brought forward: exactly while it is still
/// acquiring — once in the foreground or degraded it asks no more.
pub fn should_request_foreground(st: TermState) -> (b: bool)
    ensures
        b == (st is Acquiring),
{
    match st {
        TermState::Acquiring { .. } => true,
        _ => false,
    }
}

/// Ask for foreground-terminal ownership until it is granted or the retry
/// budget is spent: check who owns the terminal; while it is not the
/// shell's group, signal for ownership and check again. The returned state
/// is exactly the acquisition machine run over the checks' outcomes, so it
/// lands in the foreground or degrades — never a third thing, and never an
/// unbounded spin.
pub fn acquire_foreground(budget: u32) -> (r: (TermState, Ghost<Seq<TermEvent>>))
    ensures
        term_final(r.0),
        r.0 == run_term(TermState::Background { budget }, r.1@),
{
    let mut st = TermState::Background { budget };
    let ghost mut log: Seq<TermEvent> = Seq::empty();
    loop
        invariant
            st == run_term(TermState::Background { budget }, log),
        ensures
            term_final(st),
            st == run_term(TermState::Background { budget }, log),
        decreases term_measure(st),
    {
        match st {
            TermState::Foreground => {
                return (st, Ghost(log));
            },
            TermState::Degraded => {
                return (st, Ghost(log));
            },
            _ => {},
        }
        let ev = match terminal_foreground_group() {
            Ok(fg) => {
                let own = own_process_group();
                classify_check(fg, own)
            },
            Err(_) => TermEvent::CheckFailed,
        };
        proof {
            lemma_term_step_spends(st, ev);
            lemma_run_term_snoc(TermState::Background { budget }, log, ev);
        }
        st = term_step(st, ev);
        proof {
            log = log.push(ev);
        }
        if should_request_foreground(st) {
            let own = own_process_group();
            let _ = send_background_read_signal(own);
        }
    }
}

/// What came of moving the shell into a process group of its own and
/// handing it the terminal.
#[derive(Clone, Copy, Debug, PartialEq, Eq, Structural)]
pub struct JobControlSetup {
    /// The shell now leads a process group of its own.
    pub group_set: bool,
    /// That group now owns the terminal.
    pub foreground_set: bool,
}

/// One job-control step the shell asks of the operating system.
#[derive(Clone, Copy, Debug, PartialEq, Eq, Structural)]
pub enum GroupAction {
    /// Make `pgid` the process group of the process `pid`.
    SetGroup { pid: i32, pgid: i32 },
    /// Make `pgid` the terminal's foreground process group.
    SetForeground { pgid: i32 },
}

/// What startup job control does for a shell whose process id is `pid`:
/// the shell's own process id becomes its group id, and that group — no
/// other — is handed the terminal.
pub fn job_control_plan(pid: i32) -> (acts: (GroupAction, GroupAction))
    ensures
        acts.0 == (GroupAction::SetGroup { pid, pgid: pid }),
        acts.1 == (GroupAction::SetForeground { pgid: pid }),
{
    (GroupAction::SetGroup { pid, pgid: pid }, GroupAction::SetForeground { pgid: pid })
}

/// Perform one job-control step; whether it succeeded.
fn perform_group_action(act: GroupAction) -> (ok: bool) {
    match act {
        GroupAction::SetGroup { pid, pgid } => set_process_group(pid, pgid).is_ok(),
        GroupAction::SetForeground { pgid } => set_terminal_foreground_group(pgid).is_ok(),
    }
}

/// Make the shell the leader of its own process group and hand that group
/// the terminal, following `job_control_plan` for the shell's own process
/// id. Either step may fail; neither failure is fatal — the caller warns
/// and the shell runs on without job control.
pub fn establish_process_group() -> (r: JobControlSetup)
{
    let pid = own_pid();
    let (set_group, set_foreground) = job_control_plan(pid);
    let group_set = perform_group_action(set_group);
    let foreground_set = perform_group_action(set_foreground);
    JobControlSetup { group_set, foreground_set }
}

} // verus!
