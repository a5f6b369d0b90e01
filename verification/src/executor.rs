//! Driving a pipeline: which stage to spawn with which wiring and group
//! placement, when the terminal is handed to the pipeline's process group
//! and when it is given back, which stage to wait on, and what the whole
//! pipeline reports.
//!
//! Spawning, waiting and the terminal calls are operating-system work, so
//! the executor is a step machine: it tells its driver one action at a
//! time, the driver performs it and hands back the outcome, and every
//! decision in between is verified here. The stages run in a process group
//! of their own, led by the first stage; the terminal is handed to that
//! group for the run's duration and restored to the shell before the run
//! reports. Overall success is decided by the final stage's exit status
//! alone; every spawned stage is waited on, and a stage that cannot be
//! spawned aborts the whole pipeline after the stages already spawned are
//! released.

use vstd::prelude::*;

verus! {

/// Where the executor stands within one pipeline invocation.
#[derive(Clone, Copy, Debug, PartialEq, Eq, Structural)]
pub enum RunPhase {
    /// Stages are still being spawned, in order.
    Spawning,
    /// Every stage is running; the terminal is being handed to the
    /// pipeline's process group.
    HandingOver,
    /// The pipeline's group owns the terminal; stages are being waited on,
    /// in order.
    Waiting,
    /// A spawn or wait failed: the stages already spawned are being
    /// released.
    Reaping,
    /// The terminal is being given back to the shell; the run will report
    /// `success`.
    Restoring { success: bool },
    /// The pipeline is over and reported `success`.
    Finished { success: bool },
}

/// What the driver reports back about the action it was told to perform.
#[derive(Clone, Copy, Debug, PartialEq, Eq, Structural)]
pub enum ExecEvent {
    /// The stage was spawned.
    SpawnOk,
    /// The stage could not be spawned (executable missing or unexecutable,
    /// or its streams could not be wired).
    SpawnFailed,
    /// The terminal-handover attempt is done (a failure here is not fatal:
    /// the run goes on without the handover).
    TerminalHandled,
    /// The waited-on stage exited; `success` is whether its status was the
    /// success code.
    WaitDone { success: bool },
    /// The wait call itself failed.
    WaitFailed,
    /// Every remaining spawned stage has been released.
    Reaped,
    /// The terminal-restore attempt is done.
    TerminalRestored,
}

/// The one action the driver must perform next.
#[derive(Clone, Copy, Debug, PartialEq, Eq, Structural)]
pub enum ExecAction {
    /// Spawn stage `stage`. A first stage takes no pipe input; a stage that
    /// is not last gets a fresh output pipe; a last stage either inherits
    /// the shell's output streams or, when `capture` is set, has both
    /// output streams captured in memory. A stage with `lead_group` opens a
    /// fresh process group of its own; every other stage joins the leading
    /// stage's group.
    Spawn { stage: usize, first: bool, last: bool, capture: bool, lead_group: bool },
    /// Hand the terminal to the pipeline's process group, the one stage
    /// `leader` opened.
    GiveTerminal { leader: usize },
    /// Wait for stage `stage` to finish; when `capture` is set, collect its
    /// output streams along with its status.
    Wait { stage: usize, capture: bool },
    /// Release every spawned stage: the pipeline has been aborted.
    Reap,
    /// Give the terminal back to the shell's own process group.
    RestoreTerminal,
    /// Nothing is left to do; the pipeline reports `success`.
    Finish { success: bool },
}

/// One pipeline invocation: the stages to run, whether the final stage's
/// output is captured rather than inherited, and how far execution has
/// come.
pub struct PipelineRun {
    /// The commands of the pipeline, in order.
    pub stages: Vec<Vec<String>>,
    /// Whether the final stage's output streams are captured in memory.
    pub capture_final: bool,
    /// How many stages have been spawned.
    pub spawned: usize,
    /// How many stages have been waited on.
    pub waited: usize,
    /// Whether the terminal currently stands with the pipeline's group.
    pub terminal_given: bool,
    /// Where the run stands.
    pub phase: RunPhase,
}

impl PipelineRun {
    /// The run's bookkeeping is consistent: counters stay within the stage
    /// count, spawning precedes the handover, the handover precedes
    /// waiting, each phase pins the counters it leaves fixed, and a run
    /// never finishes still holding the terminal.
    pub open spec fn wf(self) -> bool {
        &&& self.stages@.len() >= 1
        &&& self.spawned <= self.stages@.len()
        &&& self.waited <= self.spawned
        &&& (self.phase is Spawning ==> self.spawned < self.stages@.len() && self.waited == 0
            && !self.terminal_given)
        &&& (self.phase is HandingOver ==> self.spawned == self.stages@.len() && self.waited == 0
            && !self.terminal_given)
        &&& (self.phase is Waiting ==> self.spawned == self.stages@.len() && self.waited
            < self.stages@.len() && self.terminal_given)
        &&& (self.phase is Restoring ==> self.terminal_given)
        &&& (self.phase is Finished ==> !self.terminal_given)
    }

    /// A run that has not begun: nothing spawned, nothing waited on, the
    /// terminal still the shell's.
    pub open spec fn initial(stages: Vec<Vec<String>>, capture_final: bool) -> PipelineRun {
        PipelineRun {
            stages,
            capture_final,
            spawned: 0,
            waited: 0,
            terminal_given: false,
            phase: RunPhase::Spawning,
        }
    }

    /// The action the driver must perform in this state.
    pub open spec fn current_action(self) -> ExecAction {
        match self.phase {
            RunPhase::Spawning => ExecAction::Spawn {
                stage: self.spawned,
                first: self.spawned == 0,
                last: self.spawned == self.stages@.len() - 1,
                capture: self.capture_final && self.spawned == self.stages@.len() - 1,
                lead_group: self.spawned == 0,
            },
            RunPhase::HandingOver => ExecAction::GiveTerminal { leader: 0 },
            RunPhase::Waiting => ExecAction::Wait {
                stage: self.waited,
                capture: self.capture_final && self.waited == self.stages@.len() - 1,
            },
            RunPhase::Reaping => ExecAction::Reap,
            RunPhase::Restoring { .. } => ExecAction::RestoreTerminal,
            RunPhase::Finished { success } => ExecAction::Finish { success },
        }
    }

    /// The events that can answer this state's action.
    pub open spec fn accepts(self, ev: ExecEvent) -> bool {
        match self.phase {
            RunPhase::Spawning => ev is SpawnOk || ev is SpawnFailed,
            RunPhase::HandingOver => ev is TerminalHandled,
            RunPhase::Waiting => ev is WaitDone || ev is WaitFailed,
            RunPhase::Reaping => ev is Reaped,
            RunPhase::Restoring { .. } => ev is TerminalRestored,
            RunPhase::Finished { .. } => false,
        }
    }

    /// The state after the driver reports `ev`: a successful spawn moves to
    /// the next stage and then to the terminal handover; the handover leads
    /// into waiting; waits proceed in order, only the final stage's status
    /// reaching the report; a failed spawn or wait aborts into reaping; and
    /// every road to the report — reaped or not — gives the terminal back
    /// first if it was handed over.
    pub open spec fn step_spec(self, ev: ExecEvent) -> PipelineRun {
        match self.phase {
            RunPhase::Spawning => match ev {
                ExecEvent::SpawnOk => if self.spawned + 1 == self.stages@.len() {
                    PipelineRun {
                        spawned: (self.spawned + 1) as usize,
                        phase: RunPhase::HandingOver,
                        ..self
                    }
                } else {
                    PipelineRun { spawned: (self.spawned + 1) as usize, ..self }
                },
                _ => PipelineRun { phase: RunPhase::Reaping, ..self },
            },
            RunPhase::HandingOver => PipelineRun {
                terminal_given: true,
                phase: RunPhase::Waiting,
                ..self
            },
            RunPhase::Waiting => match ev {
                ExecEvent::WaitDone { success } => if self.waited + 1 == self.stages@.len() {
                    PipelineRun {
                        waited: (self.waited + 1) as usize,
                        phase: RunPhase::Restoring { success },
                        ..self
                    }
                } else {
                    PipelineRun { waited: (self.waited + 1) as usize, ..self }
                },
                _ => PipelineRun { phase: RunPhase::Reaping, ..self },
            },
            RunPhase::Reaping => if self.terminal_given {
                PipelineRun { phase: RunPhase::Restoring { success: false }, ..self }
            } else {
                PipelineRun { phase: RunPhase::Finished { success: false }, ..self }
            },
            RunPhase::Restoring { success } => PipelineRun {
                terminal_given: false,
                phase: RunPhase::Finished { success },
                ..self
            },
            RunPhase::Finished { .. } => self,
        }
    }

    /// Begin a run of `stages`, capturing the final stage's output when
    /// `capture_final` is set.
    pub fn new(stages: Vec<Vec<String>>, capture_final: bool) -> (m: PipelineRun)
        requires
            stages@.len() >= 1,
        ensures
            m == PipelineRun::initial(stages, capture_final),
            m.wf(),
    {
        PipelineRun {
            stages,
            capture_final,
            spawned: 0,
            waited: 0,
            terminal_given: false,
            phase: RunPhase::Spawning,
        }
    }

    /// The action the driver must perform next.
    pub fn action(&self) -> (a: ExecAction)
        requires
            self.wf(),
        ensures
            a == self.current_action(),
    {
        match self.phase {
            RunPhase::Spawning => {
                let n = self.stages.len();
                ExecAction::Spawn {
                    stage: self.spawned,
                    first: self.spawned == 0,
                    last: self.spawned == n - 1,
                    capture: self.capture_final && self.spawned == n - 1,
                    lead_group: self.spawned == 0,
                }
            },
            RunPhase::HandingOver => ExecAction::GiveTerminal { leader: 0 },
            RunPhase::Waiting => {
                let n = self.stages.len();
                ExecAction::Wait {
                    stage: self.waited,
                    capture: self.capture_final && self.waited == n - 1,
                }
            },
            RunPhase::Reaping => ExecAction::Reap,
            RunPhase::Restoring { .. } => ExecAction::RestoreTerminal,
            RunPhase::Finished { success } => ExecAction::Finish { success },
        }
    }

    /// The command of stage `i`, for the driver to spawn.
    pub fn stage_argv(&self, i: usize) -> (cmd: &Vec<String>)
        requires
            i < self.stages@.len(),
        ensures
            *cmd == self.stages@[i as int],
    {
        &self.stages[i]
    }

    /// Whether the run is over.
    pub fn finished(&self) -> (b: bool)
        ensures
            b == self.phase is Finished,
    {
        match self.phase {
            RunPhase::Finished { .. } => true,
            _ => false,
        }
    }

    /// Take the driver's report of the last action's outcome.
    pub fn step(&mut self, ev: ExecEvent)
        requires
            old(self).wf(),
            old(self).accepts(ev),
        ensures
            *final(self) == old(self).step_spec(ev),
            final(self).wf(),
    {
        match self.phase {
            RunPhase::Spawning => match ev {
                ExecEvent::SpawnOk => {
                    let n = self.stages.len();
                    self.spawned = self.spawned + 1;
                    if self.spawned == n {
                        self.phase = RunPhase::HandingOver;
                    }
                },
                _ => {
                    self.phase = RunPhase::Reaping;
                },
            },
            RunPhase::HandingOver => {
                self.terminal_given = true;
                self.phase = RunPhase::Waiting;
            },
            RunPhase::Waiting => match ev {
                ExecEvent::WaitDone { success } => {
                    let n = self.stages.len();
                    self.waited = self.waited + 1;
                    if self.waited == n {
                        self.phase = RunPhase::Restoring { success };
                    }
                },
                _ => {
                    self.phase = RunPhase::Reaping;
                },
            },
            RunPhase::Reaping => {
                if self.terminal_given {
                    self.phase = RunPhase::Restoring { success: false };
                } else {
                    self.phase = RunPhase::Finished { success: false };
                }
            },
            RunPhase::Restoring { success } => {
                self.terminal_given = false;
                self.phase = RunPhase::Finished { success };
            },
            RunPhase::Finished { .. } => {},
        }
    }
}

/// The state after feeding the driver's reports to the run, in order.
pub open spec fn run_events(m: PipelineRun, evs: Seq<ExecEvent>) -> PipelineRun
    decreases evs.len(),
{
    if evs.len() == 0 {
        m
    } else {
        run_events(m.step_spec(evs.first()), evs.drop_first())
    }
}

/// A single report is a single step.
pub proof fn lemma_run_one(m: PipelineRun, ev: ExecEvent)
    ensures
        run_events(m, seq![ev]) == m.step_spec(ev),
{
    reveal_with_fuel(run_events, 2);
    assert(seq![ev].first() == ev);
    assert(seq![ev].drop_first() =~= Seq::<ExecEvent>::empty());
}

/// Feeding two report sequences one after the other is feeding their
/// concatenation.
pub proof fn lemma_run_append(m: PipelineRun, a: Seq<ExecEvent>, b: Seq<ExecEvent>)
    ensures
        run_events(m, a + b) == run_events(run_events(m, a), b),
    decreases a.len(),
{
    if a.len() == 0 {
        assert(a + b =~= b);
    } else {
        assert((a + b).first() == a.first());
        assert((a + b).drop_first() =~= a.drop_first() + b);
        lemma_run_append(m.step_spec(a.first()), a.drop_first(), b);
    }
}

/// One step keeps the bookkeeping consistent, whatever the report.
pub proof fn lemma_wf_step(m: PipelineRun, ev: ExecEvent)
    requires
        m.wf(),
    ensures
        m.step_spec(ev).wf(),
{
    assert(m.stages.len() == m.stages@.len());
}

/// Any report sequence keeps the bookkeeping consistent; in particular a
/// finished run has always given the terminal back to the shell.
pub proof fn lemma_terminal_always_restored(m: PipelineRun, evs: Seq<ExecEvent>)
    requires
        m.wf(),
    ensures
        run_events(m, evs).wf(),
        run_events(m, evs).phase is Finished ==> !run_events(m, evs).terminal_given,
    decreases evs.len(),
{
    if evs.len() > 0 {
        lemma_wf_step(m, evs.first());
        lemma_terminal_always_restored(m.step_spec(evs.first()), evs.drop_first());
    }
}

/// Successful spawn reports move the run forward stage by stage: after
/// `evs.len()` of them it has spawned exactly that many more stages, and it
/// turns to the terminal handover just when all have been spawned.
pub proof fn lemma_spawn_prefix(m: PipelineRun, evs: Seq<ExecEvent>)
    requires
        m.wf(),
        m.phase is Spawning,
        evs.len() <= m.stages@.len() - m.spawned,
        forall|i: int| 0 <= i < evs.len() ==> evs[i] == ExecEvent::SpawnOk,
    ensures
        run_events(m, evs) == if m.spawned + evs.len() == m.stages@.len() {
            PipelineRun {
                spawned: (m.spawned + evs.len()) as usize,
                phase: RunPhase::HandingOver,
                ..m
            }
        } else {
            PipelineRun { spawned: (m.spawned + evs.len()) as usize, ..m }
        },
        run_events(m, evs).wf(),
    decreases evs.len(),
{
    assert(m.stages.len() == m.stages@.len());
    if evs.len() == 0 {
        assert(run_events(m, evs) == m);
    } else {
        assert(evs[0] == ExecEvent::SpawnOk);
        let m1 = m.step_spec(evs.first());
        assert forall|i: int| 0 <= i < evs.drop_first().len() implies evs.drop_first()[i]
            == ExecEvent::SpawnOk by {
            assert(evs.drop_first()[i] == evs[i + 1]);
        }
        if m.spawned + 1 == m.stages@.len() {
            assert(evs.len() == 1);
            assert(run_events(m, evs) == run_events(m1, evs.drop_first()));
        } else {
            lemma_spawn_prefix(m1, evs.drop_first());
        }
    }
}

/// Exit reports move a waiting run forward stage by stage, in order; when
/// the last stage's report arrives, the run turns to restoring the
/// terminal, carrying exactly that stage's status, whatever the earlier
/// stages reported.
pub proof fn lemma_wait_prefix(m: PipelineRun, evs: Seq<ExecEvent>)
    requires
        m.wf(),
        m.phase is Waiting,
        evs.len() <= m.stages@.len() - m.waited,
        forall|i: int| 0 <= i < evs.len() ==> evs[i] is WaitDone,
    ensures
        run_events(m, evs) == if m.waited + evs.len() == m.stages@.len() {
            PipelineRun {
                waited: (m.waited + evs.len()) as usize,
                phase: RunPhase::Restoring { success: evs.last()->success },
                ..m
            }
        } else {
            PipelineRun { waited: (m.waited + evs.len()) as usize, ..m }
        },
    decreases evs.len(),
{
    assert(m.stages.len() == m.stages@.len());
    if evs.len() > 0 {
        let m1 = m.step_spec(evs.first());
        assert forall|i: int| 0 <= i < evs.drop_first().len() implies evs.drop_first()[i]
            is WaitDone by {
            assert(evs.drop_first()[i] == evs[i + 1]);
        }
        if m.waited + 1 == m.stages@.len() {
            assert(evs.len() == 1);
            assert(run_events(m, evs) == run_events(m1, evs.drop_first()));
        } else {
            lemma_wait_prefix(m1, evs.drop_first());
            if evs.drop_first().len() > 0 {
                assert(evs.drop_first().last() == evs.last());
            }
        }
    }
}

/// A full, spawnable run: every stage spawns, the terminal goes to the
/// pipeline's group, every stage is waited on, the terminal comes back, and
/// the pipeline's report is the final stage's status alone — an early
/// failing stage neither aborts the run nor reaches the report.
pub proof fn lemma_success_is_final_status(m0: PipelineRun, evs: Seq<ExecEvent>)
    requires
        m0.wf(),
        m0.phase is Spawning,
        m0.spawned == 0,
        m0.waited == 0,
        evs.len() == 2 * m0.stages@.len() + 2,
        forall|i: int| 0 <= i < m0.stages@.len() ==> evs[i] == ExecEvent::SpawnOk,
        evs[m0.stages@.len() as int] == ExecEvent::TerminalHandled,
        forall|i: int|
            m0.stages@.len() < i <= 2 * m0.stages@.len() ==> #[trigger] evs[i] is WaitDone,
        evs[2 * (m0.stages@.len() as int) + 1] == ExecEvent::TerminalRestored,
    ensures
        run_events(m0, evs).phase == (RunPhase::Finished {
            success: evs[2 * (m0.stages@.len() as int)]->success,
        }),
        run_events(m0, evs).spawned == m0.stages@.len(),
        run_events(m0, evs).waited == m0.stages@.len(),
        !run_events(m0, evs).terminal_given,
{
    let n = m0.stages@.len() as int;
    let spawns = evs.take(n);
    let waits = evs.subrange(n + 1, 2 * n + 1);
    assert forall|i: int| 0 <= i < spawns.len() implies spawns[i] == ExecEvent::SpawnOk by {
        assert(spawns[i] == evs[i]);
    }
    assert forall|i: int| 0 <= i < waits.len() implies waits[i] is WaitDone by {
        assert(waits[i] == evs[n + 1 + i]);
    }
    lemma_spawn_prefix(m0, spawns);
    let m1 = run_events(m0, spawns);
    lemma_run_one(m1, evs[n]);
    let m2 = m1.step_spec(ExecEvent::TerminalHandled);
    lemma_wait_prefix(m2, waits);
    let m3 = run_events(m2, waits);
    lemma_run_one(m3, evs[2 * n + 1]);
    let rest2 = waits + seq![evs[2 * n + 1]];
    let rest1 = seq![evs[n]] + rest2;
    assert(evs =~= spawns + rest1);
    lemma_run_append(m0, spawns, rest1);
    lemma_run_append(m1, seq![evs[n]], rest2);
    lemma_run_append(m2, waits, seq![evs[2 * n + 1]]);
    assert(run_events(m0, evs) == m3.step_spec(evs[2 * n + 1]));
    assert(waits.last() == evs[2 * n]);
}

/// In a full, spawnable run, the driver is told to spawn stage `i` at step
/// `i` — first, group-leading exactly at stage 0, last and possibly
/// capturing exactly at the final stage — and to wait on stage `i` at step
/// `n + 1 + i`: every stage is spawned, and every stage is waited on, each
/// in pipeline order.
pub proof fn lemma_every_stage_spawned_and_waited(m0: PipelineRun, evs: Seq<ExecEvent>, i: int)
    requires
        m0.wf(),
        m0.phase is Spawning,
        m0.spawned == 0,
        m0.waited == 0,
        evs.len() == 2 * m0.stages@.len() + 2,
        forall|j: int| 0 <= j < m0.stages@.len() ==> evs[j] == ExecEvent::SpawnOk,
        evs[m0.stages@.len() as int] == ExecEvent::TerminalHandled,
        forall|j: int|
            m0.stages@.len() < j <= 2 * m0.stages@.len() ==> #[trigger] evs[j] is WaitDone,
        0 <= i < m0.stages@.len(),
    ensures
        run_events(m0, evs.take(i)).current_action() == (ExecAction::Spawn {
            stage: i as usize,
            first: i == 0,
            last: i == m0.stages@.len() - 1,
            capture: m0.capture_final && i == m0.stages@.len() - 1,
            lead_group: i == 0,
        }),
        run_events(m0, evs.take(m0.stages@.len() + 1 + i)).current_action() == (ExecAction::Wait {
            stage: i as usize,
            capture: m0.capture_final && i == m0.stages@.len() - 1,
        }),
{
    let n = m0.stages@.len() as int;
    let pre = evs.take(i);
    assert forall|j: int| 0 <= j < pre.len() implies pre[j] == ExecEvent::SpawnOk by {
        assert(pre[j] == evs[j]);
    }
    lemma_spawn_prefix(m0, pre);
    let spawns = evs.take(n);
    assert forall|j: int| 0 <= j < spawns.len() implies spawns[j] == ExecEvent::SpawnOk by {
        assert(spawns[j] == evs[j]);
    }
    lemma_spawn_prefix(m0, spawns);
    let m1 = run_events(m0, spawns);
    lemma_run_one(m1, ExecEvent::TerminalHandled);
    let m2 = m1.step_spec(ExecEvent::TerminalHandled);
    let mids = evs.subrange(n + 1, n + 1 + i);
    let rest = seq![evs[n]] + mids;
    assert(evs.take(n + 1 + i) =~= spawns + rest);
    lemma_run_append(m0, spawns, rest);
    lemma_run_append(m1, seq![evs[n]], mids);
    assert forall|j: int| 0 <= j < mids.len() implies mids[j] is WaitDone by {
        assert(mids[j] == evs[n + 1 + j]);
    }
    lemma_wait_prefix(m2, mids);
    assert(run_events(m0, evs.take(n + 1 + i)) == run_events(m2, mids));
}

/// A stage that cannot be spawned aborts the whole pipeline: after `k`
/// stages spawn and the next spawn fails, the driver is told to release the
/// stages already spawned, and the run finishes as a failure — the terminal
/// was never handed over, so there is nothing to restore.
pub proof fn lemma_spawn_failure_aborts(m0: PipelineRun, evs: Seq<ExecEvent>, k: int)
    requires
        m0.wf(),
        m0.phase is Spawning,
        m0.spawned == 0,
        m0.waited == 0,
        0 <= k < m0.stages@.len(),
        evs.len() == k + 2,
        forall|j: int| 0 <= j < k ==> evs[j] == ExecEvent::SpawnOk,
        evs[k] == ExecEvent::SpawnFailed,
        evs[k + 1] == ExecEvent::Reaped,
    ensures
        run_events(m0, evs.take(k + 1)).current_action() == ExecAction::Reap,
        run_events(m0, evs).phase == (RunPhase::Finished { success: false }),
        run_events(m0, evs).waited == 0,
        !run_events(m0, evs).terminal_given,
{
    let pre = evs.take(k);
    assert forall|j: int| 0 <= j < pre.len() implies pre[j] == ExecEvent::SpawnOk by {
        assert(pre[j] == evs[j]);
    }
    lemma_spawn_prefix(m0, pre);
    let mk = run_events(m0, pre);
    assert(evs.take(k + 1) =~= pre + seq![evs[k]]);
    lemma_run_append(m0, pre, seq![evs[k]]);
    lemma_run_one(mk, evs[k]);
    let ma = run_events(m0, evs.take(k + 1));
    assert(ma == mk.step_spec(ExecEvent::SpawnFailed));
    assert(evs =~= evs.take(k + 1) + seq![evs[k + 1]]);
    lemma_run_append(m0, evs.take(k + 1), seq![evs[k + 1]]);
    lemma_run_one(ma, evs[k + 1]);
}

/// A wait that fails aborts too, but here the terminal has already been
/// handed over: the driver is told to release the remaining stages and then
/// to give the terminal back, and only then does the run report failure.
pub proof fn lemma_wait_failure_restores_terminal(m: PipelineRun, evs: Seq<ExecEvent>)
    requires
        m.wf(),
        m.phase is Waiting,
        evs.len() == 3,
        evs[0] == ExecEvent::WaitFailed,
        evs[1] == ExecEvent::Reaped,
        evs[2] == ExecEvent::TerminalRestored,
    ensures
        run_events(m, evs.take(1)).current_action() == ExecAction::Reap,
        run_events(m, evs.take(2)).current_action() == ExecAction::RestoreTerminal,
        run_events(m, evs).phase == (RunPhase::Finished { success: false }),
        !run_events(m, evs).terminal_given,
{
    lemma_run_one(m, evs[0]);
    assert(evs.take(1) =~= seq![evs[0]]);
    let m1 = m.step_spec(evs[0]);
    assert(evs.take(2) =~= seq![evs[0]] + seq![evs[1]]);
    lemma_run_append(m, seq![evs[0]], seq![evs[1]]);
    lemma_run_one(m1, evs[1]);
    let m2 = m1.step_spec(evs[1]);
    assert(evs =~= evs.take(2) + seq![evs[2]]);
    lemma_run_append(m, evs.take(2), seq![evs[2]]);
    lemma_run_one(m2, evs[2]);
}

/// What holds of every reachable state: the bookkeeping of `wf`, and that a
/// successful finish can only be reached once every stage has been spawned
/// and waited on.
pub open spec fn run_inv(m: PipelineRun) -> bool {
    &&& m.wf()
    &&& (m.phase matches RunPhase::Restoring { success } && success ==> m.spawned
        == m.stages@.len() && m.waited == m.stages@.len())
    &&& (m.phase matches RunPhase::Finished { success } && success ==> m.spawned
        == m.stages@.len() && m.waited == m.stages@.len())
}

/// One step keeps the reachable-state invariant.
pub proof fn lemma_run_inv_step(m: PipelineRun, ev: ExecEvent)
    requires
        run_inv(m),
    ensures
        run_inv(m.step_spec(ev)),
{
    assert(m.stages.len() == m.stages@.len());
}

/// Any report sequence keeps the reachable-state invariant.
pub proof fn lemma_run_inv(m: PipelineRun, evs: Seq<ExecEvent>)
    requires
        run_inv(m),
    ensures
        run_inv(run_events(m, evs)),
    decreases evs.len(),
{
    if evs.len() > 0 {
        lemma_run_inv_step(m, evs.first());
        lemma_run_inv(m.step_spec(evs.first()), evs.drop_first());
    }
}

/// No process is left behind on success: whatever the driver reports, a run
/// that began at its start can only report success once every stage has
/// been spawned and every spawned stage has been waited on.
pub proof fn lemma_success_means_all_waited(m0: PipelineRun, evs: Seq<ExecEvent>)
    requires
        m0.wf(),
        m0.phase is Spawning,
    ensures
        run_events(m0, evs).phase matches RunPhase::Finished { success } && success
            ==> run_events(m0, evs).spawned == m0.stages@.len() && run_events(m0, evs).waited
            == m0.stages@.len(),
{
    lemma_run_inv(m0, evs);
    lemma_run_keeps_pipeline(m0, evs);
}

/// No report changes the pipeline itself: the stages and the output mode
/// ride through every step unchanged.
pub proof fn lemma_run_keeps_pipeline(m: PipelineRun, evs: Seq<ExecEvent>)
    ensures
        run_events(m, evs).stages == m.stages,
        run_events(m, evs).capture_final == m.capture_final,
    decreases evs.len(),
{
    if evs.len() > 0 {
        lemma_run_keeps_pipeline(m.step_spec(evs.first()), evs.drop_first());
    }
}

/// The control a run's decisions read: everything but the argument strings
/// themselves.
pub open spec fn same_control(a: PipelineRun, b: PipelineRun) -> bool {
    &&& a.stages@.len() == b.stages@.len()
    &&& a.capture_final == b.capture_final
    &&& a.spawned == b.spawned
    &&& a.waited == b.waited
    &&& a.terminal_given == b.terminal_given
    &&& a.phase == b.phase
}

/// Two runs of pipelines of the same shape, fed the same reports, make the
/// same decisions throughout and end in the same phase: the outcome is a
/// function of the pipeline and of the stages' own behaviour alone.
pub proof fn lemma_run_deterministic(a: PipelineRun, b: PipelineRun, evs: Seq<ExecEvent>)
    requires
        same_control(a, b),
    ensures
        same_control(run_events(a, evs), run_events(b, evs)),
        run_events(a, evs).current_action() == run_events(b, evs).current_action(),
        run_events(a, evs).phase == run_events(b, evs).phase,
    decreases evs.len(),
{
    if evs.len() == 0 {
    } else {
        assert(same_control(a.step_spec(evs.first()), b.step_spec(evs.first())));
        lemma_run_deterministic(
            a.step_spec(evs.first()),
            b.step_spec(evs.first()),
            evs.drop_first(),
        );
    }
}

} // verus!
