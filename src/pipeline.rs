//! The run of one commit as a state machine: which step comes next, which
//! failures are deferred into the report and which abort the run, and the
//! guarantee that a working copy, once asked for, is released before the run
//! ends.
use vstd::prelude::*;

verus! {

/// A step of one commit's run, in the order in which they come.
#[derive(Debug, PartialEq, Eq, Structural, Clone, Copy)]
pub enum Step {
    /// Remove any stale copy, then clone the repository into a fresh one.
    Acquire,
    /// Set the copy's head, detached, to the commit.
    Pin,
    /// Run the pre-run command and store its streams.
    PreRun,
    /// Run the build/test command and store its streams.
    Build,
    /// Gather the test artifacts of the copy.
    Collect,
    /// Write the aggregated report under the commit's name.
    Submit,
    /// Remove the copy.
    Release,
    /// Nothing left to do.
    Finished,
}

/// What came of the step just performed.
#[derive(Debug, PartialEq, Eq, Structural, Clone, Copy)]
pub enum StepEvent {
    /// The step did its work.
    Completed,
    /// The command of the step ran, or could not be started, and failed; its
    /// streams were stored. Said of another step, it counts as a fault.
    CommandFailed,
    /// The step could not do its work.
    Faulted,
}

/// How a run ended.
#[derive(Debug, PartialEq, Eq, Structural, Clone, Copy)]
pub enum RunOutcome {
    /// Every step did its work and both commands succeeded.
    Passed,
    /// The report was written, but a command failed.
    SubjectFailed,
    /// The step named failed for want of the infrastructure it needs.
    Fault(Step),
}

/// The state of one commit's run.
#[derive(Debug, PartialEq, Eq, Structural, Clone, Copy)]
pub struct CommitRun {
    /// The step to perform next.
    pub step: Step,
    /// Whether a command of the run has failed.
    pub subject_failed: bool,
    /// The first step that failed for want of infrastructure, if any.
    pub fault: Option<Step>,
    /// Whether a working copy of the commit may stand on disk.
    pub workspace_present: bool,
    /// Whether removing the working copy failed.
    pub release_failed: bool,
}

pub open spec fn is_command_step(s: Step) -> bool {
    s == Step::PreRun || s == Step::Build
}

/// Steps that need the working copy, which then stands on disk.
pub open spec fn holds_workspace(s: Step) -> bool {
    s == Step::Pin || s == Step::PreRun || s == Step::Build || s == Step::Collect || s
        == Step::Submit
}

/// The step that follows one that did its work.
pub open spec fn following(s: Step) -> Step {
    match s {
        Step::Acquire => Step::Pin,
        Step::Pin => Step::PreRun,
        Step::PreRun => Step::Build,
        Step::Build => Step::Collect,
        Step::Collect => Step::Submit,
        Step::Submit => Step::Release,
        Step::Release => Step::Finished,
        Step::Finished => Step::Finished,
    }
}

/// How many steps are left at most.
pub open spec fn steps_left(s: Step) -> nat {
    match s {
        Step::Acquire => 7,
        Step::Pin => 6,
        Step::PreRun => 5,
        Step::Build => 4,
        Step::Collect => 3,
        Step::Submit => 2,
        Step::Release => 1,
        Step::Finished => 0,
    }
}

impl CommitRun {
    /// A consistent state: before the first step no copy exists and nothing
    /// failed; while a step needs the copy, it stands and no fault has come;
    /// once finished, a copy stands exactly where its removal failed.
    pub open spec fn wf(&self) -> bool {
        &&& self.step == Step::Acquire ==> !self.workspace_present && self.fault is None
            && !self.subject_failed
        &&& holds_workspace(self.step) ==> self.workspace_present && self.fault is None
        &&& self.step == Step::Release ==> self.workspace_present
        &&& self.step == Step::Finished ==> (self.workspace_present <==> self.release_failed)
        &&& self.release_failed ==> self.step == Step::Finished
        &&& self.fault == Some(Step::Release) ==> self.release_failed
        &&& self.fault != Some(Step::Finished)
    }

    /// The state after the current step ended with `ev`. A failed command is
    /// remembered and the run goes on; any other failure skips to the
    /// release of the copy. Only the first fault is kept.
    pub open spec fn next(self, ev: StepEvent) -> CommitRun {
        let s = self.step;
        if s == Step::Finished {
            self
        } else if s == Step::Release {
            if ev == StepEvent::Completed {
                CommitRun { step: Step::Finished, workspace_present: false, ..self }
            } else {
                CommitRun {
                    step: Step::Finished,
                    fault: if self.fault is None {
                        Some(Step::Release)
                    } else {
                        self.fault
                    },
                    workspace_present: true,
                    release_failed: true,
                    ..self
                }
            }
        } else if ev == StepEvent::Completed {
            CommitRun { step: following(s), workspace_present: true, ..self }
        } else if ev == StepEvent::CommandFailed && is_command_step(s) {
            CommitRun { step: following(s), subject_failed: true, ..self }
        } else {
            CommitRun {
                step: Step::Release,
                fault: Some(s),
                workspace_present: true,
                ..self
            }
        }
    }

    /// How the run ended, or would end if it stopped now.
    pub open spec fn outcome_of(self) -> RunOutcome {
        match self.fault {
            Some(f) => RunOutcome::Fault(f),
            None => if self.subject_failed {
                RunOutcome::SubjectFailed
            } else {
                RunOutcome::Passed
            },
        }
    }

    /// A run that has not started.
    pub fn new() -> (r: CommitRun)
        ensures
            r.wf(),
            r.step == Step::Acquire,
            !r.subject_failed,
            r.fault is None,
            !r.workspace_present,
            !r.release_failed,
    {
        CommitRun {
            step: Step::Acquire,
            subject_failed: false,
            fault: None,
            workspace_present: false,
            release_failed: false,
        }
    }

    /// Moves the run on after its current step ended with `ev`.
    pub fn advance(&mut self, ev: StepEvent)
        requires
            old(self).wf(),
        ensures
            *final(self) == old(self).next(ev),
            final(self).wf(),
    {
        let s = self.step;
        match s {
            Step::Finished => {},
            Step::Release => {
                match ev {
                    StepEvent::Completed => {
                        self.workspace_present = false;
                    },
                    _ => {
                        self.workspace_present = true;
                        self.release_failed = true;
                        if self.fault.is_none() {
                            self.fault = Some(Step::Release);
                        }
                    },
                }
                self.step = Step::Finished;
            },
            _ => {
                let command_step = match s {
                    Step::PreRun => true,
                    Step::Build => true,
                    _ => false,
                };
                match ev {
                    StepEvent::Completed => {
                        self.step = following_step(s);
                        self.workspace_present = true;
                    },
                    StepEvent::CommandFailed if command_step => {
                        self.step = following_step(s);
                        self.subject_failed = true;
                    },
                    _ => {
                        self.step = Step::Release;
                        self.fault = Some(s);
                        self.workspace_present = true;
                    },
                }
            },
        }
    }

    /// The step to perform next.
    pub fn current_step(&self) -> (r: Step)
        ensures
            r == self.step,
    {
        self.step
    }

    /// Whether nothing is left to do.
    pub fn is_finished(&self) -> (r: bool)
        ensures
            r == (self.step == Step::Finished),
    {
        match self.step {
            Step::Finished => true,
            _ => false,
        }
    }

    /// How the run ended: a fault where a step failed for want of
    /// infrastructure, else a subject failure where a command failed, else a
    /// pass.
    pub fn outcome(&self) -> (r: RunOutcome)
        ensures
            r == self.outcome_of(),
    {
        match self.fault {
            Some(f) => RunOutcome::Fault(f),
            None => if self.subject_failed {
                RunOutcome::SubjectFailed
            } else {
                RunOutcome::Passed
            },
        }
    }
}

fn following_step(s: Step) -> (r: Step)
    ensures
        r == following(s),
{
    match s {
        Step::Acquire => Step::Pin,
        Step::Pin => Step::PreRun,
        Step::PreRun => Step::Build,
        Step::Build => Step::Collect,
        Step::Collect => Step::Submit,
        Step::Submit => Step::Release,
        Step::Release => Step::Finished,
        Step::Finished => Step::Finished,
    }
}

impl RunOutcome {
    /// Whether the run went through to its report: a pass, or a failure of
    /// the subject under test. Only such a commit counts as processed.
    pub open spec fn completed(self) -> bool {
        self == RunOutcome::Passed || self == RunOutcome::SubjectFailed
    }

    pub fn is_completed(&self) -> (r: bool)
        ensures
            r == self.completed(),
    {
        match self {
            RunOutcome::Passed => true,
            RunOutcome::SubjectFailed => true,
            RunOutcome::Fault(_) => false,
        }
    }
}

/// A run that has not started.
pub open spec fn initial_run() -> CommitRun {
    CommitRun {
        step: Step::Acquire,
        subject_failed: false,
        fault: None,
        workspace_present: false,
        release_failed: false,
    }
}

/// The state of a run from `s` after its steps ended with `evs`, in order.
pub open spec fn run_through(s: CommitRun, evs: Seq<StepEvent>) -> CommitRun
    decreases evs.len(),
{
    if evs.len() == 0 {
        s
    } else {
        run_through(s, evs.drop_last()).next(evs.last())
    }
}

/// One step keeps a run consistent and brings it nearer its end; it ends
/// only by the release of the copy, after which no copy stands unless its
/// removal failed.
pub proof fn lemma_step_keeps_run_sound(s: CommitRun, ev: StepEvent)
    requires
        s.wf(),
        s.step != Step::Finished,
    ensures
        s.next(ev).wf(),
        steps_left(s.next(ev).step) < steps_left(s.step),
        s.next(ev).step == Step::Finished ==> s.step == Step::Release,
        s.next(ev).step == Step::Finished ==> (s.next(ev).workspace_present
            <==> s.next(ev).release_failed),
        s.next(ev).release_failed <==> s.step == Step::Release && ev != StepEvent::Completed,
{
}

proof fn lemma_run_through(s: CommitRun, evs: Seq<StepEvent>)
    requires
        s.wf(),
    ensures
        run_through(s, evs).wf(),
        run_through(s, evs).step == Step::Finished || steps_left(run_through(s, evs).step)
            + evs.len() <= steps_left(s.step),
    decreases evs.len(),
{
    if evs.len() > 0 {
        lemma_run_through(s, evs.drop_last());
        let p = run_through(s, evs.drop_last());
        if p.step != Step::Finished {
            lemma_step_keeps_run_sound(p, evs.last());
        }
    }
}

/// Whatever its steps report, a commit's run ends after at most seven
/// steps, and once it has ended a working copy of the commit stands on disk
/// exactly where the step that removes it failed.
pub proof fn lemma_run_releases_workspace(evs: Seq<StepEvent>)
    ensures
        evs.len() >= 7 ==> run_through(initial_run(), evs).step == Step::Finished,
        run_through(initial_run(), evs).step == Step::Finished ==> (run_through(
            initial_run(),
            evs,
        ).workspace_present <==> run_through(initial_run(), evs).release_failed),
{
    lemma_run_through(initial_run(), evs);
}

} // verus!
