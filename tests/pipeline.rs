use fate_ci::pipeline::{CommitRun, RunOutcome, Step, StepEvent};

/// Drives a run, answering each step from `answer`; returns the steps taken.
fn drive(run: &mut CommitRun, answer: impl Fn(Step) -> StepEvent) -> Vec<Step> {
    let mut taken = Vec::new();
    while !run.is_finished() {
        let step = run.current_step();
        taken.push(step);
        run.advance(answer(step));
    }
    taken
}

const ALL: [Step; 7] = [
    Step::Acquire,
    Step::Pin,
    Step::PreRun,
    Step::Build,
    Step::Collect,
    Step::Submit,
    Step::Release,
];

#[test]
fn clean_run_passes() {
    let mut run = CommitRun::new();
    let taken = drive(&mut run, |_| StepEvent::Completed);
    assert_eq!(taken, ALL.to_vec());
    assert_eq!(run.outcome(), RunOutcome::Passed);
    assert!(run.outcome().is_completed());
    assert!(!run.workspace_present);
    assert!(!run.release_failed);
}

#[test]
fn failed_pre_run_still_reports() {
    let mut run = CommitRun::new();
    let taken = drive(&mut run, |s| {
        if s == Step::PreRun { StepEvent::CommandFailed } else { StepEvent::Completed }
    });
    assert_eq!(taken, ALL.to_vec());
    assert_eq!(run.outcome(), RunOutcome::SubjectFailed);
    assert!(run.outcome().is_completed());
    assert!(!run.workspace_present);
}

#[test]
fn failed_build_still_reports() {
    let mut run = CommitRun::new();
    let taken = drive(&mut run, |s| {
        if s == Step::Build { StepEvent::CommandFailed } else { StepEvent::Completed }
    });
    assert!(taken.contains(&Step::Submit));
    assert_eq!(run.outcome(), RunOutcome::SubjectFailed);
}

#[test]
fn failed_clone_writes_no_report() {
    let mut run = CommitRun::new();
    let taken = drive(&mut run, |s| {
        if s == Step::Acquire { StepEvent::Faulted } else { StepEvent::Completed }
    });
    assert_eq!(taken, vec![Step::Acquire, Step::Release]);
    assert_eq!(run.outcome(), RunOutcome::Fault(Step::Acquire));
    assert!(!run.outcome().is_completed());
    assert!(!run.workspace_present);
}

#[test]
fn failed_pin_is_its_own_fault() {
    let mut run = CommitRun::new();
    let taken = drive(&mut run, |s| {
        if s == Step::Pin { StepEvent::Faulted } else { StepEvent::Completed }
    });
    assert_eq!(taken, vec![Step::Acquire, Step::Pin, Step::Release]);
    assert_eq!(run.outcome(), RunOutcome::Fault(Step::Pin));
}

#[test]
fn collection_fault_skips_report_but_releases() {
    let mut run = CommitRun::new();
    let taken = drive(&mut run, |s| match s {
        Step::Build => StepEvent::CommandFailed,
        Step::Collect => StepEvent::Faulted,
        _ => StepEvent::Completed,
    });
    assert!(!taken.contains(&Step::Submit));
    assert_eq!(taken.last(), Some(&Step::Release));
    assert_eq!(run.outcome(), RunOutcome::Fault(Step::Collect));
    assert!(!run.workspace_present);
}

#[test]
fn failed_release_is_reported() {
    let mut run = CommitRun::new();
    drive(&mut run, |s| {
        if s == Step::Release { StepEvent::Faulted } else { StepEvent::Completed }
    });
    assert_eq!(run.outcome(), RunOutcome::Fault(Step::Release));
    assert!(run.workspace_present);
    assert!(run.release_failed);
}

#[test]
fn failed_release_after_earlier_fault_leaves_copy() {
    let mut run = CommitRun::new();
    let taken = drive(&mut run, |s| match s {
        Step::Pin | Step::Release => StepEvent::Faulted,
        _ => StepEvent::Completed,
    });
    assert_eq!(taken, vec![Step::Acquire, Step::Pin, Step::Release]);
    assert_eq!(run.outcome(), RunOutcome::Fault(Step::Pin));
    assert!(run.workspace_present);
    assert!(run.release_failed);
}

#[test]
fn command_failure_outside_a_command_is_a_fault() {
    let mut run = CommitRun::new();
    drive(&mut run, |s| {
        if s == Step::Submit { StepEvent::CommandFailed } else { StepEvent::Completed }
    });
    assert_eq!(run.outcome(), RunOutcome::Fault(Step::Submit));
}
