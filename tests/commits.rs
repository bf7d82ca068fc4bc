use fate_ci::commits::{unseen_commits, CommitId, CommitIdError};
use fate_ci::cycle::{Cycle, CycleAction};
use fate_ci::pipeline::RunOutcome;

fn id(c: char) -> CommitId {
    CommitId::parse(&c.to_string().repeat(40)).ok().unwrap()
}

fn texts(v: &[CommitId]) -> Vec<String> {
    v.iter().map(|c| c.as_str().to_string()).collect()
}

#[test]
fn commit_id_is_canonical_text() {
    let c = CommitId::parse("ABCdef").ok().unwrap();
    assert_eq!(c.as_str(), format!("abcdef{}", "0".repeat(34)));
    let full = "0123456789abcdef0123456789abcdef01234567";
    assert_eq!(CommitId::parse(full).ok().unwrap().as_str(), full);
}

#[test]
fn malformed_commit_ids_refused() {
    assert_eq!(CommitId::parse("").err(), Some(CommitIdError::Malformed));
    assert_eq!(CommitId::parse("xyz").err(), Some(CommitIdError::Malformed));
    assert_eq!(CommitId::parse(&"a".repeat(41)).err(), Some(CommitIdError::Malformed));
    let with_newline = format!("{}\n", "a".repeat(39));
    assert_eq!(CommitId::parse(&with_newline).err(), Some(CommitIdError::Malformed));
}

#[test]
fn base_at_tip_leaves_nothing() {
    let walk = vec![id('c'), id('b'), id('a')];
    assert!(unseen_commits(&walk, &id('c')).is_empty());
}

#[test]
fn walk_cut_at_base() {
    let walk = vec![id('c'), id('b'), id('a')];
    assert_eq!(texts(&unseen_commits(&walk, &id('a'))), texts(&[id('c'), id('b')]));
    assert_eq!(texts(&unseen_commits(&walk, &id('b'))), texts(&[id('c')]));
}

#[test]
fn base_not_in_walk_takes_all() {
    let walk = vec![id('c'), id('b')];
    assert_eq!(texts(&unseen_commits(&walk, &id('f'))), texts(&walk));
    assert!(unseen_commits(&vec![], &id('f')).is_empty());
}

#[test]
fn cycle_with_base_at_tip_sleeps_at_once() {
    let walk = vec![id('c'), id('b')];
    let cycle = Cycle::new(&walk, id('c'));
    assert_eq!(cycle.next_action(), CycleAction::Sleep);
    assert_eq!(cycle.base(), &id('c'));
}

#[test]
fn cycle_runs_oldest_first_and_advances() {
    let walk = vec![id('c'), id('b'), id('a')];
    let mut cycle = Cycle::new(&walk, id('a'));
    assert_eq!(cycle.next_action(), CycleAction::RunCommit(id('b')));
    cycle.run_ended(RunOutcome::SubjectFailed);
    assert_eq!(cycle.next_action(), CycleAction::SaveCommit(id('b')));
    cycle.save_ended(true);
    assert_eq!(cycle.base(), &id('b'));
    assert_eq!(cycle.next_action(), CycleAction::RunCommit(id('c')));
    cycle.run_ended(RunOutcome::Passed);
    cycle.save_ended(true);
    assert_eq!(cycle.base(), &id('c'));
    assert_eq!(cycle.next_action(), CycleAction::Sleep);
}

#[test]
fn fault_stops_cycle_without_advancing() {
    let walk = vec![id('c'), id('b'), id('a')];
    let mut cycle = Cycle::new(&walk, id('a'));
    cycle.run_ended(RunOutcome::Fault(fate_ci::pipeline::Step::Acquire));
    assert_eq!(cycle.next_action(), CycleAction::Sleep);
    assert_eq!(cycle.base(), &id('a'));
}

#[test]
fn failed_save_stops_cycle() {
    let walk = vec![id('c'), id('b'), id('a')];
    let mut cycle = Cycle::new(&walk, id('a'));
    cycle.run_ended(RunOutcome::Passed);
    cycle.save_ended(false);
    assert_eq!(cycle.base(), &id('a'));
    assert_eq!(cycle.next_action(), CycleAction::Sleep);
}
