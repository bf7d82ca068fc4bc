//! One poll cycle of the bot as a state machine: which commit to run next,
//! when to record it as processed, and when to stop and sleep.
use vstd::prelude::*;
use crate::commits::{CommitId, commit_texts, unseen, unseen_commits};
use crate::pipeline::RunOutcome;

verus! {

/// What the caller performs next.
#[derive(Debug, PartialEq, Eq, Clone)]
pub enum CycleAction {
    /// Run the pipeline on this commit and report its outcome.
    RunCommit(CommitId),
    /// Record this commit as the last processed one and report whether that
    /// succeeded.
    SaveCommit(CommitId),
    /// The cycle is over: wait for the poll interval.
    Sleep,
}

/// `s` in the opposite order.
pub open spec fn reversed<A>(s: Seq<A>) -> Seq<A> {
    Seq::new(s.len(), |i: int| s[s.len() - 1 - i])
}

/// The state of one poll cycle. Unseen commits are run oldest first, so
/// that a cycle cut short never leaves an older commit behind the recorded
/// one.
pub struct Cycle {
    /// The commits to run, oldest first.
    pending: Vec<CommitId>,
    /// How many of them have been run and recorded.
    next: usize,
    /// The last processed commit, as recorded.
    base: CommitId,
    /// The run of `pending[next]` went through; its recording is due.
    awaiting_save: bool,
    /// A fault ended the cycle early.
    stopped: bool,
    /// The commits whose run went through in this cycle.
    completed: Ghost<Set<Seq<char>>>,
    /// The base the cycle began with.
    start_base: Ghost<Seq<char>>,
}

impl Cycle {
    /// The commits to run, oldest first.
    pub closed spec fn pending_view(&self) -> Seq<CommitId> {
        self.pending@
    }

    /// How many pending commits have been run and recorded.
    pub closed spec fn next_index(&self) -> nat {
        self.next as nat
    }

    /// The last processed commit, as recorded.
    pub closed spec fn base_view(&self) -> Seq<char> {
        self.base@
    }

    /// Whether the recording of `pending_view()[next_index()]` is due.
    pub closed spec fn save_due(&self) -> bool {
        self.awaiting_save
    }

    /// Whether a fault ended the cycle early.
    pub closed spec fn is_stopped(&self) -> bool {
        self.stopped
    }

    /// The commits whose run went through in this cycle.
    pub closed spec fn completed_view(&self) -> Set<Seq<char>> {
        self.completed@
    }

    /// The base the cycle began with.
    pub closed spec fn start_base_view(&self) -> Seq<char> {
        self.start_base@
    }

    pub closed spec fn wf(&self) -> bool {
        &&& self.next <= self.pending@.len()
        &&& self.awaiting_save ==> self.next < self.pending@.len() && !self.stopped
            && self.completed@.contains(self.pending@[self.next as int]@)
        &&& self.base@ == self.start_base@ || self.completed@.contains(self.base@)
    }

    /// A cycle over the history walk `walk` from the branch tip, newest
    /// first, with `base` the last processed commit: the commits before the
    /// base are pending, oldest first.
    pub fn new(walk: &Vec<CommitId>, base: CommitId) -> (r: Cycle)
        ensures
            r.wf(),
            commit_texts(r.pending_view()) == reversed(unseen(commit_texts(walk@), base@)),
            r.next_index() == 0,
            r.base_view() == base@,
            !r.save_due(),
            !r.is_stopped(),
            r.completed_view() == Set::<Seq<char>>::empty(),
            r.start_base_view() == base@,
    {
        let newest_first = unseen_commits(walk, &base);
        let ghost u = commit_texts(newest_first@);
        let mut pending: Vec<CommitId> = Vec::new();
        let mut k: usize = newest_first.len();
        while k > 0
            invariant
                k <= newest_first@.len(),
                u == commit_texts(newest_first@),
                pending@.len() == newest_first@.len() - k,
                commit_texts(pending@) == reversed(u).take(pending@.len() as int),
            decreases k,
        {
            let c = newest_first[k - 1].duplicate();
            pending.push(c);
            proof {
                let n = pending@.len() as int;
                assert(commit_texts(pending@)[n - 1] == u[k - 1]);
                assert(commit_texts(pending@) =~= reversed(u).take(n));
            }
            k = k - 1;
        }
        assert(commit_texts(pending@) =~= reversed(u));
        let ghost b = base@;
        Cycle {
            pending,
            next: 0,
            base,
            awaiting_save: false,
            stopped: false,
            completed: Ghost(Set::empty()),
            start_base: Ghost(b),
        }
    }

    /// Whether the cycle is over.
    pub open spec fn over(&self) -> bool {
        self.is_stopped() || self.next_index() >= self.pending_view().len()
    }

    /// What to perform next: sleep once the cycle is over, else record the
    /// commit whose run went through, else run the next pending commit.
    pub fn next_action(&self) -> (r: CycleAction)
        requires
            self.wf(),
        ensures
            self.over() ==> r == CycleAction::Sleep,
            !self.over() && self.save_due() ==> (r matches CycleAction::SaveCommit(c) && c@
                == self.pending_view()[self.next_index() as int]@),
            !self.over() && !self.save_due() ==> (r matches CycleAction::RunCommit(c) && c@
                == self.pending_view()[self.next_index() as int]@),
    {
        if self.stopped || self.next >= self.pending.len() {
            CycleAction::Sleep
        } else if self.awaiting_save {
            CycleAction::SaveCommit(self.pending[self.next].duplicate())
        } else {
            CycleAction::RunCommit(self.pending[self.next].duplicate())
        }
    }

    /// Takes in how the run of the next pending commit ended. A run that went
    /// through, passed or not, makes its recording due; a fault ends the
    /// cycle, leaving the commit to be run again in the next one.
    pub fn run_ended(&mut self, outcome: RunOutcome)
        requires
            old(self).wf(),
            !old(self).over(),
            !old(self).save_due(),
        ensures
            final(self).wf(),
            final(self).pending_view() == old(self).pending_view(),
            final(self).next_index() == old(self).next_index(),
            final(self).base_view() == old(self).base_view(),
            final(self).start_base_view() == old(self).start_base_view(),
            final(self).save_due() == outcome.completed(),
            final(self).is_stopped() == !outcome.completed(),
            final(self).completed_view() == if outcome.completed() {
                old(self).completed_view().insert(
                    old(self).pending_view()[old(self).next_index() as int]@,
                )
            } else {
                old(self).completed_view()
            },
    {
        if outcome.is_completed() {
            let ghost c = self.pending@[self.next as int]@;
            self.completed = Ghost(self.completed@.insert(c));
            self.awaiting_save = true;
        } else {
            self.stopped = true;
        }
    }

    /// Takes in whether recording the commit whose run went through
    /// succeeded. If it did, that commit becomes the base and the cycle moves
    /// on; if not, the cycle ends without advancing.
    pub fn save_ended(&mut self, saved: bool)
        requires
            old(self).wf(),
            old(self).save_due(),
        ensures
            final(self).wf(),
            final(self).pending_view() == old(self).pending_view(),
            final(self).completed_view() == old(self).completed_view(),
            final(self).start_base_view() == old(self).start_base_view(),
            !final(self).save_due(),
            saved ==> final(self).base_view() == old(self).pending_view()[old(
                self,
            ).next_index() as int]@,
            saved ==> final(self).next_index() == old(self).next_index() + 1,
            saved ==> !final(self).is_stopped(),
            !saved ==> final(self).base_view() == old(self).base_view(),
            !saved ==> final(self).next_index() == old(self).next_index(),
            !saved ==> final(self).is_stopped(),
    {
        let i = self.next;
        let n = self.pending.len();
        assert(i < n);
        self.awaiting_save = false;
        if saved {
            self.base = self.pending[i].duplicate();
            self.next = i + 1;
        } else {
            self.stopped = true;
        }
    }

    /// The last processed commit, as recorded.
    pub fn base(&self) -> (r: &CommitId)
        ensures
            r@ == self.base_view(),
    {
        &self.base
    }
}

/// The recorded commit changes only to a commit whose run went through in
/// this cycle: never to one whose run ended in a fault.
pub proof fn lemma_base_only_advances_to_completed(c: Cycle)
    requires
        c.wf(),
    ensures
        c.base_view() == c.start_base_view() || c.completed_view().contains(c.base_view()),
{
}

} // verus!
