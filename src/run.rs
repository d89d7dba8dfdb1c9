use vstd::prelude::*;
use crate::select::{flat, select, selected, Group, Operation};
use crate::selector::{
    exited_message, exited_text, no_tasks_message, no_tasks_text, success_message, success_text,
    Flag,
};
use crate::task::{sort, sorted_by, SortOrder, Task};

verus! {

/// How a run ended.
#[derive(Clone, Copy, Debug, PartialEq, Eq, Structural)]
pub enum Outcome {
    /// Nothing was left after filtering; nothing was walked or sent.
    NoTasks,
    /// The user left the run while a task was shown.
    Exited,
    /// Every task was walked and every queued change awaited.
    Success,
}

/// Where a run stands.
#[derive(Clone, Copy, Debug, PartialEq, Eq, Structural)]
pub enum Phase {
    /// The task at this position is shown to the user next.
    Walking(usize),
    /// Every task was walked; the queued changes are awaited together.
    Joining,
    Done(Outcome),
}

/// What the driver of a run reports back after doing what was asked.
#[derive(Clone, Copy, Debug, PartialEq, Eq, Structural)]
pub enum Event {
    /// The walker dispatched a change for the task and it was queued.
    Dispatched,
    /// The task could not be shown (its preparation failed) and was passed over.
    Skipped,
    /// The user chose to leave the whole run.
    Aborted,
    /// All queued changes have completed.
    Joined,
}

/// What the driver of a run must do next.
#[derive(Clone, Copy, Debug, PartialEq, Eq, Structural)]
pub enum Action {
    /// Show the task at this position to the user.
    Walk(usize),
    /// Await every queued change together.
    Join,
    /// The run is over.
    Finish(Outcome),
}

/// A batch run: the tasks to walk, in walking order, and where the walk stands.
pub struct Run {
    pub op: Operation,
    pub tasks: Vec<Task>,
    pub phase: Phase,
    /// How many changes were queued so far.
    pub queued: usize,
}

/// The phase that the first step of a run over `n` tasks starts in.
pub open spec fn first_phase(n: nat) -> Phase {
    if n == 0 {
        Phase::Done(Outcome::NoTasks)
    } else {
        Phase::Walking(0)
    }
}

/// The phase after `ev` in phase `p`, for a run over `n` tasks; an event that
/// does not belong to the phase leaves it as it is.
pub open spec fn next_phase(p: Phase, ev: Event, n: nat) -> Phase {
    match p {
        Phase::Walking(i) => match ev {
            Event::Dispatched | Event::Skipped => if i + 1 < n {
                Phase::Walking((i + 1) as usize)
            } else {
                Phase::Joining
            },
            Event::Aborted => Phase::Done(Outcome::Exited),
            Event::Joined => p,
        },
        Phase::Joining => match ev {
            Event::Joined => Phase::Done(Outcome::Success),
            _ => p,
        },
        Phase::Done(_) => p,
    }
}

/// The action that phase `p` asks for.
pub open spec fn action_of(p: Phase) -> Action {
    match p {
        Phase::Walking(i) => Action::Walk(i),
        Phase::Joining => Action::Join,
        Phase::Done(o) => Action::Finish(o),
    }
}

/// The message that a run of `op` on `f` ends with.
pub open spec fn outcome_text(op: Operation, f: Flag, o: Outcome) -> Seq<char> {
    match o {
        Outcome::NoTasks => no_tasks_text(f),
        Outcome::Exited => exited_text(),
        Outcome::Success => success_text(op, f),
    }
}

impl Run {
    /// A walk never points past the last task, and no more changes are
    /// queued than tasks were walked.
    pub open spec fn wf(&self) -> bool {
        match self.phase {
            Phase::Walking(i) => i < self.tasks@.len() && self.queued <= i,
            _ => self.queued <= self.tasks@.len(),
        }
    }

    /// Starts a run of `op` over the groups that the selector fetched: the
    /// tasks that the operation keeps, sorted by `order`.
    pub fn start(op: Operation, groups: Vec<Group>, order: SortOrder, today: u32) -> (r: Run)
        ensures
            r.wf(),
            r.op == op,
            r.tasks@ == sorted_by(selected(op, flat(groups@), today), order),
            r.phase == first_phase(r.tasks@.len()),
            r.queued == 0,
    {
        let picked = select(op, groups, today);
        let tasks = sort(picked, order);
        let phase = if tasks.len() == 0 {
            Phase::Done(Outcome::NoTasks)
        } else {
            Phase::Walking(0)
        };
        Run { op, tasks, phase, queued: 0 }
    }

    /// What the driver must do next.
    pub fn action(&self) -> (a: Action)
        ensures
            a == action_of(self.phase),
    {
        match self.phase {
            Phase::Walking(i) => Action::Walk(i),
            Phase::Joining => Action::Join,
            Phase::Done(o) => Action::Finish(o),
        }
    }

    /// How many tasks are left to show, the current one included.
    pub fn remaining(&self) -> (r: usize)
        requires
            self.wf(),
        ensures
            r == match self.phase {
                Phase::Walking(i) => self.tasks@.len() - i,
                _ => 0,
            },
    {
        match self.phase {
            Phase::Walking(i) => self.tasks.len() - i,
            _ => 0,
        }
    }

    /// Takes in what the driver reports after the last action.
    pub fn step(&mut self, ev: Event)
        requires
            old(self).wf(),
        ensures
            final(self).wf(),
            final(self).op == old(self).op,
            final(self).tasks@ == old(self).tasks@,
            final(self).phase == next_phase(old(self).phase, ev, old(self).tasks@.len()),
            final(self).queued == if old(self).phase is Walking && ev == Event::Dispatched {
                old(self).queued + 1
            } else {
                old(self).queued as int
            },
    {
        let n = self.tasks.len();
        match self.phase {
            Phase::Walking(i) => match ev {
                Event::Dispatched | Event::Skipped => {
                    if ev == Event::Dispatched {
                        self.queued = self.queued + 1;
                    }
                    self.phase = if i + 1 < n {
                        Phase::Walking(i + 1)
                    } else {
                        Phase::Joining
                    };
                },
                Event::Aborted => {
                    self.phase = Phase::Done(Outcome::Exited);
                },
                Event::Joined => {},
            },
            Phase::Joining => {
                if ev == Event::Joined {
                    self.phase = Phase::Done(Outcome::Success);
                }
            },
            Phase::Done(_) => {},
        }
    }

    /// The message for a run that ended with `o`.
    pub fn message(&self, flag: &Flag, o: Outcome) -> (r: String)
        ensures
            r@ == outcome_text(self.op, *flag, o),
    {
        match o {
            Outcome::NoTasks => no_tasks_message(flag),
            Outcome::Exited => exited_message(),
            Outcome::Success => success_message(self.op, flag),
        }
    }
}

} // verus!
