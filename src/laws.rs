use vstd::prelude::*;
use crate::run::{action_of, first_phase, next_phase, outcome_text, Action, Event, Outcome, Phase};
use crate::select::{is_parent_in, kept, passes, selected, Operation};
use crate::selector::{no_tasks_text, Flag};
use crate::task::{
    is_ordered, lemma_sorted_by_ordered, lemma_sorted_by_ordered_fixed, lemma_sorted_by_permutes,
    sorted_by, Priority, SortOrder, Task,
};

verus! {

/// The phase of a run over `n` tasks after the events `evs`, in their order.
pub open spec fn phase_after(p: Phase, evs: Seq<Event>, n: nat) -> Phase
    decreases evs.len(),
{
    if evs.len() == 0 {
        p
    } else {
        phase_after(next_phase(p, evs[0], n), evs.drop_first(), n)
    }
}

/// The tasks that a run of `op` walks, in walking order.
pub open spec fn walked(op: Operation, s: Seq<Task>, order: SortOrder, today: u32) -> Seq<Task> {
    sorted_by(selected(op, s, today), order)
}

proof fn lemma_done_stays(o: Outcome, evs: Seq<Event>, n: nat)
    ensures
        phase_after(Phase::Done(o), evs, n) == Phase::Done(o),
    decreases evs.len(),
{
    if evs.len() > 0 {
        lemma_done_stays(o, evs.drop_first(), n);
    }
}

/// When filtering leaves no task, a run of any operation starts finished with
/// nothing to do, stays so whatever is reported to it (so nothing is ever
/// walked or queued), and ends with "No tasks for" and the selector.
pub proof fn lemma_empty_selection(
    op: Operation,
    s: Seq<Task>,
    order: SortOrder,
    today: u32,
    f: Flag,
    evs: Seq<Event>,
)
    requires
        selected(op, s, today).len() == 0,
    ensures
        first_phase(walked(op, s, order, today).len()) == Phase::Done(Outcome::NoTasks),
        action_of(first_phase(walked(op, s, order, today).len())) == Action::Finish(
            Outcome::NoTasks,
        ),
        phase_after(
            first_phase(walked(op, s, order, today).len()),
            evs,
            walked(op, s, order, today).len(),
        ) == Phase::Done(Outcome::NoTasks),
        outcome_text(op, f, Outcome::NoTasks) == no_tasks_text(f),
{
    lemma_sorted_by_permutes(selected(op, s, today), order);
    lemma_done_stays(Outcome::NoTasks, evs, 0);
}

/// Sorting permutes its input, orders it by key, and sorting again changes
/// nothing.
pub proof fn lemma_sort_laws(s: Seq<Task>, order: SortOrder)
    ensures
        sorted_by(s, order).to_multiset() == s.to_multiset(),
        is_ordered(sorted_by(s, order), order),
        sorted_by(sorted_by(s, order), order) == sorted_by(s, order),
{
    lemma_sorted_by_permutes(s, order);
    lemma_sorted_by_ordered(s, order);
    lemma_sorted_by_ordered_fixed(sorted_by(s, order), order);
}

proof fn lemma_walked_members(op: Operation, s: Seq<Task>, order: SortOrder, today: u32, t: Task)
    ensures
        walked(op, s, order, today).contains(t) == selected(op, s, today).contains(t),
{
    broadcast use vstd::seq_lib::group_to_multiset_ensures;

    lemma_sorted_by_permutes(selected(op, s, today), order);
    assert(walked(op, s, order, today).to_multiset().count(t) == selected(
        op,
        s,
        today,
    ).to_multiset().count(t));
}

/// Processing never walks a task that another task kept for processing names
/// as its parent.
pub proof fn lemma_process_skips_parents(s: Seq<Task>, order: SortOrder, today: u32)
    ensures
        forall|k: int|
            0 <= k < walked(Operation::Process, s, order, today).len() ==> !is_parent_in(
                #[trigger] walked(Operation::Process, s, order, today)[k],
                kept(Operation::Process, s, today),
            ),
{
    let w = walked(Operation::Process, s, order, today);
    let first = kept(Operation::Process, s, today);
    let sel = selected(Operation::Process, s, today);
    assert forall|k: int| 0 <= k < w.len() implies !is_parent_in(#[trigger] w[k], first) by {
        lemma_walked_members(Operation::Process, s, order, today, w[k]);
        assert(w.contains(w[k]));
        let j = choose|j: int| 0 <= j < sel.len() && sel[j] == w[k];
        first.lemma_filter_pred(|t: Task| !is_parent_in(t, first), j);
    }
}

/// Prioritizing walks exactly the tasks whose priority is unset: every walked
/// task has it unset, and every fetched task with it unset is walked.
pub proof fn lemma_prioritize_walks_unset(s: Seq<Task>, order: SortOrder, today: u32)
    ensures
        forall|k: int|
            0 <= k < walked(Operation::Prioritize, s, order, today).len() ==> (#[trigger] walked(
                Operation::Prioritize,
                s,
                order,
                today,
            )[k]).priority == Priority::Unset,
        forall|k: int|
            0 <= k < s.len() && (#[trigger] s[k]).priority == Priority::Unset ==> walked(
                Operation::Prioritize,
                s,
                order,
                today,
            ).contains(s[k]),
{
    let w = walked(Operation::Prioritize, s, order, today);
    let sel = selected(Operation::Prioritize, s, today);
    let pred = |t: Task| passes(Operation::Prioritize, t, today);
    assert forall|k: int| 0 <= k < w.len() implies (#[trigger] w[k]).priority
        == Priority::Unset by {
        lemma_walked_members(Operation::Prioritize, s, order, today, w[k]);
        assert(w.contains(w[k]));
        let j = choose|j: int| 0 <= j < sel.len() && sel[j] == w[k];
        s.lemma_filter_pred(pred, j);
    }
    assert forall|k: int| 0 <= k < s.len() && (#[trigger] s[k]).priority == Priority::Unset implies w.contains(
        s[k],
    ) by {
        s.lemma_filter_contains(pred, k);
        lemma_walked_members(Operation::Prioritize, s, order, today, s[k]);
    }
}

/// Once the user leaves at some task, the run is over: whatever is reported
/// afterwards, no later task is shown and it ends with "Exited".
pub proof fn lemma_abort_stops(i: usize, n: nat, evs: Seq<Event>)
    requires
        i < n,
    ensures
        next_phase(Phase::Walking(i), Event::Aborted, n) == Phase::Done(Outcome::Exited),
        phase_after(next_phase(Phase::Walking(i), Event::Aborted, n), evs, n) == Phase::Done(
            Outcome::Exited,
        ),
        forall|m: int|
            0 <= m <= evs.len() ==> action_of(
                #[trigger] phase_after(
                    next_phase(Phase::Walking(i), Event::Aborted, n),
                    evs.subrange(0, m),
                    n,
                ),
            ) == Action::Finish(Outcome::Exited),
{
    lemma_done_stays(Outcome::Exited, evs, n);
    assert forall|m: int| 0 <= m <= evs.len() implies action_of(
        #[trigger] phase_after(
            next_phase(Phase::Walking(i), Event::Aborted, n),
            evs.subrange(0, m),
            n,
        ),
    ) == Action::Finish(Outcome::Exited) by {
        lemma_done_stays(Outcome::Exited, evs.subrange(0, m), n);
    }
}

} // verus!
