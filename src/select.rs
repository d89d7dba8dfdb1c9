use vstd::prelude::*;
use crate::task::{Priority, Task};

verus! {

/// The batch operations a run can perform.
#[derive(Clone, Copy, Debug, PartialEq, Eq, Structural)]
pub enum Operation {
    View,
    Prioritize,
    Timebox,
    Process,
    Label,
}

/// A named group of tasks, as a filter query returns them.
#[derive(Clone, Debug)]
pub struct Group {
    pub label: String,
    pub tasks: Vec<Task>,
}

/// All tasks of `gs`, group after group.
pub open spec fn flat(gs: Seq<Group>) -> Seq<Task>
    decreases gs.len(),
{
    if gs.len() == 0 {
        Seq::empty()
    } else {
        flat(gs.drop_last()) + gs.last().tasks@
    }
}

/// Whether a task is due on a day after `today`.
pub open spec fn in_future(t: Task, today: u32) -> bool {
    match t.due {
        Some(d) => d > today,
        None => false,
    }
}

/// The per-task rule that `op` keeps a task by.
pub open spec fn passes(op: Operation, t: Task, today: u32) -> bool {
    match op {
        Operation::Prioritize => t.priority == Priority::Unset,
        Operation::Timebox => t.duration is None,
        Operation::Process => !in_future(t, today),
        Operation::View | Operation::Label => true,
    }
}

/// Whether `c` names `t` as its parent.
pub open spec fn names_parent(c: Task, t: Task) -> bool {
    match c.parent_id {
        Some(p) => p@ == t.id@,
        None => false,
    }
}

/// Whether some task of `s` names `t` as its parent.
pub open spec fn is_parent_in(t: Task, s: Seq<Task>) -> bool {
    exists|k: int| 0 <= k < s.len() && names_parent(#[trigger] s[k], t)
}

/// The tasks of `s` that `op` keeps.
pub open spec fn kept(op: Operation, s: Seq<Task>, today: u32) -> Seq<Task> {
    s.filter(|t: Task| passes(op, t, today))
}

/// The tasks of `s` that no task of `s` names as its parent.
pub open spec fn without_parents(s: Seq<Task>) -> Seq<Task> {
    s.filter(|t: Task| !is_parent_in(t, s))
}

/// The tasks that a run of `op` walks, in the order fetched: those the
/// operation's rule keeps, and for processing only those of them that are no
/// other kept task's parent.
pub open spec fn selected(op: Operation, s: Seq<Task>, today: u32) -> Seq<Task> {
    if op == Operation::Process {
        without_parents(kept(op, s, today))
    } else {
        kept(op, s, today)
    }
}

proof fn lemma_filter_step(s: Seq<Task>, i: int, pred: spec_fn(Task) -> bool)
    requires
        0 <= i < s.len(),
    ensures
        s.subrange(0, i + 1).filter(pred) == (if pred(s[i]) {
            s.subrange(0, i).filter(pred).push(s[i])
        } else {
            s.subrange(0, i).filter(pred)
        }),
{
    reveal(Seq::filter);
    assert(s.subrange(0, i + 1).drop_last() =~= s.subrange(0, i));
}

/// The tasks of all groups, group after group.
pub fn flatten(groups: Vec<Group>) -> (r: Vec<Task>)
    ensures
        r@ == flat(groups@),
{
    let ghost orig = groups@;
    let n: usize = groups.len();
    let mut rest = groups;
    let mut out: Vec<Task> = Vec::new();
    let mut i: usize = 0;
    while rest.len() > 0
        invariant
            i <= n,
            n == orig.len(),
            rest@ == orig.subrange(i as int, n as int),
            out@ == flat(orig.subrange(0, i as int)),
        decreases rest.len(),
    {
        let g = rest.remove(0);
        let mut ts = g.tasks;
        out.append(&mut ts);
        proof {
            assert(orig.subrange(0, i + 1).drop_last() =~= orig.subrange(0, i as int));
            assert(rest@ =~= orig.subrange(i + 1, n as int));
        }
        i += 1;
    }
    proof {
        assert(orig.subrange(0, n as int) =~= orig);
    }
    out
}

fn passes_exec(op: Operation, t: &Task, today: u32) -> (r: bool)
    ensures
        r == passes(op, *t, today),
{
    match op {
        Operation::Prioritize => t.priority == Priority::Unset,
        Operation::Timebox => t.duration.is_none(),
        Operation::Process => match t.due {
            Some(d) => d <= today,
            None => true,
        },
        Operation::View | Operation::Label => true,
    }
}

/// The tasks that the rule of `op` keeps, in their order.
pub fn keep_passing(tasks: Vec<Task>, op: Operation, today: u32) -> (r: Vec<Task>)
    ensures
        r@ == kept(op, tasks@, today),
{
    let ghost orig = tasks@;
    let ghost pred = |t: Task| passes(op, t, today);
    let n: usize = tasks.len();
    let mut rest = tasks;
    let mut out: Vec<Task> = Vec::new();
    let mut i: usize = 0;
    while rest.len() > 0
        invariant
            i <= n,
            n == orig.len(),
            rest@ == orig.subrange(i as int, n as int),
            out@ == orig.subrange(0, i as int).filter(pred),
            pred == (|t: Task| passes(op, t, today)),
        decreases rest.len(),
    {
        proof {
            lemma_filter_step(orig, i as int, pred);
        }
        let t = rest.remove(0);
        if passes_exec(op, &t, today) {
            out.push(t);
        }
        proof {
            assert(rest@ =~= orig.subrange(i + 1, n as int));
        }
        i += 1;
    }
    proof {
        assert(orig.subrange(0, n as int) =~= orig);
    }
    out
}

fn names_parent_exec(c: &Task, t: &Task) -> (r: bool)
    ensures
        r == names_parent(*c, *t),
{
    match &c.parent_id {
        Some(p) => p.eq(&t.id),
        None => false,
    }
}

fn is_parent_exec(t: &Task, all: &Vec<Task>) -> (r: bool)
    ensures
        r == is_parent_in(*t, all@),
{
    let mut k: usize = 0;
    while k < all.len()
        invariant
            k <= all.len(),
            forall|m: int| 0 <= m < k ==> !names_parent(#[trigger] all@[m], *t),
        decreases all.len() - k,
    {
        if names_parent_exec(&all[k], t) {
            return true;
        }
        k += 1;
    }
    false
}

/// The tasks of `tasks` that no task of `tasks` names as its parent.
pub fn reject_parents(tasks: Vec<Task>) -> (r: Vec<Task>)
    ensures
        r@ == without_parents(tasks@),
{
    let ghost orig = tasks@;
    let ghost pred = |t: Task| !is_parent_in(t, orig);
    let n: usize = tasks.len();
    let mut parent: Vec<bool> = Vec::new();
    let mut j: usize = 0;
    while j < n
        invariant
            j <= n,
            n == tasks@.len(),
            tasks@ == orig,
            parent@.len() == j,
            forall|m: int| 0 <= m < j ==> parent@[m] == is_parent_in(#[trigger] orig[m], orig),
        decreases n - j,
    {
        let b = is_parent_exec(&tasks[j], &tasks);
        parent.push(b);
        j += 1;
    }
    let mut rest = tasks;
    let mut out: Vec<Task> = Vec::new();
    let mut i: usize = 0;
    while rest.len() > 0
        invariant
            i <= n,
            n == orig.len(),
            parent@.len() == n,
            forall|m: int| 0 <= m < n ==> parent@[m] == is_parent_in(#[trigger] orig[m], orig),
            rest@ == orig.subrange(i as int, n as int),
            out@ == orig.subrange(0, i as int).filter(pred),
            pred == (|t: Task| !is_parent_in(t, orig)),
        decreases rest.len(),
    {
        proof {
            lemma_filter_step(orig, i as int, pred);
        }
        let t = rest.remove(0);
        if !parent[i] {
            out.push(t);
        }
        proof {
            assert(rest@ =~= orig.subrange(i + 1, n as int));
        }
        i += 1;
    }
    proof {
        assert(orig.subrange(0, n as int) =~= orig);
    }
    out
}

/// The tasks that a run of `op` walks, from the groups that the selector
/// fetched, before sorting.
pub fn select(op: Operation, groups: Vec<Group>, today: u32) -> (r: Vec<Task>)
    ensures
        r@ == selected(op, flat(groups@), today),
{
    let all = flatten(groups);
    let passing = keep_passing(all, op, today);
    if op == Operation::Process {
        reject_parents(passing)
    } else {
        passing
    }
}

} // verus!
