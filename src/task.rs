use vstd::prelude::*;

verus! {

/// Priority of a task, from unset to the most urgent.
#[derive(Clone, Copy, Debug, PartialEq, Eq, Structural)]
pub enum Priority {
    Unset,
    Low,
    Medium,
    High,
}

/// A task as read from the remote service.
///
/// `due` is the task's due date as a day number (days since the Unix epoch),
/// `duration` its assigned duration in minutes.
#[derive(Clone, Debug)]
pub struct Task {
    pub id: String,
    pub content: String,
    pub priority: Priority,
    pub duration: Option<u32>,
    pub due: Option<u32>,
    pub project_id: String,
    pub parent_id: Option<String>,
    pub labels: Vec<String>,
}

/// A comment attached to a task; read only.
#[derive(Clone, Debug)]
pub struct Comment {
    pub id: String,
    pub task_id: String,
    pub content: String,
    pub posted_at: String,
}

/// The key that a sort order compares tasks by.
#[derive(Clone, Copy, Debug, PartialEq, Eq, Structural)]
pub enum SortOrder {
    /// Most urgent priority first, then earliest due date.
    Value,
    /// Most urgent priority first.
    Priority,
    /// Earliest due date first; undated tasks last.
    Datetime,
}

/// Sort position of a priority: the most urgent comes first.
pub open spec fn priority_rank(p: Priority) -> int {
    match p {
        Priority::High => 0,
        Priority::Medium => 1,
        Priority::Low => 2,
        Priority::Unset => 3,
    }
}

/// Sort position of a due date: undated tasks come after every dated one.
pub open spec fn due_rank(due: Option<u32>) -> int {
    match due {
        Some(d) => d as int,
        None => 0x1_0000_0000,
    }
}

/// The integer that `order` sorts a task by, in ascending order.
pub open spec fn sort_key(t: Task, order: SortOrder) -> int {
    match order {
        SortOrder::Value => priority_rank(t.priority) * 0x2_0000_0000 + due_rank(t.due),
        SortOrder::Priority => priority_rank(t.priority),
        SortOrder::Datetime => due_rank(t.due),
    }
}

/// Whether the keys of `s` never decrease.
pub open spec fn is_ordered(s: Seq<Task>, order: SortOrder) -> bool {
    forall|i: int, j: int|
        0 <= i < j < s.len() ==> sort_key(#[trigger] s[i], order) <= sort_key(#[trigger] s[j], order)
}

/// Places `t` after every leading task whose key does not exceed its own.
pub open spec fn insert_by_key(t: Task, s: Seq<Task>, order: SortOrder) -> Seq<Task>
    decreases s.len(),
{
    if s.len() == 0 {
        seq![t]
    } else if sort_key(s[0], order) <= sort_key(t, order) {
        seq![s[0]] + insert_by_key(t, s.drop_first(), order)
    } else {
        seq![t] + s
    }
}

/// The stable sort of `s` by `order`: tasks with equal keys keep their order.
pub open spec fn sorted_by(s: Seq<Task>, order: SortOrder) -> Seq<Task>
    decreases s.len(),
{
    if s.len() == 0 {
        s
    } else {
        insert_by_key(s.last(), sorted_by(s.drop_last(), order), order)
    }
}

fn priority_rank_of(p: Priority) -> (r: u64)
    ensures
        r == priority_rank(p),
{
    match p {
        Priority::High => 0,
        Priority::Medium => 1,
        Priority::Low => 2,
        Priority::Unset => 3,
    }
}

fn due_rank_of(due: Option<u32>) -> (r: u64)
    ensures
        r == due_rank(due),
{
    match due {
        Some(d) => d as u64,
        None => 0x1_0000_0000,
    }
}

/// The key of `t` under `order`.
pub fn key_of(t: &Task, order: SortOrder) -> (k: u64)
    ensures
        k == sort_key(*t, order),
{
    match order {
        SortOrder::Value => priority_rank_of(t.priority) * 0x2_0000_0000 + due_rank_of(t.due),
        SortOrder::Priority => priority_rank_of(t.priority),
        SortOrder::Datetime => due_rank_of(t.due),
    }
}

/// Inserting before the first task whose key exceeds that of `t`.
proof fn lemma_insert_at(t: Task, s: Seq<Task>, order: SortOrder, j: int)
    requires
        0 <= j <= s.len(),
        forall|k: int| 0 <= k < j ==> sort_key(#[trigger] s[k], order) <= sort_key(t, order),
        j == s.len() || sort_key(s[j], order) > sort_key(t, order),
    ensures
        insert_by_key(t, s, order) == s.insert(j, t),
    decreases j,
{
    if j == 0 {
        assert(insert_by_key(t, s, order) =~= s.insert(0, t));
    } else {
        let rest = s.drop_first();
        assert forall|k: int| 0 <= k < j - 1 implies sort_key(#[trigger] rest[k], order) <= sort_key(
            t,
            order,
        ) by {
            assert(rest[k] == s[k + 1]);
        }
        if j < s.len() {
            assert(rest[j - 1] == s[j]);
        }
        lemma_insert_at(t, rest, order, j - 1);
        assert(sort_key(s[0], order) <= sort_key(t, order));
        assert(insert_by_key(t, s, order) =~= s.insert(j, t));
    }
}

proof fn lemma_insert_multiset(t: Task, s: Seq<Task>, order: SortOrder)
    ensures
        insert_by_key(t, s, order).to_multiset() == s.to_multiset().insert(t),
    decreases s.len(),
{
    broadcast use vstd::seq_lib::group_to_multiset_ensures;
    broadcast use vstd::seq_lib::lemma_multiset_commutative;

    if s.len() == 0 {
        assert(seq![t] =~= Seq::<Task>::empty().push(t));
        assert(insert_by_key(t, s, order).to_multiset() =~= s.to_multiset().insert(t));
    } else {
        let first = seq![s[0]];
        assert(s =~= first + s.drop_first());
        if sort_key(s[0], order) <= sort_key(t, order) {
            lemma_insert_multiset(t, s.drop_first(), order);
            assert(insert_by_key(t, s, order).to_multiset() =~= s.to_multiset().insert(t));
        } else {
            assert(seq![t] =~= Seq::<Task>::empty().push(t));
            assert(insert_by_key(t, s, order).to_multiset() =~= s.to_multiset().insert(t));
        }
    }
}

proof fn lemma_insert_lower_bound(t: Task, s: Seq<Task>, order: SortOrder, b: int)
    requires
        sort_key(t, order) >= b,
        forall|k: int| 0 <= k < s.len() ==> sort_key(#[trigger] s[k], order) >= b,
    ensures
        forall|k: int|
            0 <= k < insert_by_key(t, s, order).len() ==> sort_key(
                #[trigger] insert_by_key(t, s, order)[k],
                order,
            ) >= b,
        insert_by_key(t, s, order).len() == s.len() + 1,
    decreases s.len(),
{
    if s.len() > 0 && sort_key(s[0], order) <= sort_key(t, order) {
        let rest = s.drop_first();
        assert forall|k: int| 0 <= k < rest.len() implies sort_key(#[trigger] rest[k], order)
            >= b by {
            assert(rest[k] == s[k + 1]);
        }
        lemma_insert_lower_bound(t, rest, order, b);
    }
}

proof fn lemma_insert_ordered(t: Task, s: Seq<Task>, order: SortOrder)
    requires
        is_ordered(s, order),
    ensures
        is_ordered(insert_by_key(t, s, order), order),
    decreases s.len(),
{
    if s.len() > 0 {
        let rest = s.drop_first();
        if sort_key(s[0], order) <= sort_key(t, order) {
            assert forall|k: int| 0 <= k < rest.len() implies sort_key(#[trigger] rest[k], order)
                >= sort_key(s[0], order) by {
                assert(rest[k] == s[k + 1]);
            }
            lemma_insert_ordered(t, rest, order);
            lemma_insert_lower_bound(t, rest, order, sort_key(s[0], order));
            let r = insert_by_key(t, s, order);
            let tail = insert_by_key(t, rest, order);
            assert forall|i: int, j: int| 0 <= i < j < r.len() implies sort_key(
                #[trigger] r[i],
                order,
            ) <= sort_key(#[trigger] r[j], order) by {
                assert(r[j] == tail[j - 1]);
                if i > 0 {
                    assert(r[i] == tail[i - 1]);
                }
            }
        }
    }
}

/// The stable sort is a permutation of its input.
pub proof fn lemma_sorted_by_permutes(s: Seq<Task>, order: SortOrder)
    ensures
        sorted_by(s, order).to_multiset() == s.to_multiset(),
        sorted_by(s, order).len() == s.len(),
    decreases s.len(),
{
    broadcast use vstd::seq_lib::group_to_multiset_ensures;

    if s.len() > 0 {
        lemma_sorted_by_permutes(s.drop_last(), order);
        lemma_insert_multiset(s.last(), sorted_by(s.drop_last(), order), order);
        assert(s =~= s.drop_last().push(s.last()));
        assert(sorted_by(s, order).to_multiset().len() == s.to_multiset().len());
    }
}

/// The stable sort orders its output by key.
pub proof fn lemma_sorted_by_ordered(s: Seq<Task>, order: SortOrder)
    ensures
        is_ordered(sorted_by(s, order), order),
    decreases s.len(),
{
    if s.len() > 0 {
        lemma_sorted_by_ordered(s.drop_last(), order);
        lemma_insert_ordered(s.last(), sorted_by(s.drop_last(), order), order);
    }
}

/// A sequence already ordered by key is left as it is.
pub proof fn lemma_sorted_by_ordered_fixed(s: Seq<Task>, order: SortOrder)
    requires
        is_ordered(s, order),
    ensures
        sorted_by(s, order) == s,
    decreases s.len(),
{
    if s.len() > 0 {
        let init = s.drop_last();
        assert(is_ordered(init, order));
        lemma_sorted_by_ordered_fixed(init, order);
        lemma_insert_at(s.last(), init, order, init.len() as int);
        assert(init.insert(init.len() as int, s.last()) =~= s);
    }
}

fn insert_sorted(out: &mut Vec<Task>, t: Task, order: SortOrder)
    requires
        old(out)@.len() < usize::MAX,
    ensures
        final(out)@ == insert_by_key(t, old(out)@, order),
{
    let k = key_of(&t, order);
    let mut j: usize = 0;
    while j < out.len() && key_of(&out[j], order) <= k
        invariant
            j <= out.len(),
            k == sort_key(t, order),
            forall|m: int| 0 <= m < j ==> sort_key(#[trigger] out@[m], order) <= sort_key(t, order),
        decreases out.len() - j,
    {
        j += 1;
    }
    proof {
        lemma_insert_at(t, out@, order, j as int);
    }
    out.insert(j, t);
}

/// Stable sort of `tasks` by the key that `order` selects.
pub fn sort(tasks: Vec<Task>, order: SortOrder) -> (r: Vec<Task>)
    ensures
        r@ == sorted_by(tasks@, order),
{
    let ghost orig = tasks@;
    let n: usize = tasks.len();
    assert(orig.len() == n);
    let mut rest = tasks;
    let mut out: Vec<Task> = Vec::new();
    let mut i: usize = 0;
    while rest.len() > 0
        invariant
            i <= orig.len(),
            orig.len() <= usize::MAX,
            rest@ == orig.subrange(i as int, orig.len() as int),
            out@ == sorted_by(orig.subrange(0, i as int), order),
        decreases rest.len(),
    {
        proof {
            lemma_sorted_by_permutes(orig.subrange(0, i as int), order);
        }
        let t = rest.remove(0);
        insert_sorted(&mut out, t, order);
        proof {
            let next = orig.subrange(0, i + 1);
            assert(next.drop_last() =~= orig.subrange(0, i as int));
            assert(rest@ =~= orig.subrange(i + 1, orig.len() as int));
        }
        i += 1;
    }
    proof {
        assert(orig.subrange(0, i as int) =~= orig);
    }
    out
}

} // verus!
