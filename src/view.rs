use vstd::prelude::*;
use crate::select::{flat, Group};
use crate::task::{sort, sorted_by, SortOrder};

verus! {

/// Each rendered task on a line of its own, each preceded by a line feed.
pub open spec fn lines_text(lines: Seq<Seq<char>>) -> Seq<char>
    decreases lines.len(),
{
    if lines.len() == 0 {
        Seq::empty()
    } else {
        lines_text(lines.drop_last()) + "\n"@ + lines.last()
    }
}

/// One group of a view: a title line naming the group, then its tasks.
pub open spec fn section_text(label: Seq<char>, lines: Seq<Seq<char>>) -> Seq<char> {
    "\nTasks for "@ + label + "\n"@ + lines_text(lines)
}

/// Whether every group of `gs` is empty.
pub open spec fn all_empty(gs: Seq<Group>) -> bool {
    forall|k: int| 0 <= k < gs.len() ==> (#[trigger] gs[k]).tasks@.len() == 0
}

proof fn lemma_flat_empty(gs: Seq<Group>)
    ensures
        (flat(gs).len() == 0) == all_empty(gs),
    decreases gs.len(),
{
    if gs.len() > 0 {
        lemma_flat_empty(gs.drop_last());
        if all_empty(gs) {
            assert(all_empty(gs.drop_last())) by {
                assert forall|k: int| 0 <= k < gs.len() - 1 implies (
                #[trigger] gs.drop_last()[k]).tasks@.len() == 0 by {
                    assert(gs.drop_last()[k] == gs[k]);
                }
            }
        }
        if flat(gs).len() == 0 {
            assert forall|k: int| 0 <= k < gs.len() implies (#[trigger] gs[k]).tasks@.len()
                == 0 by {
                if k < gs.len() - 1 {
                    assert(gs.drop_last()[k] == gs[k]);
                }
            }
        }
    }
}

/// The groups of a view, each sorted by `order` under its own label; `None`
/// when no group holds a task.
pub fn view_groups(groups: Vec<Group>, order: SortOrder) -> (r: Option<Vec<Group>>)
    ensures
        r is None <==> flat(groups@).len() == 0,
        r matches Some(v) ==> v@.len() == groups@.len() && forall|k: int|
            0 <= k < v@.len() ==> (#[trigger] v@[k]).label == groups@[k].label && v@[k].tasks@
                == sorted_by(groups@[k].tasks@, order),
{
    proof {
        lemma_flat_empty(groups@);
    }
    let ghost orig = groups@;
    let n: usize = groups.len();
    let mut rest = groups;
    let mut out: Vec<Group> = Vec::new();
    let mut any: bool = false;
    let mut i: usize = 0;
    while rest.len() > 0
        invariant
            i <= n,
            n == orig.len(),
            rest@ == orig.subrange(i as int, n as int),
            out@.len() == i,
            any == exists|k: int| 0 <= k < i && (#[trigger] orig[k]).tasks@.len() > 0,
            forall|k: int|
                0 <= k < i ==> (#[trigger] out@[k]).label == orig[k].label && out@[k].tasks@
                    == sorted_by(orig[k].tasks@, order),
        decreases rest.len(),
    {
        let g = rest.remove(0);
        if g.tasks.len() > 0 {
            any = true;
        }
        let label = g.label;
        let tasks = sort(g.tasks, order);
        out.push(Group { label, tasks });
        proof {
            assert(rest@ =~= orig.subrange(i + 1, n as int));
        }
        i += 1;
    }
    if any {
        Some(out)
    } else {
        None
    }
}

/// Appends one group of a view to `buffer`: its title, then each rendered task.
pub fn append_section(buffer: &mut String, label: &String, rendered: &Vec<String>)
    ensures
        final(buffer)@ == old(buffer)@ + section_text(
            label@,
            rendered@.map_values(|l: String| l@),
        ),
{
    let ghost start = buffer@;
    buffer.append("\nTasks for ");
    buffer.append(label.as_str());
    buffer.append("\n");
    let ghost head = buffer@;
    let mut i: usize = 0;
    while i < rendered.len()
        invariant
            i <= rendered@.len(),
            head == start + "\nTasks for "@ + label@ + "\n"@,
            buffer@ == head + lines_text(rendered@.subrange(0, i as int).map_values(|l: String| l@)),
        decreases rendered@.len() - i,
    {
        buffer.append("\n");
        buffer.append(rendered[i].as_str());
        proof {
            let a = rendered@.subrange(0, i + 1).map_values(|l: String| l@);
            assert(a.drop_last() =~= rendered@.subrange(0, i as int).map_values(|l: String| l@));
        }
        i += 1;
    }
    proof {
        assert(rendered@.subrange(0, i as int) =~= rendered@);
    }
}

} // verus!
