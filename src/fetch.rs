use vstd::prelude::*;
use crate::task::Comment;

verus! {

/// What fetching one task's comments came to.
#[derive(Debug)]
pub enum CommentFetch {
    Fetched(Vec<Comment>),
    /// The service answered with an error: where it came from, and what it said.
    Failed { source: String, message: String },
    /// The fetch did not run to completion.
    Lost,
}

/// What the walker is given for one task.
#[derive(Debug)]
pub enum WalkPlan {
    /// Show the task with these comments; `notice` is printed first.
    Present { comments: Vec<Comment>, show_project: bool, notice: Option<String> },
    /// Pass the task over.
    Skip,
}

/// The notice printed when a task's comments could not be fetched.
pub open spec fn failure_notice(source: Seq<char>, message: Seq<char>) -> Seq<char> {
    "Could not fetch comments from "@ + source + ": "@ + message
}

/// Whether `p` is the plan for a task whose comment fetch came to `f`: the
/// fetched comments, or none and a notice after a failure; a lost fetch
/// passes the task over.
pub open spec fn plan_fits(p: WalkPlan, f: CommentFetch, with_project: bool) -> bool {
    match f {
        CommentFetch::Fetched(cs) => match p {
            WalkPlan::Present { comments, show_project, notice } => comments@ == cs@
                && show_project == with_project && notice is None,
            WalkPlan::Skip => false,
        },
        CommentFetch::Failed { source, message } => match p {
            WalkPlan::Present { comments, show_project, notice } => comments@.len() == 0
                && !show_project && match notice {
                Some(n) => n@ == failure_notice(source@, message@),
                None => false,
            },
            WalkPlan::Skip => false,
        },
        CommentFetch::Lost => p is Skip,
    }
}

/// The plan for one task.
pub fn plan_for(f: CommentFetch, with_project: bool) -> (p: WalkPlan)
    ensures
        plan_fits(p, f, with_project),
{
    match f {
        CommentFetch::Fetched(cs) => WalkPlan::Present {
            comments: cs,
            show_project: with_project,
            notice: None,
        },
        CommentFetch::Failed { source, message } => {
            let n = String::from_str("Could not fetch comments from ");
            let n = n.concat(source.as_str());
            let n = n.concat(": ");
            let n = n.concat(message.as_str());
            WalkPlan::Present { comments: Vec::new(), show_project: false, notice: Some(n) }
        },
        CommentFetch::Lost => WalkPlan::Skip,
    }
}

/// One plan per fetch, in the order of the fetches, whichever of them failed.
pub fn plan_walks(fetched: Vec<CommentFetch>, with_project: bool) -> (r: Vec<WalkPlan>)
    ensures
        r@.len() == fetched@.len(),
        forall|k: int| 0 <= k < r@.len() ==> plan_fits(#[trigger] r@[k], fetched@[k], with_project),
{
    let ghost orig = fetched@;
    let n: usize = fetched.len();
    let mut rest = fetched;
    let mut out: Vec<WalkPlan> = Vec::new();
    let mut i: usize = 0;
    while rest.len() > 0
        invariant
            i <= n,
            n == orig.len(),
            rest@ == orig.subrange(i as int, n as int),
            out@.len() == i,
            forall|k: int| 0 <= k < i ==> plan_fits(#[trigger] out@[k], orig[k], with_project),
        decreases rest.len(),
    {
        let f = rest.remove(0);
        let p = plan_for(f, with_project);
        out.push(p);
        proof {
            assert(rest@ =~= orig.subrange(i + 1, n as int));
        }
        i += 1;
    }
    out
}

} // verus!
