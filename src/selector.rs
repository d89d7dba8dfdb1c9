use vstd::prelude::*;
use crate::select::Operation;

verus! {

/// A project of the remote service.
#[derive(Clone, Debug)]
pub struct Project {
    pub id: String,
    pub name: String,
}

/// What a batch run fetches: every task of a project, or the tasks that a
/// filter query returns.
#[derive(Clone, Debug)]
pub enum Flag {
    Project(Project),
    Filter(String),
}

/// The web address of a project.
pub open spec fn project_url(p: Project) -> Seq<char> {
    "https://app.todoist.com/app/project/"@ + p.id@
}

/// How a selector is shown to the user: a project by its name and web
/// address, a filter by its query in single quotes.
pub open spec fn flag_text(f: Flag) -> Seq<char> {
    match f {
        Flag::Project(p) => p.name@ + "\n"@ + project_url(p),
        Flag::Filter(q) => "'"@ + q@ + "'"@,
    }
}

/// The past tense that a success message uses for `op`. A view that found
/// tasks ends in the rendered list instead.
pub open spec fn verb(op: Operation) -> Seq<char> {
    match op {
        Operation::View => "viewed"@,
        Operation::Prioritize => "prioritized"@,
        Operation::Timebox => "timeboxed"@,
        Operation::Process => "processed"@,
        Operation::Label => "labeled"@,
    }
}

/// The message of a run that found nothing to do.
pub open spec fn no_tasks_text(f: Flag) -> Seq<char> {
    "No tasks for "@ + flag_text(f)
}

/// The message of a run that walked every task.
pub open spec fn success_text(op: Operation, f: Flag) -> Seq<char> {
    "Successfully "@ + verb(op) + " "@ + flag_text(f)
}

/// The message of a run that the user left.
pub open spec fn exited_text() -> Seq<char> {
    "Exited"@
}

impl Flag {
    /// The selector as shown to the user.
    pub fn describe(&self) -> (r: String)
        ensures
            r@ == flag_text(*self),
    {
        match self {
            Flag::Project(p) => {
                let s = p.name.clone();
                let s = s.concat("\n");
                let s = s.concat("https://app.todoist.com/app/project/");
                s.concat(p.id.as_str())
            },
            Flag::Filter(q) => {
                let s = String::from_str("'");
                let s = s.concat(q.as_str());
                s.concat("'")
            },
        }
    }

    /// Whether the walker shows each task's project: only a filter mixes
    /// tasks of several projects.
    pub fn shows_project(&self) -> (r: bool)
        ensures
            r == (*self is Filter),
    {
        match self {
            Flag::Project(_) => false,
            Flag::Filter(_) => true,
        }
    }
}

fn verb_of(op: Operation) -> (r: &'static str)
    ensures
        r@ == verb(op),
{
    match op {
        Operation::View => "viewed",
        Operation::Prioritize => "prioritized",
        Operation::Timebox => "timeboxed",
        Operation::Process => "processed",
        Operation::Label => "labeled",
    }
}

/// "No tasks for " followed by the selector.
pub fn no_tasks_message(flag: &Flag) -> (r: String)
    ensures
        r@ == no_tasks_text(*flag),
{
    let s = String::from_str("No tasks for ");
    let d = flag.describe();
    s.concat(d.as_str())
}

/// "Successfully ", the operation's verb, and the selector.
pub fn success_message(op: Operation, flag: &Flag) -> (r: String)
    ensures
        r@ == success_text(op, *flag),
{
    let s = String::from_str("Successfully ");
    let s = s.concat(verb_of(op));
    let s = s.concat(" ");
    let d = flag.describe();
    s.concat(d.as_str())
}

/// The message of a run that the user left.
pub fn exited_message() -> (r: String)
    ensures
        r@ == exited_text(),
{
    String::from_str("Exited")
}

} // verus!
