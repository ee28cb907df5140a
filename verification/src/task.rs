use vstd::prelude::*;
use vstd::string::*;

verus! {

/// A task: the work to run once on a worker thread, and the identifier it is
/// known by. The pool runs boxed closures (`Box<dyn FnOnce() + Send>`); the
/// closure type is a parameter so that the bookkeeping does not depend on it.
pub struct Task<R> {
    pub runnable: R,
    pub id: String,
}

/// What `{:?}` writes for a string: the text quoted, with its special
/// characters escaped.
pub uninterp spec fn debug_text(s: Seq<char>) -> Seq<char>;

/// Writes `s` as `{:?}` does, by `<str as Debug>::fmt`.
#[verifier::external_body]
fn debug_quoted(s: &str) -> (quoted: String)
    ensures
        quoted@ == debug_text(s@),
{
    format!("{:?}", s)
}

/// How a task is shown in logs, given its identifier as `{:?}` writes it.
pub open spec fn description(debug_id: Seq<char>) -> Seq<char> {
    "Job { runnable: \"Runnable\", id: "@ + debug_id + " }"@
}

/// Builds the line that shows a task, from its identifier as `{:?}` writes it.
pub fn task_description(debug_id: &str) -> (line: String)
    ensures
        line@ == description(debug_id@),
{
    let mut line = String::from_str("Job { runnable: \"Runnable\", id: ");
    line.append(debug_id);
    line.append(" }");
    line
}

impl<R> Task<R> {
    /// Builds a task from its work and its identifier.
    pub fn new(runnable: R, id: String) -> (task: Task<R>)
        ensures
            task.id@ == id@,
            task.runnable == runnable,
    {
        Task { runnable, id }
    }

    /// The line that shows the task in logs:
    /// `Job { runnable: "Runnable", id: ID }` with the identifier quoted.
    pub fn describe(&self) -> (line: String)
        ensures
            line@ == description(debug_text(self.id@)),
    {
        let quoted = debug_quoted(self.id.as_str());
        task_description(quoted.as_str())
    }
}

} // verus!
