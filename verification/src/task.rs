use vstd::prelude::*;

use crate::outcome::{outcome_of_work, work_view, OutcomeView};

verus! {

/// A named unit of work. The work itself is modelled as data: a task either
/// succeeds, or fails with the reason it carries. The duration says how many
/// milliseconds the work occupies its worker before it finishes.
pub struct Task {
    pub id: String,
    pub duration_ms: u64,
    pub fails_with: Option<String>,
}

/// The mathematical value of a `Task`.
pub struct TaskView {
    pub id: Seq<char>,
    pub duration_ms: u64,
    pub fails_with: Option<Seq<char>>,
}

impl View for Task {
    type V = TaskView;

    open spec fn view(&self) -> TaskView {
        TaskView {
            id: self.id@,
            duration_ms: self.duration_ms,
            fails_with: match self.fails_with {
                Option::None => Option::None,
                Option::Some(reason) => Option::Some(reason@),
            },
        }
    }
}

/// The result a task's unit of work ends in.
pub open spec fn work_of(t: TaskView) -> Result<(), Seq<char>> {
    match t.fails_with {
        Option::None => Ok(()),
        Option::Some(reason) => Err(reason),
    }
}

/// The outcome a task yields: `Success` when its work carries no failure,
/// `Failure` with the carried reason otherwise.
pub open spec fn expected_outcome(t: TaskView) -> OutcomeView {
    outcome_of_work(work_of(t))
}

impl Task {
    /// The task's identifier.
    pub fn id(&self) -> (r: &str)
        ensures
            r@ == self@.id,
    {
        self.id.as_str()
    }

    /// The deciding part of the task's unit of work: the result the work ends
    /// in, once whatever occupied the worker is over.
    pub fn work(&self) -> (r: Result<(), String>)
        ensures
            work_view(r) == work_of(self@),
    {
        match &self.fails_with {
            Option::None => Ok(()),
            Option::Some(reason) => Err(reason.clone()),
        }
    }
}

} // verus!
