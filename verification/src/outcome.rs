use vstd::prelude::*;

verus! {

/// The terminal result of a task: success, or a failure with its reason.
#[derive(Debug)]
pub enum Outcome {
    Success,
    Failure(String),
}

/// The mathematical value of an `Outcome`: the reason as a character sequence.
pub enum OutcomeView {
    Success,
    Failure(Seq<char>),
}

impl View for Outcome {
    type V = OutcomeView;

    open spec fn view(&self) -> OutcomeView {
        match self {
            Outcome::Success => OutcomeView::Success,
            Outcome::Failure(reason) => OutcomeView::Failure(reason@),
        }
    }
}

/// The value of a work result: the failure reason as a character sequence.
pub open spec fn work_view(work: Result<(), String>) -> Result<(), Seq<char>> {
    match work {
        Ok(_) => Ok(()),
        Err(reason) => Err(reason@),
    }
}

/// The outcome a finished unit of work yields: success stays success, and a
/// failure keeps its reason.
pub open spec fn outcome_of_work(work: Result<(), Seq<char>>) -> OutcomeView {
    match work {
        Ok(_) => OutcomeView::Success,
        Err(reason) => OutcomeView::Failure(reason),
    }
}

/// Converts the result of a task's unit of work into the outcome recorded for
/// the task.
pub fn outcome_of(work: Result<(), String>) -> (o: Outcome)
    ensures
        o@ == outcome_of_work(work_view(work)),
{
    match work {
        Ok(_) => Outcome::Success,
        Err(reason) => Outcome::Failure(reason),
    }
}

} // verus!
