use vstd::prelude::*;

use crate::outcome::{outcome_of, outcome_of_work, work_view, OutcomeView};
use crate::table::{
    ids_of, lemma_table_of_dom, lemma_table_of_index, lemma_table_of_permutation, table_of,
    RecordedPair, ResultTable,
};
use crate::task::{expected_outcome, Task, TaskView};

verus! {

/// The values of a sequence of tasks.
pub open spec fn views_of(tasks: Seq<Task>) -> Seq<TaskView> {
    tasks.map_values(|t: Task| t@)
}

/// The identifiers of a sequence of tasks, in order.
pub open spec fn task_ids(tasks: Seq<TaskView>) -> Seq<Seq<char>> {
    tasks.map_values(|t: TaskView| t.id)
}

/// No two tasks carry the same identifier.
pub open spec fn unique_ids(tasks: Seq<TaskView>) -> bool {
    task_ids(tasks).no_duplicates()
}

/// The write a finished task makes: its identifier with its outcome.
pub open spec fn recorded_pair(t: TaskView) -> RecordedPair {
    (t.id, expected_outcome(t))
}

/// The writes a run makes, one per task, in submission order.
pub open spec fn recorded_pairs(tasks: Seq<TaskView>) -> Seq<RecordedPair> {
    tasks.map_values(|t: TaskView| recorded_pair(t))
}

/// The table a run over a sequence of tasks produces: every task's outcome
/// under its identifier, a later task overwriting an earlier one that carries
/// the same identifier.
pub open spec fn run_model(tasks: Seq<TaskView>) -> Map<Seq<char>, OutcomeView> {
    table_of(recorded_pairs(tasks))
}

/// What a worker does once its task's unit of work has finished: turn the
/// work's result into an outcome and record it under the task's identifier.
/// Mutual exclusion on the table is the caller's side of the bargain; the
/// contract says what one serialized write does.
pub fn record_outcome(table: &mut ResultTable, id: String, work: Result<(), String>)
    requires
        old(table).wf(),
    ensures
        final(table).wf(),
        final(table)@ == old(table)@.insert(id@, outcome_of_work(work_view(work))),
{
    let outcome = outcome_of(work);
    table.insert(id, outcome);
}

/// Runs every task and collects the outcomes: each task's unit of work is
/// brought to its end and its outcome is recorded under the task's
/// identifier. The call returns only once every task has been run and its
/// outcome stands in the table.
pub fn run(tasks: &Vec<Task>) -> (table: ResultTable)
    ensures
        table.wf(),
        table@ == run_model(views_of(tasks@)),
{
    let mut table = ResultTable::new();
    let n = tasks.len();
    let mut i: usize = 0;
    while i < n
        invariant
            i <= n == tasks@.len(),
            table.wf(),
            table@ == table_of(recorded_pairs(views_of(tasks@)).take(i as int)),
        decreases n - i,
    {
        let work = tasks[i].work();
        let id = tasks[i].id.clone();
        record_outcome(&mut table, id, work);
        proof {
            let pairs = recorded_pairs(views_of(tasks@));
            assert(pairs.take(i + 1).drop_last() =~= pairs.take(i as int));
            assert(pairs.take(i + 1).last() == recorded_pair(tasks@[i as int]@));
        }
        i += 1;
    }
    proof {
        let pairs = recorded_pairs(views_of(tasks@));
        assert(pairs.take(n as int) =~= pairs);
    }
    table
}

/// After a run over tasks with unique identifiers the table is complete: it
/// holds exactly one entry per submitted identifier — its keys are the tasks'
/// identifiers, no entry is missing, and none is left over.
pub proof fn lemma_run_complete(tasks: Seq<TaskView>)
    requires
        unique_ids(tasks),
    ensures
        run_model(tasks).dom() == task_ids(tasks).to_set(),
        run_model(tasks).dom().len() == tasks.len(),
{
    let pairs = recorded_pairs(tasks);
    assert(ids_of(pairs) =~= task_ids(tasks));
    lemma_table_of_dom(pairs);
    task_ids(tasks).unique_seq_to_set();
}

/// Each task's recorded outcome is exactly what its unit of work produced: a
/// work that succeeds is recorded as `Success`, one that fails as `Failure`
/// carrying that work's own reason.
pub proof fn lemma_run_outcomes(tasks: Seq<TaskView>, i: int)
    requires
        unique_ids(tasks),
        0 <= i < tasks.len(),
    ensures
        run_model(tasks).contains_key(tasks[i].id),
        run_model(tasks)[tasks[i].id] == expected_outcome(tasks[i]),
        tasks[i].fails_with is None ==> run_model(tasks)[tasks[i].id] is Success,
        tasks[i].fails_with matches Some(reason) ==> run_model(tasks)[tasks[i].id]
            == OutcomeView::Failure(reason),
{
    let pairs = recorded_pairs(tasks);
    assert(ids_of(pairs) =~= task_ids(tasks));
    lemma_table_of_index(pairs, i);
}

/// However the scheduler interleaves the workers, the table they build is the
/// run's table: any order of writes that records each task's (identifier,
/// outcome) pair exactly once — any permutation of the run's own writes —
/// builds the same table.
pub proof fn lemma_run_order_irrelevant(tasks: Seq<TaskView>, writes: Seq<RecordedPair>)
    requires
        unique_ids(tasks),
        writes.to_multiset() == recorded_pairs(tasks).to_multiset(),
    ensures
        table_of(writes) == run_model(tasks),
{
    broadcast use vstd::seq_lib::group_to_multiset_ensures;

    let pairs = recorded_pairs(tasks);
    assert(ids_of(pairs) =~= task_ids(tasks));
    // the run's writes are pairwise distinct, for their identifiers are
    assert forall|a: int, b: int|
        0 <= a < pairs.len() && 0 <= b < pairs.len() && a != b implies pairs[a] != pairs[b] by {
        assert(ids_of(pairs)[a] != ids_of(pairs)[b]);
    };
    assert(pairs.no_duplicates());
    pairs.lemma_multiset_has_no_duplicates();
    writes.lemma_multiset_has_no_duplicates_conv();
    // and so no identifier is written twice in any permutation of them
    assert forall|a: int, b: int|
        0 <= a < writes.len() && 0 <= b < writes.len() && a != b implies ids_of(writes)[a]
        != ids_of(writes)[b] by {
        if writes[a].0 == writes[b].0 {
            assert(writes.contains(writes[a]));
            assert(writes.to_multiset().count(writes[a]) > 0);
            assert(pairs.contains(writes[a]));
            assert(writes.contains(writes[b]));
            assert(writes.to_multiset().count(writes[b]) > 0);
            assert(pairs.contains(writes[b]));
            let x = choose|x: int| 0 <= x < pairs.len() && pairs[x] == writes[a];
            let y = choose|y: int| 0 <= y < pairs.len() && pairs[y] == writes[b];
            assert(writes[a] != writes[b]);
            assert(x != y);
            assert(ids_of(pairs)[x] == ids_of(pairs)[y]);
            assert(false);
        }
    };
    assert(ids_of(writes).no_duplicates());
    lemma_table_of_permutation(writes, pairs);
}

} // verus!
