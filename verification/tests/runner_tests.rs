use task_runner::outcome::Outcome;
use task_runner::runner::{record_outcome, run};
use task_runner::table::ResultTable;
use task_runner::task::Task;

fn succeeding(id: &str, duration_ms: u64) -> Task {
    Task { id: String::from(id), duration_ms, fails_with: None }
}

fn failing(id: &str, reason: &str) -> Task {
    Task { id: String::from(id), duration_ms: 0, fails_with: Some(String::from(reason)) }
}

#[test]
fn two_tasks_both_succeed() {
    let tasks = vec![succeeding("task1", 1000), succeeding("task2", 2000)];
    let table = run(&tasks);
    assert_eq!(table.len(), 2);
    assert!(matches!(table.get("task1"), Some(Outcome::Success)));
    assert!(matches!(table.get("task2"), Some(Outcome::Success)));
}

#[test]
fn failing_task_keeps_its_reason() {
    let tasks = vec![failing("task9", "Not Found")];
    let table = run(&tasks);
    assert_eq!(table.len(), 1);
    match table.get("task9") {
        Some(Outcome::Failure(reason)) => assert_eq!(reason, "Not Found"),
        other => panic!("expected a failure, got {:?}", other),
    }
}

#[test]
fn one_entry_per_identifier() {
    let tasks = vec![
        succeeding("a", 1),
        failing("b", "boom"),
        succeeding("c", 2),
        failing("d", "late"),
    ];
    let table = run(&tasks);
    assert_eq!(table.len(), 4);
    for id in ["a", "b", "c", "d"] {
        assert!(table.get(id).is_some());
    }
    assert!(table.get("e").is_none());
}

#[test]
fn empty_task_set_gives_empty_table() {
    let tasks: Vec<Task> = vec![];
    let table = run(&tasks);
    assert_eq!(table.len(), 0);
    assert!(table.get("task1").is_none());
}

#[test]
fn mixed_outcomes_are_recorded_exactly() {
    let tasks = vec![succeeding("ok", 5), failing("bad", "no luck")];
    let table = run(&tasks);
    assert!(matches!(table.get("ok"), Some(Outcome::Success)));
    match table.get("bad") {
        Some(Outcome::Failure(reason)) => assert_eq!(reason, "no luck"),
        other => panic!("expected a failure, got {:?}", other),
    }
}

#[test]
fn duplicate_identifier_overwrites() {
    let tasks = vec![succeeding("same", 1), failing("same", "second wins")];
    let table = run(&tasks);
    assert_eq!(table.len(), 1);
    match table.get("same") {
        Some(Outcome::Failure(reason)) => assert_eq!(reason, "second wins"),
        other => panic!("expected the later write, got {:?}", other),
    }
}

#[test]
fn write_order_does_not_change_the_table() {
    let mut first = ResultTable::new();
    record_outcome(&mut first, String::from("a"), Ok(()));
    record_outcome(&mut first, String::from("b"), Err(String::from("boom")));
    record_outcome(&mut first, String::from("c"), Ok(()));

    let mut second = ResultTable::new();
    record_outcome(&mut second, String::from("c"), Ok(()));
    record_outcome(&mut second, String::from("a"), Ok(()));
    record_outcome(&mut second, String::from("b"), Err(String::from("boom")));

    assert_eq!(first.len(), second.len());
    for id in ["a", "b", "c"] {
        match (first.get(id), second.get(id)) {
            (Some(Outcome::Success), Some(Outcome::Success)) => {}
            (Some(Outcome::Failure(r1)), Some(Outcome::Failure(r2))) => assert_eq!(r1, r2),
            other => panic!("tables disagree under {:?}: {:?}", id, other),
        }
    }
}

#[test]
fn work_result_decides_the_outcome() {
    let mut table = ResultTable::new();
    record_outcome(&mut table, String::from("direct"), Err(String::from("Not Found")));
    match table.get("direct") {
        Some(Outcome::Failure(reason)) => assert_eq!(reason, "Not Found"),
        other => panic!("expected a failure, got {:?}", other),
    }
    record_outcome(&mut table, String::from("direct"), Ok(()));
    assert!(matches!(table.get("direct"), Some(Outcome::Success)));
    assert_eq!(table.len(), 1);
}

#[test]
fn task_accessors_report_the_task() {
    let task = succeeding("task1", 1000);
    assert_eq!(task.id(), "task1");
    assert!(task.work().is_ok());
    let task = failing("task2", "Not Found");
    assert_eq!(task.work().unwrap_err(), "Not Found");
}
