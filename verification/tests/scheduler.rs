use pyaco::scheduler::{ScanTask, Scheduler};
use pyaco::validate::UsageEvent;

fn tasks_named(names: &[&str]) -> Vec<ScanTask> {
    names.iter().map(|n| ScanTask { path: n.to_string() }).collect()
}

#[test]
fn never_hands_out_more_than_the_cap() {
    let mut scheduler = Scheduler::new(tasks_named(&["a", "b", "c"]), 2);
    let first = scheduler.next_task();
    let second = scheduler.next_task();
    assert!(first.is_some());
    assert!(second.is_some());
    // Both slots are taken: no third task is admitted.
    assert!(scheduler.next_task().is_none());
    scheduler.task_finished(Vec::new());
    // A freed slot admits the queued task again.
    let third = scheduler.next_task();
    assert!(third.is_some());
    assert_eq!(third.unwrap().path, "a");
}

#[test]
fn aggregates_results_and_judges_the_pass() {
    let mut scheduler = Scheduler::new(tasks_named(&["a", "b"]), 8);
    assert!(!scheduler.is_done());
    let _ = scheduler.next_task().unwrap();
    let _ = scheduler.next_task().unwrap();
    scheduler.task_finished(vec![UsageEvent {
        line_number: 4,
        path: "b".to_string(),
        class: "stray".to_string(),
    }]);
    scheduler.task_finished(Vec::new());
    assert!(scheduler.is_done());
    let outcome = scheduler.into_outcome();
    assert!(!outcome.valid);
    assert_eq!(outcome.events.len(), 1);
    assert_eq!(outcome.events[0].class, "stray");
}

#[test]
fn failed_reads_free_their_slot_without_polluting_the_aggregate() {
    let mut scheduler = Scheduler::new(tasks_named(&["a"]), 1);
    let _ = scheduler.next_task().unwrap();
    scheduler.task_failed();
    assert!(scheduler.is_done());
    let outcome = scheduler.into_outcome();
    assert!(outcome.valid);
    assert_eq!(outcome.events.len(), 0);
}
