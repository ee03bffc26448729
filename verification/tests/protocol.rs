use fanout::collector::{
    run_bounded, run_exhaustive, BoundedCollector, CollectAction, ExhaustiveCollector, RecvEvent,
};
use fanout::joiner::{Joiner, UnitOutcome};
use fanout::reconcile::{classify_tasks, contains_id, contains_u32, reconcile, TaskStatus};
use fanout::report::{render_result_line, render_timeout_line};
use fanout::task::{generate, payload_text, Task};
use fanout::text::decimal_string;
use fanout::worker::{TaskResult, Worker, WORK_MAX_MILLIS, WORK_MIN_MILLIS};

fn mk(task_id: u32, worker_id: u32) -> TaskResult {
    TaskResult { task_id, worker_id, payload: format!("Payload-{}", task_id) }
}

#[test]
fn decimal_rendering_exact() {
    assert_eq!(decimal_string(0), "0");
    assert_eq!(decimal_string(7), "7");
    assert_eq!(decimal_string(42), "42");
    assert_eq!(decimal_string(100), "100");
    assert_eq!(decimal_string(4294967295), "4294967295");
}

#[test]
fn payload_text_matches_identifier() {
    assert_eq!(payload_text(0), "Payload-0");
    assert_eq!(payload_text(9), "Payload-9");
    assert_eq!(payload_text(10), "Payload-10");
}

#[test]
fn create_task_keeps_fields() {
    let t = Task::create_task(7, "Payload-7");
    assert_eq!(t.id, 7);
    assert_eq!(t.payload, "Payload-7");
}

#[test]
fn generate_dense_range() {
    let ts = generate(3);
    assert_eq!(ts.len(), 3);
    for (i, t) in ts.iter().enumerate() {
        assert_eq!(t.id, i as u32);
        assert_eq!(t.payload, format!("Payload-{}", i));
    }
}

#[test]
fn generate_empty_batch() {
    let ts = generate(0);
    assert!(ts.is_empty());
}

#[test]
fn worker_processes_task() {
    let w = Worker::create_worker(2);
    assert_eq!(w.id, 2);
    let t = Task::create_task(5, "Payload-5");
    let r = w.process_task(&t);
    assert_eq!(r.task_id, 5);
    assert_eq!(r.worker_id, 2);
    assert_eq!(r.payload, "Payload-5");
    // the task itself is unchanged
    assert_eq!(t.id, 5);
    assert_eq!(t.payload, "Payload-5");
}

#[test]
fn workload_draw_stays_in_bounds() {
    let w = Worker::create_worker(0);
    for _ in 0..32 {
        let d = w.draw_workload_millis();
        assert!(WORK_MIN_MILLIS <= d && d <= WORK_MAX_MILLIS);
    }
}

#[test]
fn result_line_exact() {
    let r = mk(1, 0);
    assert_eq!(render_result_line(&r), "Worker-0: Task-1: processed Payload-1");
}

#[test]
fn timeout_line_exact() {
    assert_eq!(render_timeout_line(2), "Timeout: Task-2");
}

#[test]
fn bounded_collector_event_actions() {
    let mut c = BoundedCollector::new(100, 5);
    assert_eq!(c.deadline_millis, 100);
    assert_eq!(c.poll_interval_millis, 5);
    assert!(!c.should_stop(0));
    assert!(!c.should_stop(99));
    assert!(c.should_stop(100));
    assert!(c.should_stop(101));
    assert_eq!(c.on_event(RecvEvent::Empty), CollectAction::Pause);
    assert_eq!(c.on_event(RecvEvent::Received(mk(0, 0))), CollectAction::Proceed);
    assert_eq!(c.collected.len(), 1);
    assert_eq!(c.on_event(RecvEvent::Closed), CollectAction::Stop);
    assert!(c.finished);
    assert_eq!(c.collected.len(), 1);
}

#[test]
fn exhaustive_collector_stops_at_expected_count() {
    let mut c = ExhaustiveCollector::new(2);
    assert_eq!(c.on_event(RecvEvent::Received(mk(1, 1))), CollectAction::Proceed);
    assert!(!c.finished);
    assert_eq!(c.on_event(RecvEvent::Received(mk(0, 0))), CollectAction::Stop);
    assert!(c.finished);
    assert_eq!(c.collected.len(), 2);
}

#[test]
fn exhaustive_collector_stops_on_close() {
    let mut c = ExhaustiveCollector::new(2);
    assert_eq!(c.on_event(RecvEvent::Received(mk(0, 0))), CollectAction::Proceed);
    assert_eq!(c.on_event(RecvEvent::Closed), CollectAction::Stop);
    assert!(c.finished);
    assert_eq!(c.collected.len(), 1);
}

// Scenario: three tasks whose simulated work all ends well before the
// deadline; every result is observed, nothing is missing, and the report
// lines come out in arrival order.
#[test]
fn scenario_all_in_time() {
    let schedule = vec![
        (10, RecvEvent::Received(mk(1, 1))),
        (10, RecvEvent::Received(mk(0, 0))),
        (12, RecvEvent::Empty),
        (17, RecvEvent::Received(mk(2, 2))),
        (20, RecvEvent::Empty),
        (100, RecvEvent::Empty),
    ];
    let collected = run_bounded(&schedule, 100, 5);
    assert_eq!(collected.len(), 3);
    // arrival order, not identifier order
    assert_eq!(collected[0].task_id, 1);
    assert_eq!(collected[1].task_id, 0);
    assert_eq!(collected[2].task_id, 2);
    let lines: Vec<String> = collected.iter().map(render_result_line).collect();
    assert_eq!(lines[0], "Worker-1: Task-1: processed Payload-1");
    assert_eq!(lines[1], "Worker-0: Task-0: processed Payload-0");
    assert_eq!(lines[2], "Worker-2: Task-2: processed Payload-2");
    let o = reconcile(3, &collected);
    assert_eq!(o.received, vec![0, 1, 2]);
    assert!(o.missing.is_empty());
}

// Scenario: the third task's simulated work outlasts the deadline; the other
// two are received, the third is reported as timed out, with exactly one
// timeout line.
#[test]
fn scenario_one_task_too_slow() {
    let schedule = vec![
        (10, RecvEvent::Received(mk(0, 0))),
        (10, RecvEvent::Received(mk(1, 1))),
        (15, RecvEvent::Empty),
        (100, RecvEvent::Empty),
        (105, RecvEvent::Received(mk(2, 2))),
    ];
    let collected = run_bounded(&schedule, 100, 5);
    assert_eq!(collected.len(), 2);
    let o = reconcile(3, &collected);
    assert_eq!(o.received, vec![0, 1]);
    assert_eq!(o.missing, vec![2]);
    let timeout_lines: Vec<String> =
        o.missing.iter().map(|id| render_timeout_line(*id)).collect();
    assert_eq!(timeout_lines, vec!["Timeout: Task-2".to_string()]);
}

// Scenario: a single task with identifier 7 under the exhaustive policy;
// exactly one result is received, bearing that identifier, and collection
// stops without consuming anything further.
#[test]
fn scenario_single_task() {
    let schedule = vec![
        RecvEvent::Received(TaskResult {
            task_id: 7,
            worker_id: 0,
            payload: "Payload-7".to_string(),
        }),
        RecvEvent::Closed,
    ];
    let collected = run_exhaustive(&schedule, 1);
    assert_eq!(collected.len(), 1);
    assert_eq!(collected[0].task_id, 7);
}

#[test]
fn exhaustive_run_collects_everything() {
    let schedule = vec![
        RecvEvent::Received(mk(2, 2)),
        RecvEvent::Received(mk(0, 0)),
        RecvEvent::Received(mk(1, 1)),
    ];
    let collected = run_exhaustive(&schedule, 3);
    assert_eq!(collected.len(), 3);
    let o = reconcile(3, &collected);
    assert_eq!(o.received, vec![0, 1, 2]);
    assert!(o.missing.is_empty());
}

#[test]
fn exhaustive_run_accepts_early_close() {
    let schedule = vec![RecvEvent::Received(mk(0, 0)), RecvEvent::Closed];
    let collected = run_exhaustive(&schedule, 3);
    assert_eq!(collected.len(), 1);
    let o = reconcile(3, &collected);
    assert_eq!(o.received, vec![0]);
    assert_eq!(o.missing, vec![1, 2]);
}

#[test]
fn bounded_run_stops_on_close() {
    let schedule = vec![
        (1, RecvEvent::Received(mk(0, 0))),
        (2, RecvEvent::Closed),
        (3, RecvEvent::Received(mk(1, 1))),
    ];
    let collected = run_bounded(&schedule, 100, 5);
    assert_eq!(collected.len(), 1);
    assert_eq!(collected[0].task_id, 0);
}

#[test]
fn bounded_run_keeps_nothing_at_deadline() {
    let schedule = vec![(100, RecvEvent::Received(mk(0, 0)))];
    let collected = run_bounded(&schedule, 100, 5);
    assert!(collected.is_empty());
}

#[test]
fn reconcile_empty_inputs() {
    let collected: Vec<TaskResult> = Vec::new();
    let o = reconcile(0, &collected);
    assert!(o.received.is_empty());
    assert!(o.missing.is_empty());
    let o = reconcile(3, &collected);
    assert!(o.received.is_empty());
    assert_eq!(o.missing, vec![0, 1, 2]);
}

#[test]
fn reconcile_ignores_unexpected_identifiers() {
    let collected = vec![mk(5, 0)];
    let o = reconcile(3, &collected);
    assert!(o.received.is_empty());
    assert_eq!(o.missing, vec![0, 1, 2]);
}

#[test]
fn reconcile_tolerates_duplicates() {
    let collected = vec![mk(1, 1), mk(1, 1)];
    let o = reconcile(2, &collected);
    assert_eq!(o.received, vec![1]);
    assert_eq!(o.missing, vec![0]);
}

// Reconciliation is idempotent: a second run over the same inputs yields the
// identical partition.
#[test]
fn reconcile_twice_same_partition() {
    let collected = vec![mk(0, 0), mk(2, 2)];
    let first = reconcile(4, &collected);
    let second = reconcile(4, &collected);
    assert_eq!(first.received, second.received);
    assert_eq!(first.missing, second.missing);
    assert_eq!(first.received, vec![0, 2]);
    assert_eq!(first.missing, vec![1, 3]);
}

#[test]
fn membership_helpers() {
    let collected = vec![mk(3, 0)];
    assert!(contains_id(&collected, 3));
    assert!(!contains_id(&collected, 0));
    let ids = vec![1, 4];
    assert!(contains_u32(&ids, 4));
    assert!(!contains_u32(&ids, 2));
}

#[test]
fn classify_every_task_once() {
    let collected = vec![mk(0, 0)];
    let faulted = vec![1];
    let st = classify_tasks(3, &collected, &faulted);
    assert_eq!(st.len(), 3);
    assert_eq!(st[0], TaskStatus::Received);
    assert_eq!(st[1], TaskStatus::Faulted);
    assert_eq!(st[2], TaskStatus::TimedOut);
}

#[test]
fn joiner_tracks_every_unit() {
    let mut j = Joiner::new(3);
    assert!(!j.all_terminated());
    j.record(UnitOutcome::Completed);
    j.record(UnitOutcome::Faulted);
    assert!(!j.all_terminated());
    j.record(UnitOutcome::Completed);
    assert!(j.all_terminated());
    assert_eq!(j.faulted_ids(), vec![1]);
}

#[test]
fn joiner_with_no_units() {
    let j = Joiner::new(0);
    assert!(j.all_terminated());
    assert!(j.faulted_ids().is_empty());
}
