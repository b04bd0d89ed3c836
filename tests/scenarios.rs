use pantry_locks::retry::RetryPolicy;
use pantry_locks::scenario::{deadlock_plans, final_report, new_pantry, reset_all, safe_plans, COORDINATOR, EXTRAS, RECIPE};
use pantry_locks::table::ResourceTable;
use pantry_locks::worker::{Directive, Note, Policy, TaskOutcome, TaskPlan, TaskState, Worker};

fn step(w: &mut Worker, t: &mut ResourceTable, elapsed: u64) -> Note {
    w.step(t, elapsed).0
}

fn report(t: &mut ResourceTable) -> Vec<Vec<String>> {
    final_report(t, COORDINATOR).unwrap()
}

fn strings(v: &[&str]) -> Vec<String> {
    v.iter().map(|s| s.to_string()).collect()
}

fn two_workers(plans: Vec<TaskPlan>) -> (Worker, Worker) {
    let mut it = plans.into_iter();
    let a = Worker::new(it.next().unwrap());
    let b = Worker::new(it.next().unwrap());
    (a, b)
}

#[test]
fn deadlock_plans_use_opposite_orders() {
    let p = deadlock_plans();
    assert_eq!(p.len(), 2);
    assert_eq!((p[0].first, p[0].second), (RECIPE, EXTRAS));
    assert_eq!((p[1].first, p[1].second), (EXTRAS, RECIPE));
    assert_eq!(p[0].first_item, "Captain Crunch");
    assert_eq!(p[1].first_item, "Salt");
    assert!(p.iter().all(|x| x.policy == Policy::Unsafe && x.hold_ms == 500));
}

#[test]
fn safe_plans_have_timeout_above_hold() {
    let p = safe_plans();
    assert_eq!(p.len(), 2);
    assert_eq!(p[0].second_item, "Pinch of salt");
    assert_eq!(p[1].first_item, "Pinch of sugar");
    assert_eq!(p[1].start_delay_ms, 50);
    assert!(p.iter().all(|x| x.policy == Policy::Safe && x.retry.timeout_ms >= x.hold_ms));
}

#[test]
fn deadlock_both_tasks_detect_it() {
    let mut t = new_pantry();
    let (mut w1, mut w2) = two_workers(deadlock_plans());
    assert_eq!(w1.step(&mut t, 0), (Note::Started, Directive::Sleep(0)));
    assert_eq!(step(&mut w2, &mut t, 0), Note::Started);
    assert_eq!(step(&mut w1, &mut t, 0), Note::GotFirst);
    assert_eq!(step(&mut w2, &mut t, 0), Note::GotFirst);
    assert_eq!(w1.step(&mut t, 0), (Note::AddedFirst, Directive::Sleep(500)));
    assert_eq!(step(&mut w2, &mut t, 0), Note::AddedFirst);
    assert_eq!(step(&mut w1, &mut t, 500), Note::AttemptingSecond);
    assert_eq!(step(&mut w2, &mut t, 500), Note::AttemptingSecond);
    assert_eq!(w1.step(&mut t, 0), (Note::DeadlockDetected, Directive::Continue));
    assert_eq!(step(&mut w2, &mut t, 0), Note::DeadlockDetected);
    assert_eq!(w1.step(&mut t, 0), (Note::ReleasedFirst, Directive::Stop));
    assert_eq!(step(&mut w2, &mut t, 0), Note::ReleasedFirst);
    assert_eq!(w1.outcome(), Some(TaskOutcome::Partial));
    assert_eq!(w2.outcome(), Some(TaskOutcome::Partial));
    assert_eq!(w1.state, TaskState::LockUnavailable);
    assert_eq!(report(&mut t), vec![strings(&["Captain Crunch"]), strings(&["Salt"])]);
}

#[test]
fn deadlock_one_task_detects_and_the_other_finishes() {
    let mut t = new_pantry();
    let (mut w1, mut w2) = two_workers(deadlock_plans());
    for _ in 0..4 {
        step(&mut w1, &mut t, 0);
        step(&mut w2, &mut t, 0);
    }
    assert_eq!(step(&mut w1, &mut t, 0), Note::DeadlockDetected);
    assert_eq!(step(&mut w1, &mut t, 0), Note::ReleasedFirst);
    assert_eq!(step(&mut w2, &mut t, 0), Note::GotSecond);
    assert_eq!(step(&mut w2, &mut t, 0), Note::AddedSecond);
    assert_eq!(w1.outcome(), Some(TaskOutcome::Partial));
    assert_eq!(w2.outcome(), Some(TaskOutcome::Completed));
    assert_eq!(
        report(&mut t),
        vec![strings(&["Captain Crunch", "Baking Powder"]), strings(&["Salt"])]
    );
}

#[test]
fn unsafe_blocking_first_acquire_keeps_waiting() {
    let mut t = new_pantry();
    let (mut w1, mut w2) = two_workers(deadlock_plans());
    t.try_lock(RECIPE, 9).unwrap();
    step(&mut w1, &mut t, 0);
    assert_eq!(w1.step(&mut t, 100_000), (Note::StillWaiting, Directive::Sleep(5)));
    assert_eq!(w1.state, TaskState::AcquiringFirst);
    assert_eq!(w1.outcome(), None);
    step(&mut w2, &mut t, 0);
    assert_eq!(step(&mut w2, &mut t, 0), Note::GotFirst);
}

#[test]
fn safe_scenario_completes_with_contention() {
    let mut t = new_pantry();
    let (mut w3, mut w4) = two_workers(safe_plans());
    assert_eq!(step(&mut w3, &mut t, 0), Note::Started);
    assert_eq!(w4.step(&mut t, 0), (Note::Started, Directive::Sleep(50)));
    assert_eq!(step(&mut w3, &mut t, 0), Note::GotFirst);
    assert_eq!(w3.step(&mut t, 0), (Note::AddedFirst, Directive::Sleep(100)));
    assert_eq!(step(&mut w4, &mut t, 0), Note::GotFirst);
    assert_eq!(step(&mut w4, &mut t, 0), Note::AddedFirst);
    assert_eq!(step(&mut w3, &mut t, 100), Note::ReleasedFirst);
    assert_eq!(t.holder(RECIPE), None);
    assert_eq!(step(&mut w3, &mut t, 0), Note::AttemptingSecond);
    assert_eq!(w3.step(&mut t, 0), (Note::StillWaiting, Directive::Sleep(5)));
    assert_eq!(step(&mut w4, &mut t, 100), Note::ReleasedFirst);
    assert_eq!(step(&mut w4, &mut t, 0), Note::AttemptingSecond);
    assert_eq!(step(&mut w4, &mut t, 0), Note::GotSecond);
    assert_eq!(step(&mut w3, &mut t, 50), Note::GotSecond);
    assert_eq!(step(&mut w4, &mut t, 0), Note::AddedSecond);
    assert_eq!(step(&mut w3, &mut t, 0), Note::AddedSecond);
    assert_eq!(w3.outcome(), Some(TaskOutcome::Completed));
    assert_eq!(w4.outcome(), Some(TaskOutcome::Completed));
    assert_eq!(step(&mut w4, &mut t, 0), Note::Finished);
    assert_eq!(
        report(&mut t),
        vec![
            strings(&["Captain Crunch", "Sugar"]),
            strings(&["Pinch of sugar", "Pinch of salt"])
        ]
    );
}

#[test]
fn safe_scenario_completes_one_after_the_other() {
    let mut t = new_pantry();
    let (mut w3, mut w4) = two_workers(safe_plans());
    while !w3.is_finished() {
        step(&mut w3, &mut t, 0);
    }
    while !w4.is_finished() {
        step(&mut w4, &mut t, 0);
    }
    assert_eq!(w3.outcome(), Some(TaskOutcome::Completed));
    assert_eq!(w4.outcome(), Some(TaskOutcome::Completed));
    assert_eq!(
        report(&mut t),
        vec![
            strings(&["Captain Crunch", "Sugar"]),
            strings(&["Pinch of salt", "Pinch of sugar"])
        ]
    );
}

#[test]
fn safe_task_never_holds_both_locks() {
    let mut t = new_pantry();
    let (mut w3, _) = two_workers(safe_plans());
    while !w3.is_finished() {
        let both = t.holder(RECIPE) == Some(3) && t.holder(EXTRAS) == Some(3);
        assert!(!both);
        step(&mut w3, &mut t, 0);
    }
    assert_eq!(t.holder(RECIPE), None);
    assert_eq!(t.holder(EXTRAS), None);
}

#[test]
fn safe_task_times_out_and_abandons_the_rest() {
    let mut t = new_pantry();
    let (mut w3, _) = two_workers(safe_plans());
    t.try_lock(RECIPE, 8).unwrap();
    step(&mut w3, &mut t, 0);
    assert_eq!(step(&mut w3, &mut t, 199), Note::StillWaiting);
    assert_eq!(w3.step(&mut t, 200), (Note::TimedOutFirst, Directive::Stop));
    assert_eq!(w3.outcome(), Some(TaskOutcome::Partial));
    assert_eq!(t.holder(EXTRAS), None);
    t.release(RECIPE, 8).unwrap();
    assert_eq!(report(&mut t), vec![Vec::<String>::new(), Vec::new()]);
}

#[test]
fn safe_task_times_out_on_second_lock() {
    let mut t = new_pantry();
    let plan = TaskPlan {
        id: 11,
        first: RECIPE,
        first_item: "Captain Crunch".to_string(),
        second: EXTRAS,
        second_item: "Pinch of salt".to_string(),
        policy: Policy::Safe,
        start_delay_ms: 0,
        hold_ms: 0,
        retry: RetryPolicy::new(0, 5),
    };
    let mut w = Worker::new(plan);
    t.try_lock(EXTRAS, 12).unwrap();
    for _ in 0..5 {
        step(&mut w, &mut t, 0);
    }
    assert_eq!(w.state, TaskState::AcquiringSecond);
    assert_eq!(step(&mut w, &mut t, 0), Note::TimedOutSecond);
    assert_eq!(w.state, TaskState::TimedOut);
    t.release(EXTRAS, 12).unwrap();
    assert_eq!(report(&mut t), vec![strings(&["Captain Crunch"]), Vec::new()]);
}

#[test]
fn phases_reset_between_runs() {
    let mut t = new_pantry();
    let (mut w1, mut w2) = two_workers(deadlock_plans());
    while !w1.is_finished() || !w2.is_finished() {
        step(&mut w1, &mut t, 0);
        step(&mut w2, &mut t, 0);
    }
    assert_eq!(reset_all(&mut t, COORDINATOR), Ok(()));
    assert_eq!(report(&mut t), vec![Vec::<String>::new(), Vec::new()]);
}
