use threadkit::worker::{
    run_contamination_round, run_counter_round, run_report, run_single_message,
    run_two_producers, Computation, FailureSignal, Orchestrator,
};

#[test]
fn one_unit_sends_hi() {
    assert_eq!(run_single_message("hi".to_owned()), "hi");
}

#[test]
fn two_producers_deliver_all_eight_in_their_own_order() {
    let batch_a: Vec<String> = ["hi", "from", "the", "thread"]
        .iter()
        .map(|s| s.to_string())
        .collect();
    let batch_b: Vec<String> = ["more", "messages", "for", "you"]
        .iter()
        .map(|s| s.to_string())
        .collect();
    let got = run_two_producers(batch_a.clone(), batch_b.clone());
    assert_eq!(got.len(), 8);
    let only_a: Vec<&String> = got.iter().filter(|m| batch_a.contains(m)).collect();
    let only_b: Vec<&String> = got.iter().filter(|m| batch_b.contains(m)).collect();
    assert_eq!(only_a, batch_a.iter().collect::<Vec<&String>>());
    assert_eq!(only_b, batch_b.iter().collect::<Vec<&String>>());
}

#[test]
fn ten_incrementing_units_make_ten() {
    let order: Vec<usize> = vec![0; 10];
    assert_eq!(run_counter_round(0, 10, &order), 10);
}

#[test]
fn increments_survive_any_join_order() {
    // always pick the last remaining handle, then a mixed order
    let reversed: Vec<usize> = (0..10).rev().collect();
    assert_eq!(run_counter_round(5, 10, &reversed), 15);
    let mixed: Vec<usize> = vec![3, 3, 0, 2, 1, 0, 0, 1, 1, 0];
    assert_eq!(run_counter_round(100, 10, &mixed), 110);
}

#[test]
fn failures_are_collected_not_propagated() {
    let (successes, failures) = run_report();
    assert_eq!(successes, vec![7, 9]);
    assert_eq!(failures, 1);
}

#[test]
fn join_surfaces_failure_as_signal() {
    let mut orch = Orchestrator::new(0);
    let h = orch.launch(Computation::Fail);
    assert_eq!(orch.join(h), Err(FailureSignal));
}

#[test]
fn join_returns_the_unit_value() {
    let mut orch = Orchestrator::new(0);
    let h = orch.launch(Computation::Finish(12345));
    assert_eq!(orch.join(h), Ok(12345));
}

#[test]
fn contaminated_lock_fails_later_units_until_acknowledged() {
    let (first, second, value) = run_contamination_round(77);
    assert_eq!(first, Err(FailureSignal));
    assert_eq!(second, Err(FailureSignal));
    assert_eq!(value, 77);
}

#[test]
fn increment_overflow_is_a_failure_and_contaminates() {
    let mut orch = Orchestrator::new(u64::MAX);
    let h = orch.launch(Computation::AddOne);
    assert_eq!(orch.join(h), Err(FailureSignal));
    assert!(orch.report().is_err());
    assert_eq!(orch.acknowledge(), u64::MAX);
    assert_eq!(orch.report(), Ok(u64::MAX));
}

#[test]
fn empty_batch_unit_succeeds_with_zero() {
    let mut orch = Orchestrator::new(0);
    let h = orch.launch(Computation::Produce(Vec::new()));
    assert_eq!(orch.join(h), Ok(0));
    orch.drop_main_sender();
    let rest = orch.drain();
    assert!(rest.is_empty());
}

#[test]
fn orchestrator_receives_in_send_order() {
    let mut orch = Orchestrator::new(0);
    let batch: Vec<String> = ["one", "two", "three"].iter().map(|s| s.to_string()).collect();
    let h = orch.launch(Computation::Produce(batch));
    assert_eq!(orch.join(h), Ok(3));
    orch.drop_main_sender();
    assert_eq!(orch.recv_one(), Ok("one".to_owned()));
    assert_eq!(orch.recv_one(), Ok("two".to_owned()));
    assert_eq!(orch.recv_one(), Ok("three".to_owned()));
    assert_eq!(orch.recv_one(), Err(threadkit::channel::Disconnected));
}
