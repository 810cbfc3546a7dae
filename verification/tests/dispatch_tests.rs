use multipart_upload::dispatch::{limit_is_valid, Dispatcher};

#[test]
fn bounded_dispatcher_never_exceeds_limit() {
    // Five synthetic tasks under a limit of two: the recorded in-flight
    // count never passes two, and every output is collected.
    let limit = 2usize;
    let mut d: Dispatcher<usize, String> = Dispatcher::new(Some(limit));
    let mut produced = 0usize;
    let total = 5usize;
    let mut active = 0usize;
    while !(produced == total && d.in_flight_count() == 0) {
        while d.wants_task() && produced < total {
            d.task_started();
            active += 1;
            produced += 1;
            assert!(active <= limit);
            assert!(d.in_flight_count() <= limit);
        }
        if produced == total {
            d.source_exhausted();
        }
        if d.in_flight_count() > 0 {
            d.task_completed(produced - d.in_flight_count());
            active -= 1;
        }
        assert!(d.in_flight_count() <= limit);
    }
    assert!(d.is_finished());
    let outputs = d.into_result().unwrap();
    assert_eq!(outputs.len(), total);
}

#[test]
fn unbounded_dispatcher_starts_everything_at_once() {
    // With no limit, capacity never refuses a task: a hundred tasks start
    // back to back without one completion in between.
    let mut d: Dispatcher<usize, String> = Dispatcher::new(None);
    for _ in 0..100 {
        assert!(d.wants_task());
        d.task_started();
    }
    assert_eq!(d.in_flight_count(), 100);
    assert!(d.wants_task());
    d.source_exhausted();
    assert!(!d.wants_task());
    for i in 0..100 {
        d.task_completed(i);
    }
    assert!(d.is_finished());
    assert_eq!(d.into_result().unwrap().len(), 100);
}

#[test]
fn zero_limit_is_a_configuration_fault() {
    // A present zero could never issue any task: it is refused before a
    // dispatcher exists, so no task is ever started under it.
    assert!(!limit_is_valid(&Some(0)));
    assert!(limit_is_valid(&Some(1)));
    assert!(limit_is_valid(&None));
}

#[test]
fn task_failure_stops_dispatch_and_returns_it() {
    let mut d: Dispatcher<usize, String> = Dispatcher::new(Some(2));
    d.task_started();
    d.task_started();
    d.task_completed(1);
    d.task_started();
    d.task_failed(String::from("part 2 rejected"));
    assert!(!d.wants_task());
    assert!(d.has_failed());
    assert!(d.is_finished());
    assert_eq!(d.in_flight_count(), 0);
    assert_eq!(d.into_result(), Err(String::from("part 2 rejected")));
}

#[test]
fn source_failure_stops_dispatch() {
    let mut d: Dispatcher<usize, String> = Dispatcher::new(Some(3));
    d.task_started();
    d.source_failed(String::from("stream broke"));
    assert!(!d.wants_task());
    assert!(d.is_finished());
    assert_eq!(d.into_result(), Err(String::from("stream broke")));
}

#[test]
fn outputs_are_in_completion_order() {
    // Completion order is what the caller gets, not submission order.
    let mut d: Dispatcher<usize, String> = Dispatcher::new(None);
    d.task_started();
    d.task_started();
    d.task_started();
    d.source_exhausted();
    d.task_completed(2);
    d.task_completed(0);
    d.task_completed(1);
    assert_eq!(d.into_result(), Ok(vec![2, 0, 1]));
}
