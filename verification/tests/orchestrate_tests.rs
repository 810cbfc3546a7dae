use multipart_upload::dispatch::Dispatcher;
use multipart_upload::orchestrate::{sort_completed_parts, Orchestrator, UploadPhase};
use multipart_upload::part::{CompletedPart, PartSizeRange};
use multipart_upload::{plan_upload, MultipartUploadRequest};

fn ack(part_number: usize, remote_tag: &str) -> CompletedPart {
    CompletedPart {
        part_number,
        remote_tag: String::from(remote_tag),
    }
}

#[test]
fn completed_parts_are_ordered_before_complete() {
    // Scenario: every part succeeds, but out of submission order — part 3
    // first.  The complete call still receives parts ordered 1, 2, 3.
    let mut o: Orchestrator<String> = Orchestrator::new(String::from("b"), String::from("k"));
    o.on_begin_ok(String::from("txn-1"));
    o.start_uploading();
    let collected = vec![ack(3, "t3"), ack(1, "t1"), ack(2, "t2")];
    let sorted = o.on_upload_ok(collected);
    assert_eq!(o.phase(), UploadPhase::Completing);
    let numbers: Vec<usize> = sorted.iter().map(|c| c.part_number).collect();
    assert_eq!(numbers, vec![1, 2, 3]);
    let tags: Vec<&str> = sorted.iter().map(|c| c.remote_tag.as_str()).collect();
    assert_eq!(tags, vec!["t1", "t2", "t3"]);
    o.on_complete_ok();
    assert_eq!(o.phase(), UploadPhase::Completed);
}

#[test]
fn failure_during_upload_aborts_and_surfaces_it() {
    // Scenario: part 2 of 3 fails while uploading.  Begin succeeded, so an
    // abort is issued with the held transaction id, the caller receives the
    // part-2 failure verbatim, and complete is never reached.
    let mut o: Orchestrator<String> = Orchestrator::new(String::from("b"), String::from("k"));
    o.on_begin_ok(String::from("txn-held"));
    o.start_uploading();

    let mut d: Dispatcher<CompletedPart, String> = Dispatcher::new(Some(3));
    d.task_started();
    d.task_started();
    d.task_started();
    d.source_exhausted();
    d.task_completed(ack(1, "t1"));
    d.task_failed(String::from("part 2 of 3 failed"));
    let failure = d.into_result().unwrap_err();

    let abort_transaction = o.on_failure(failure.clone());
    assert_eq!(abort_transaction, "txn-held");
    assert_eq!(o.phase(), UploadPhase::Aborting);
    let surfaced = o.on_abort_done(true);
    assert_eq!(surfaced, String::from("part 2 of 3 failed"));
    assert_eq!(o.phase(), UploadPhase::Failed);
}

#[test]
fn begin_failure_returns_without_abort() {
    // A failing begin call creates no transaction: the failure goes straight
    // back and there is nothing to abort.
    let mut o: Orchestrator<String> = Orchestrator::new(String::from("b"), String::from("k"));
    let e = o.on_begin_err(String::from("access denied"));
    assert_eq!(e, String::from("access denied"));
    assert_eq!(o.phase(), UploadPhase::Failed);
    assert!(o.transaction_id().is_none());
}

#[test]
fn abort_outcome_is_discarded() {
    // Whether the abort call itself succeeds or fails, the caller receives
    // the original failure.
    for abort_succeeded in [true, false] {
        let mut o: Orchestrator<String> = Orchestrator::new(String::from("b"), String::from("k"));
        o.on_begin_ok(String::from("txn"));
        o.start_uploading();
        o.on_failure(String::from("original"));
        let surfaced = o.on_abort_done(abort_succeeded);
        assert_eq!(surfaced, String::from("original"));
    }
}

#[test]
fn sort_keeps_every_acknowledgment() {
    let input = vec![ack(5, "e"), ack(2, "b"), ack(2, "b2"), ack(9, "i"), ack(1, "a")];
    let sorted = sort_completed_parts(input);
    let numbers: Vec<usize> = sorted.iter().map(|c| c.part_number).collect();
    assert_eq!(numbers, vec![1, 2, 2, 5, 9]);
    assert_eq!(sorted.len(), 5);
}

#[test]
fn plan_upload_drives_a_full_success() {
    // End to end on the decision core: plan, begin, dispatch every part,
    // order the acknowledgments, complete.
    let request = MultipartUploadRequest {
        body: vec![vec![1, 2, 3, 4], vec![5, 6, 7]],
        bucket: String::from("bucket"),
        key: String::from("key"),
    };
    let range = PartSizeRange::new(2, 3).unwrap();
    let (mut o, parts) = plan_upload::<String>(request, range);
    assert_eq!(o.phase(), UploadPhase::Beginning);
    assert_eq!(parts.len(), 3);

    o.on_begin_ok(String::from("txn-ok"));
    o.start_uploading();
    let mut d: Dispatcher<CompletedPart, String> = Dispatcher::new(Some(2));
    let mut pending: Vec<usize> = Vec::new();
    let mut collected: Vec<CompletedPart> = Vec::new();
    let mut next = 0usize;
    while next < parts.len() || d.in_flight_count() > 0 {
        while d.wants_task() && next < parts.len() {
            d.task_started();
            pending.push(parts[next].part_number);
            next += 1;
        }
        if next == parts.len() {
            d.source_exhausted();
        }
        // Finish the most recently started task first: out of submission
        // order on purpose.
        if let Some(n) = pending.pop() {
            d.task_completed(ack(n, &format!("tag-{}", n)));
        }
        assert!(d.in_flight_count() <= 2);
    }
    let mut outcome = d.into_result().unwrap();
    while let Some(c) = outcome.pop() {
        collected.push(c);
    }
    let sorted = o.on_upload_ok(collected);
    let numbers: Vec<usize> = sorted.iter().map(|c| c.part_number).collect();
    assert_eq!(numbers, vec![1, 2, 3]);
    o.on_complete_ok();
    assert_eq!(o.phase(), UploadPhase::Completed);
}
