use icloud_recovery_desktop::checkpoint::RestoreProgress;
use icloud_recovery_desktop::ids::dedupe;
use icloud_recovery_desktop::job::{
    merge_failed_for_retry, remaining_item_ids, retry_delay_secs, AttemptResult, CancellationToken,
    RestoreRun, RunStart, RunStep,
};
use icloud_recovery_desktop::models::{RestoreError, RestoreEvent};

fn ids(list: &[&str]) -> Vec<String> {
    list.iter().map(|s| s.to_string()).collect()
}

#[test]
fn remaining_item_ids_skips_already_restored_items() {
    let item_ids = vec!["a".to_string(), "b".to_string(), "c".to_string()];
    let progress = RestoreProgress {
        restored_ids: vec!["b".to_string()],
        failed_ids: Vec::new(),
    };

    assert_eq!(remaining_item_ids(&item_ids, &progress), vec!["a", "c"]);
}

#[test]
fn retry_failed_ids_are_deduped() {
    let progress = RestoreProgress {
        restored_ids: Vec::new(),
        failed_ids: vec!["a".to_string(), "a".to_string(), "b".to_string()],
    };

    assert_eq!(merge_failed_for_retry(&progress), vec!["a", "b"]);
}

#[test]
fn cancellation_token_tracks_cancel_state() {
    let token = CancellationToken::default();
    assert!(!token.is_cancelled());

    token.cancel();

    assert!(token.is_cancelled());
}

#[test]
fn cancelling_a_clone_cancels_the_original() {
    let token = CancellationToken::new();
    let other = token.clone();
    other.cancel();
    assert!(token.is_cancelled());
}

#[test]
fn dedupe_keeps_first_occurrences_in_order() {
    let mut v = ids(&["c", "a", "c", "b", "a"]);
    dedupe(&mut v);
    assert_eq!(v, vec!["c", "a", "b"]);
    let mut again = v.clone();
    dedupe(&mut again);
    assert_eq!(again, v);
}

#[test]
fn retry_delays_double_from_one_second() {
    assert_eq!(retry_delay_secs(0), 1);
    assert_eq!(retry_delay_secs(1), 2);
    assert_eq!(retry_delay_secs(2), 4);
    assert_eq!(retry_delay_secs(3), 8);
}

fn started(saved: Option<RestoreProgress>, items: Vec<String>) -> RestoreRun {
    match RestoreRun::start(saved, items) {
        RunStart::Started(run) => run,
        RunStart::Finished(_) => panic!("expected a run with batches"),
    }
}

#[test]
fn run_with_everything_restored_finishes_at_once() {
    let saved = RestoreProgress { restored_ids: ids(&["a", "b", "a"]), failed_ids: ids(&["x", "x"]) };
    match RestoreRun::start(Some(saved), ids(&["a", "b"])) {
        RunStart::Finished(stats) => {
            assert_eq!(stats.total, 2);
            assert_eq!(stats.restored, 2);
            assert_eq!(stats.failed, 1);
            assert_eq!(stats.failed_ids, vec!["x"]);
        }
        RunStart::Started(_) => panic!("nothing was left to restore"),
    }
}

#[test]
fn run_skips_restored_items_and_counts_them() {
    let saved = RestoreProgress { restored_ids: ids(&["b"]), failed_ids: Vec::new() };
    let run = started(Some(saved), ids(&["a", "b", "c"]));
    assert_eq!(run.total(), 3);
    match run.next_step(false) {
        RunStep::Send(batch) => assert_eq!(batch, vec!["a", "c"]),
        _ => panic!("expected a batch"),
    }
}

#[test]
fn run_cuts_large_requests_into_batches_of_one_hundred() {
    let items: Vec<String> = (0..250).map(|i| format!("id-{i}")).collect();
    let mut run = started(None, items);
    let mut sizes = Vec::new();
    loop {
        match run.next_step(false) {
            RunStep::Send(batch) => {
                sizes.push(batch.len());
                let (next, result) = run.record_attempt(Ok(()));
                run = next;
                assert!(matches!(result, AttemptResult::Recorded(_)));
            }
            RunStep::Finished(stats) => {
                assert_eq!(stats.total, 250);
                assert_eq!(stats.restored, 250);
                assert_eq!(stats.failed, 0);
                break;
            }
            RunStep::Pause(_) => panic!("not cancelled"),
        }
    }
    assert_eq!(sizes, vec![100, 100, 50]);
}

#[test]
fn run_pauses_between_batches_when_cancelled() {
    let run = started(None, ids(&["a"]));
    match run.next_step(true) {
        RunStep::Pause(RestoreEvent::Paused { message }) => {
            assert_eq!(message.id(), "status.restorePaused");
        }
        _ => panic!("expected a pause"),
    }
    assert_eq!(run.progress().restored_ids.len(), 0);
}

#[test]
fn run_retries_a_failing_batch_then_records_it_as_failed() {
    let mut run = started(None, ids(&["a", "b"]));
    let mut delays = Vec::new();
    loop {
        match run.next_step(false) {
            RunStep::Send(_) => {
                let (next, result) =
                    run.record_attempt(Err(RestoreError::Network("timed out".to_string())));
                run = next;
                match result {
                    AttemptResult::Retry { delay_secs, event } => {
                        delays.push(delay_secs);
                        match event {
                            RestoreEvent::Retry { batch_number, attempt, message } => {
                                assert_eq!(batch_number, 1);
                                assert_eq!(attempt, delays.len());
                                assert_eq!(message.id(), "status.retrying");
                            }
                            _ => panic!("expected a retry event"),
                        }
                    }
                    AttemptResult::Recorded(RestoreEvent::RestoreProgress {
                        total, restored, failed, eta_seconds, message,
                    }) => {
                        assert_eq!((total, restored, failed, eta_seconds), (2, 0, 2, None));
                        assert_eq!(message.id(), "status.batchNeedsRetry");
                        assert_eq!(
                            message.params(),
                            vec![
                                ("batch".to_string(), "1".to_string()),
                                ("batches".to_string(), "1".to_string())
                            ]
                        );
                    }
                    _ => panic!("unexpected result"),
                }
            }
            RunStep::Finished(stats) => {
                assert_eq!(stats.failed, 2);
                assert_eq!(stats.failed_ids, vec!["a", "b"]);
                assert_eq!(stats.restored, 0);
                break;
            }
            RunStep::Pause(_) => panic!("not cancelled"),
        }
    }
    assert_eq!(delays, vec![1, 2, 4, 8]);
}

#[test]
fn run_ignores_cancellation_between_attempts_at_one_batch() {
    let run = started(None, ids(&["a"]));
    let (run, result) = run.record_attempt(Err(RestoreError::Api("busy".to_string())));
    assert!(matches!(result, AttemptResult::Retry { .. }));
    match run.next_step(true) {
        RunStep::Send(batch) => assert_eq!(batch, vec!["a"]),
        _ => panic!("the batch under retry is sent again"),
    }
}

#[test]
fn run_stops_when_the_session_expires() {
    let run = started(None, ids(&["a"]));
    let (run, result) = run.record_attempt(Err(RestoreError::AuthExpired));
    assert!(matches!(result, AttemptResult::Abort(RestoreError::AuthExpired)));
    assert!(run.has_outstanding_batch());
}

#[test]
fn restored_batch_is_recorded_in_progress() {
    let saved = RestoreProgress { restored_ids: ids(&["z"]), failed_ids: Vec::new() };
    let run = started(Some(saved), ids(&["a", "a", "b"]));
    let (run, result) = run.record_attempt(Ok(()));
    match result {
        AttemptResult::Recorded(RestoreEvent::RestoreProgress { total, restored, failed, message, .. }) => {
            assert_eq!((total, restored, failed), (4, 4, 0));
            assert_eq!(message.id(), "status.batchRestored");
        }
        _ => panic!("expected a progress report"),
    }
    assert_eq!(run.progress().restored_ids, vec!["z", "a", "b"]);
    match run.next_step(false) {
        RunStep::Finished(stats) => {
            assert_eq!(stats.restored, 3);
            assert_eq!(stats.total, 4);
        }
        _ => panic!("expected the end"),
    }
}

#[test]
fn retry_delay_saturates() {
    assert_eq!(retry_delay_secs(63), 1u64 << 63);
    assert_eq!(retry_delay_secs(64), u64::MAX);
    assert_eq!(retry_delay_secs(1000), u64::MAX);
}

#[test]
fn retrying_failed_items_clears_them_once_restored() {
    let saved = RestoreProgress { restored_ids: ids(&["a"]), failed_ids: ids(&["a", "b", "b"]) };
    let run = started(Some(saved), ids(&["b"]));
    assert_eq!(run.total(), 2);
    assert_eq!(run.progress().failed_ids, vec!["b"]);
    let (run, result) = run.record_attempt(Ok(()));
    assert!(matches!(result, AttemptResult::Recorded(_)));
    assert_eq!(run.progress().failed_ids, Vec::<String>::new());
    match run.next_step(false) {
        RunStep::Finished(stats) => {
            assert_eq!((stats.total, stats.restored, stats.failed), (2, 2, 0));
            assert!(stats.failed_ids.is_empty());
        }
        _ => panic!("expected the end"),
    }
}

#[test]
fn saved_id_both_restored_and_failed_counts_as_restored() {
    let saved = RestoreProgress { restored_ids: ids(&["a"]), failed_ids: ids(&["a"]) };
    match RestoreRun::start(Some(saved), ids(&["a"])) {
        RunStart::Finished(stats) => {
            assert_eq!((stats.total, stats.restored, stats.failed), (1, 1, 0));
            assert!(stats.failed_ids.is_empty());
        }
        RunStart::Started(_) => panic!("nothing was left to restore"),
    }
}

#[test]
fn failed_batch_does_not_mark_an_id_restored_earlier_in_the_run() {
    let mut items: Vec<String> = (0..100).map(|i| format!("id-{i}")).collect();
    items.push("id-0".to_string());
    let mut run = started(None, items);
    let (next, _) = run.record_attempt(Ok(()));
    run = next;
    loop {
        match run.next_step(false) {
            RunStep::Send(batch) => {
                assert_eq!(batch, vec!["id-0"]);
                let (next, _) = run.record_attempt(Err(RestoreError::Api("busy".to_string())));
                run = next;
            }
            RunStep::Finished(stats) => {
                assert_eq!((stats.total, stats.restored, stats.failed), (101, 100, 0));
                break;
            }
            RunStep::Pause(_) => panic!("not cancelled"),
        }
    }
}
