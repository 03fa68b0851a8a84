use icloud_recovery_desktop::checkpoint::RestoreProgress;
use icloud_recovery_desktop::job::CancellationToken;
use icloud_recovery_desktop::models::{AppPhase, Credentials, RestoreError, RestoreEvent, RestoreStats};
use icloud_recovery_desktop::redact::{redact_after_key, redact_sensitive};
use icloud_recovery_desktop::session::{failed_ids_to_retry, to_ui_error, AppSession};

#[test]
fn ui_errors_redact_sensitive_query_values() {
    let error =
        "request failed for https://www.icloud.com/?clientId=abc&dsid=123 cookie: token";

    assert_eq!(
        redact_sensitive(error),
        "request failed for https://www.icloud.com/?clientId=[redacted]&dsid=[redacted] cookie: [redacted]"
    );
}

#[test]
fn redaction_stops_at_value_delimiters_and_repeats() {
    assert_eq!(
        redact_after_key("a=1 key=x,key=  y) key=", "key="),
        "a=1 key=[redacted],key=  [redacted]) key=[redacted]"
    );
    assert_eq!(redact_after_key("nothing to hide", "dsid="), "nothing to hide");
    assert_eq!(
        redact_sensitive("Cookie: X-APPLE=1; clientBuildNumber=b&clientMasteringNumber='m'"),
        "Cookie: [redacted] clientBuildNumber=[redacted]&clientMasteringNumber=[redacted]'m'"
    );
}

#[test]
fn ui_error_keeps_id_and_redacts_details() {
    let m = to_ui_error(&RestoreError::Network("GET https://x/?dsid=42&a=b failed".to_string()));
    assert_eq!(m.id(), "error.network");
    assert_eq!(
        m.params(),
        vec![("details".to_string(), "GET https://x/?dsid=[redacted]&a=b failed".to_string())]
    );
    let m = to_ui_error(&RestoreError::AuthExpired);
    assert_eq!(m.id(), "error.authExpired");
    assert!(m.params().is_empty());
}

fn creds() -> Credentials {
    Credentials::new("ck=value".to_string(), "client".to_string(), "dsid".to_string())
}

#[test]
fn fresh_session_shows_welcome() {
    let session = AppSession::default();
    let snap = session.snapshot(false);
    assert_eq!(snap.phase, AppPhase::Welcome);
    assert_eq!(snap.deleted_count, 0);
    assert_eq!(snap.message.id(), "status.ready");
    assert!(!snap.can_resume);
    assert!(matches!(session.credentials(), Err(RestoreError::MissingCredentials)));
    assert!(matches!(session.scanned_item_ids(), Err(RestoreError::MissingScan)));
}

#[test]
fn sign_in_then_scan_then_restore() {
    let mut session = AppSession::default();
    session.begin_sign_in();
    assert_eq!(session.phase, AppPhase::SigningIn);
    assert_eq!(session.message.id(), "status.signingIn");
    session.signed_in(creds());
    assert_eq!(session.phase, AppPhase::ReadyToScan);
    assert_eq!(session.credentials().unwrap().client_id, "client");

    session.begin_scan(CancellationToken::new());
    assert_eq!(session.phase, AppPhase::Scanning);
    session.end_operation();
    let event = session.scan_succeeded(vec!["a".to_string(), "b".to_string()]);
    assert!(matches!(event, RestoreEvent::ScanComplete { total: 2 }));
    assert_eq!(session.phase, AppPhase::ReadyToRestore);
    assert_eq!(session.message.params(), vec![("total".to_string(), "2".to_string())]);
    assert_eq!(session.snapshot(false).deleted_count, 2);
    assert_eq!(session.scanned_item_ids().unwrap(), vec!["a", "b"]);

    session.begin_restore(CancellationToken::new());
    assert_eq!(session.phase, AppPhase::Restoring);
    let stats = RestoreStats { total: 2, restored: 1, failed: 1, failed_ids: vec!["b".to_string()] };
    assert!(session.restore_finished(Ok(stats)).is_ok());
    assert_eq!(session.phase, AppPhase::Complete);
    assert_eq!(session.message.id(), "status.partialComplete");
    assert_eq!(
        session.message.params(),
        vec![
            ("failed".to_string(), "1".to_string()),
            ("restored".to_string(), "1".to_string())
        ]
    );
    assert!(session.cancellation.is_none());
}

#[test]
fn complete_restore_without_failures_says_complete() {
    let mut session = AppSession::default();
    let stats = RestoreStats { total: 3, restored: 3, failed: 0, failed_ids: Vec::new() };
    assert!(session.restore_finished(Ok(stats)).is_ok());
    assert_eq!(session.message.id(), "status.complete");
    assert_eq!(session.message.params(), vec![("restored".to_string(), "3".to_string())]);
}

#[test]
fn stopped_scan_reports_partial_count() {
    let mut session = AppSession::default();
    let event = session.scan_cancelled(7);
    assert!(matches!(event, RestoreEvent::ScanPaused { partial_total: 7 }));
    assert_eq!(session.phase, AppPhase::ReadyToScan);
    assert_eq!(session.snapshot(true).deleted_count, 7);
    assert_eq!(session.message.id(), "status.scanCancelledSave");
}

#[test]
fn cancelled_restore_pauses_and_errors_fail_the_command() {
    let mut session = AppSession::default();
    assert!(session.restore_finished(Err(RestoreError::Cancelled)).is_ok());
    assert_eq!(session.phase, AppPhase::Paused);
    assert_eq!(session.message.id(), "status.paused");

    let failed = session.restore_finished(Err(RestoreError::File("disk full".to_string())));
    let message = failed.unwrap_err();
    assert_eq!(message.id(), "error.file");
    assert_eq!(session.phase, AppPhase::Error);
}

#[test]
fn pause_and_reset_cancel_the_running_work() {
    let mut session = AppSession::default();
    let token = CancellationToken::new();
    session.begin_restore(token.clone());
    session.request_pause();
    assert!(token.is_cancelled());
    assert_eq!(session.phase, AppPhase::Paused);
    assert_eq!(session.message.id(), "status.pausePending");

    let token = CancellationToken::new();
    session.begin_scan(token.clone());
    session.reset();
    assert!(token.is_cancelled());
    assert_eq!(session.phase, AppPhase::Welcome);
}

#[test]
fn cancel_scan_only_acts_while_scanning() {
    let mut session = AppSession::default();
    let token = CancellationToken::new();
    session.begin_restore(token.clone());
    session.cancel_scan();
    assert!(!token.is_cancelled());
    let token = CancellationToken::new();
    session.begin_scan(token.clone());
    session.cancel_scan();
    assert!(token.is_cancelled());
}

#[test]
fn retry_needs_saved_failed_ids() {
    let missing = failed_ids_to_retry(None).unwrap_err();
    assert_eq!(missing.id(), "error.missingScan");
    let empty = failed_ids_to_retry(Some(RestoreProgress::default())).unwrap_err();
    assert_eq!(empty.id(), "status.retryFailedEmpty");
    let progress = RestoreProgress { restored_ids: Vec::new(), failed_ids: vec!["f".to_string()] };
    assert_eq!(failed_ids_to_retry(Some(progress)).unwrap(), vec!["f"]);
}

#[test]
fn failed_restore_shows_its_error_redacted() {
    let mut session = AppSession::default();
    session.begin_restore(CancellationToken::new());
    let failed = session.restore_finished(Err(RestoreError::Api(
        "POST https://x/?clientId=abc&dsid=42 refused".to_string(),
    )));
    let message = failed.unwrap_err();
    assert_eq!(message.id(), "error.api");
    let expected = vec![(
        "details".to_string(),
        "POST https://x/?clientId=[redacted]&dsid=[redacted] refused".to_string(),
    )];
    assert_eq!(message.params(), expected);
    assert_eq!(session.message.params(), expected);
    assert_eq!(session.phase, AppPhase::Error);
    assert!(session.cancellation.is_none());
}

#[test]
fn finished_scan_keeps_credentials_and_clears_the_token() {
    let mut session = AppSession::default();
    session.signed_in(Credentials {
        cookies: "X-APPLE=1".to_string(),
        client_id: "c".to_string(),
        dsid: "d".to_string(),
        client_build_number: "b".to_string(),
        client_mastering_number: "m".to_string(),
    });
    session.begin_scan(CancellationToken::new());
    session.end_operation();
    let event = session.scan_succeeded(vec!["a".to_string(), "b".to_string()]);
    assert!(matches!(event, RestoreEvent::ScanComplete { total: 2 }));
    assert!(session.cancellation.is_none());
    assert_eq!(session.credentials.as_ref().map(|c| c.dsid.clone()), Some("d".to_string()));
    assert_eq!(session.phase, AppPhase::ReadyToRestore);
}

#[test]
fn redaction_skips_exactly_the_white_space_that_std_knows() {
    for code in 0u32..0x3100 {
        let c = match char::from_u32(code) {
            Some(c) => c,
            None => continue,
        };
        let input = format!("k={c}x");
        let expected = if c.is_whitespace() {
            format!("k={c}[redacted]")
        } else if ['&', '"', '\'', ')', ','].contains(&c) {
            format!("k=[redacted]{c}x")
        } else {
            "k=[redacted]".to_string()
        };
        assert_eq!(redact_after_key(&input, "k="), expected, "code point {code:#x}");
    }
}

#[test]
fn starting_work_keeps_the_token_that_pause_and_stop_reach() {
    let mut session = AppSession::default();
    let scan = CancellationToken::new();
    session.begin_scan(scan.clone());
    session.cancel_scan();
    assert!(scan.is_cancelled());
    let restore = CancellationToken::new();
    session.begin_restore(restore.clone());
    session.request_pause();
    assert!(restore.is_cancelled());
}

#[test]
fn sign_in_clears_earlier_failed_ids() {
    let mut session = AppSession::default();
    session.begin_restore(CancellationToken::new());
    let stats = RestoreStats { total: 2, restored: 1, failed: 1, failed_ids: vec!["b".to_string()] };
    assert!(session.restore_finished(Ok(stats)).is_ok());
    session.begin_sign_in();
    assert!(session.stats.failed_ids.is_empty());
    assert_eq!(session.stats.failed, 0);
}
