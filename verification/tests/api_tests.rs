use icloud_recovery_desktop::api::{
    batch_item_ids, check_item_status, default_restore_batches, ensure_auth, max_retries,
    parse_tombstones, restore_url, status_code_as_string, tombstone_query, tombstones_url,
    trim_end_char, FetchProgress, ItemStatus, PageRequest, ScanRun, ScanStart, StatusCodeValue,
    TombstoneDocument, DEFAULT_BASE_URL,
};
use icloud_recovery_desktop::checkpoint::{
    CheckpointStore, FetchCheckpoint, Removal, RestoreProgress, StoredJson,
};
use icloud_recovery_desktop::models::{Credentials, RestoreError};

fn creds() -> Credentials {
    Credentials::new("ck=value".to_string(), "client".to_string(), "dsid".to_string())
}

#[test]
fn batches_item_ids_in_requested_size() {
    let ids = vec!["a".to_string(), "b".to_string(), "c".to_string()];

    assert_eq!(
        batch_item_ids(&ids, 2),
        vec![vec!["a".to_string(), "b".to_string()], vec!["c".to_string()]]
    );
}

#[test]
fn zero_batch_size_returns_no_batches() {
    let ids = vec!["a".to_string()];

    assert!(batch_item_ids(&ids, 0).is_empty());
}

#[test]
fn default_batches_hold_one_hundred_and_retries_are_five() {
    let ids: Vec<String> = (0..201).map(|i| i.to_string()).collect();
    let batches = default_restore_batches(&ids);
    assert_eq!(batches.iter().map(|b| b.len()).collect::<Vec<_>>(), vec![100, 100, 1]);
    assert_eq!(batches.concat(), ids);
    assert_eq!(max_retries(), 5);
    assert!(default_restore_batches(&[]).is_empty());
}

#[test]
fn session_expiry_statuses_map_to_auth_expired() {
    assert!(matches!(ensure_auth(421), Err(RestoreError::AuthExpired)));
    assert!(matches!(ensure_auth(401), Err(RestoreError::AuthExpired)));
    assert!(matches!(ensure_auth(403), Err(RestoreError::AuthExpired)));
    assert!(ensure_auth(200).is_ok());
    assert!(ensure_auth(500).is_ok());
}

#[test]
fn item_status_failure_is_reported_with_its_message() {
    let status = ItemStatus {
        status_code: Some(StatusCodeValue::Text("503".to_string())),
        status_message: Some("try later".to_string()),
    };
    assert!(matches!(check_item_status(Some(&status)), Err(RestoreError::Api(m)) if m == "try later"));

    let no_message = ItemStatus {
        status_code: Some(StatusCodeValue::Rendered("500".to_string())),
        status_message: None,
    };
    assert!(matches!(
        check_item_status(Some(&no_message)),
        Err(RestoreError::Api(m)) if m == "iCloud did not restore this batch."
    ));

    let ok = ItemStatus { status_code: Some(StatusCodeValue::Rendered("200".to_string())), status_message: None };
    assert!(check_item_status(Some(&ok)).is_ok());
    let quoted = ItemStatus { status_code: Some(StatusCodeValue::Text("200".to_string())), status_message: None };
    assert!(check_item_status(Some(&quoted)).is_ok());
    let none = ItemStatus { status_code: None, status_message: Some("x".to_string()) };
    assert!(check_item_status(Some(&none)).is_ok());
    assert!(check_item_status(None).is_ok());
    assert_eq!(status_code_as_string(Some(&StatusCodeValue::Rendered("true".to_string()))), Some("true".to_string()));
}

#[test]
fn tombstones_without_id_are_skipped() {
    let docs = vec![
        TombstoneDocument { item_id: Some("one".to_string()), name: Some("a.txt".to_string()), item_type: Some("FILE".to_string()) },
        TombstoneDocument { item_id: None, name: Some("ghost".to_string()), item_type: None },
        TombstoneDocument { item_id: Some("two".to_string()), name: None, item_type: Some("FOLDER".to_string()) },
    ];
    let items = parse_tombstones(docs);
    assert_eq!(items.len(), 2);
    assert_eq!(items[0].item_id, "one");
    assert_eq!(items[0].name.as_deref(), Some("a.txt"));
    assert_eq!(items[1].item_id, "two");
    assert_eq!(items[1].item_type.as_deref(), Some("FOLDER"));
}

#[test]
fn scan_resumes_from_checkpoint_marker() {
    let saved = FetchCheckpoint {
        item_ids: vec!["one".to_string()],
        continuation_marker: Some("next".to_string()),
        page: 1,
        complete: false,
    };
    let run = match ScanRun::start(Some(saved)) {
        ScanStart::Fetch(run) => run,
        ScanStart::Done { .. } => panic!("an unfinished scan continues"),
    };
    let (run, request) = run.next_page(false);
    match request {
        PageRequest::Fetch { marker } => assert_eq!(marker.as_deref(), Some("next")),
        PageRequest::Cancelled => panic!("not cancelled"),
    }
    let docs = vec![TombstoneDocument { item_id: Some("two".to_string()), name: None, item_type: Some("FILE".to_string()) }];
    let (run, progress) = run.record_page(docs, None, Some("OK".to_string()));
    assert_eq!(progress, FetchProgress { page: 2, page_count: 1, total: 2 });
    assert!(run.is_complete());
    let checkpoint = run.checkpoint();
    assert_eq!(checkpoint.item_ids, vec!["one", "two"]);
    assert_eq!(checkpoint.page, 2);
    let items = run.into_items();
    assert_eq!(items.iter().map(|i| i.item_id.as_str()).collect::<Vec<_>>(), vec!["one", "two"]);
}

#[test]
fn scan_continues_while_more_is_available() {
    let run = match ScanRun::start(None) {
        ScanStart::Fetch(run) => run,
        ScanStart::Done { .. } => panic!("a new scan fetches"),
    };
    let (run, request) = run.next_page(false);
    assert!(matches!(request, PageRequest::Fetch { marker: None }));
    let (run, _) = run.record_page(Vec::new(), Some("m2".to_string()), Some("MORE_AVAILABLE".to_string()));
    assert!(!run.is_complete());
    let (run, _) = run.record_page(Vec::new(), None, Some("MORE_AVAILABLE".to_string()));
    assert!(run.is_complete());
    let (_, request) = run.next_page(true);
    assert!(matches!(request, PageRequest::Cancelled));
}

#[test]
fn finished_checkpoint_gives_its_items_at_once() {
    let saved = FetchCheckpoint {
        item_ids: vec!["a".to_string(), "b".to_string()],
        continuation_marker: None,
        page: 3,
        complete: true,
    };
    match ScanRun::start(Some(saved)) {
        ScanStart::Done { items, progress } => {
            assert_eq!(progress, FetchProgress { page: 3, page_count: 0, total: 2 });
            assert_eq!(items[1].item_id, "b");
            assert!(items[1].name.is_none());
        }
        ScanStart::Fetch(_) => panic!("a finished scan is not fetched again"),
    }
}

#[test]
fn request_urls_carry_the_session() {
    assert_eq!(trim_end_char("https://h.example//", '/'), "https://h.example");
    let url = tombstones_url("https://h.example/", &creds(), Some("next page")).unwrap();
    assert_eq!(
        url,
        "https://h.example/ws/_all_/list/enumerate/tombstones?clientBuildNumber=2546Build54&clientMasteringNumber=2546Build54&clientId=client&dsid=dsid&limit=2000&unified_format=true&nextPage=next+page"
    );
    let url = restore_url(DEFAULT_BASE_URL, &creds()).unwrap();
    assert_eq!(
        url,
        "https://p107-docws.icloud.com/v1/items?clientBuildNumber=2546Build54&clientMasteringNumber=2546Build54&clientId=client&dsid=dsid"
    );
    assert!(matches!(restore_url("not a url", &creds()), Err(RestoreError::Api(_))));
    assert_eq!(tombstone_query(&creds(), None).len(), 6);
}

#[test]
fn corrupt_progress_is_not_silently_ignored() {
    let store = CheckpointStore::new("/tmp/cloudnest-test".to_string());
    let error = store
        .load_progress(StoredJson::Corrupt("key must be a string at line 1 column 2".to_string()))
        .unwrap_err();

    assert!(matches!(error, RestoreError::ProgressCorrupt(_)));
}

#[test]
fn stored_files_are_interpreted() {
    let store = CheckpointStore::new("/data".to_string());
    assert!(store.checkpoint_path().ends_with("icloud_restore_checkpoint.json"));
    assert!(store.progress_path().ends_with("icloud_restore_progress.json"));
    assert!(store.load_checkpoint(StoredJson::Missing).unwrap().is_none());
    assert!(matches!(store.load_checkpoint(StoredJson::Unreadable("denied".to_string())), Err(RestoreError::File(m)) if m == "denied"));
    let progress = RestoreProgress { restored_ids: vec!["ok-1".to_string()], failed_ids: vec!["bad-1".to_string()] };
    let loaded = store.load_progress(StoredJson::Parsed(progress)).unwrap().unwrap();
    assert_eq!(loaded.restored_ids, vec!["ok-1"]);
    assert!(store.clear_checkpoint(Removal::NotFound).is_ok());
    assert!(store.clear_checkpoint(Removal::Removed).is_ok());
    assert!(matches!(store.clear_checkpoint(Removal::Failed("busy".to_string())), Err(RestoreError::File(_))));
    assert!(matches!(store.save_result(Err("full".to_string())), Err(RestoreError::File(m)) if m == "full"));
}

fn doc(id: Option<&str>) -> TombstoneDocument {
    TombstoneDocument { item_id: id.map(|s| s.to_string()), name: None, item_type: None }
}

#[test]
fn scan_checkpoint_holds_start_ids_then_each_page_in_order() {
    let saved = FetchCheckpoint {
        item_ids: vec!["s".to_string()],
        continuation_marker: Some("m0".to_string()),
        page: 3,
        complete: false,
    };
    let mut run = match ScanRun::start(Some(saved)) {
        ScanStart::Fetch(run) => run,
        ScanStart::Done { .. } => panic!("an unfinished scan continues"),
    };
    let answers = vec![
        (vec![doc(Some("a")), doc(None), doc(Some("b"))], Some("m1"), "MORE_AVAILABLE"),
        (vec![doc(Some("c"))], Some("m2"), "MORE_AVAILABLE"),
    ];
    for (docs, marker, status) in answers {
        let (next, _) = run.next_page(false);
        let (next, _) = next.record_page(docs, marker.map(|m| m.to_string()), Some(status.to_string()));
        run = next;
    }
    let checkpoint = run.checkpoint();
    assert_eq!(checkpoint.item_ids, vec!["s", "a", "b", "c"]);
    assert_eq!(checkpoint.page, 5);
    assert_eq!(checkpoint.continuation_marker.as_deref(), Some("m2"));
    assert!(!checkpoint.complete);
}

#[test]
fn store_paths_join_the_directory_and_the_file_name() {
    let store = CheckpointStore::new("/data/app".to_string());
    let checkpoint = store.checkpoint_path();
    let progress = store.progress_path();
    assert!(checkpoint.starts_with("/data/app"));
    assert!(checkpoint.ends_with("icloud_restore_checkpoint.json"));
    assert!(progress.starts_with("/data/app"));
    assert!(progress.ends_with("icloud_restore_progress.json"));
    assert_ne!(checkpoint, progress);
}
