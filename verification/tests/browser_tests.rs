use icloud_recovery_desktop::browser::{
    capture_credentials_from_url, chrome_launch_args, credentials_from_query, launch_poll_delay_ms,
    login_setup_commands, parse_cdp_cookies, pick_page_target, CdpCookie, CdpMessage, CdpParams,
    CdpTarget, LoginWatch, WatchStep,
};
use icloud_recovery_desktop::models::{
    decimal_text, Credentials, RestoreError, UiMessage, DEFAULT_CLIENT_BUILD,
};

#[test]
fn captures_credentials_from_icloud_url() {
    let url = "https://www.icloud.com/recovery/?clientId=abc&dsid=123&clientBuildNumber=b1&clientMasteringNumber=m1";

    let captured = capture_credentials_from_url(url).unwrap();

    assert_eq!(captured.client_id, "abc");
    assert_eq!(captured.dsid, "123");
    assert_eq!(captured.client_build_number, "b1");
    assert_eq!(captured.client_mastering_number, "m1");
}

#[test]
fn ignores_urls_without_credentials() {
    assert!(capture_credentials_from_url("https://www.icloud.com/recovery/").is_none());
    assert!(capture_credentials_from_url("https://example.com/?clientId=a&dsid=b").is_none());
}

#[test]
fn missing_build_numbers_default_and_last_value_wins() {
    let captured = capture_credentials_from_url("https://p1.icloud.com/x?dsid=1&clientId=a%20b&dsid=2").unwrap();
    assert_eq!(captured.client_id, "a b");
    assert_eq!(captured.dsid, "2");
    assert_eq!(captured.client_build_number, DEFAULT_CLIENT_BUILD);
    assert_eq!(captured.client_mastering_number, DEFAULT_CLIENT_BUILD);
    assert!(capture_credentials_from_url("icloud.com is not a url").is_none());
    let pairs = vec![("clientId".to_string(), "x".to_string())];
    assert!(credentials_from_query(&pairs).is_none());
}

fn cookie(name: &str, value: &str) -> CdpCookie {
    CdpCookie { name: Some(name.to_string()), value: Some(value.to_string()) }
}

#[test]
fn parses_cdp_cookies_into_header() {
    let cookies = vec![cookie("a", "1"), cookie("b", "2")];

    assert_eq!(parse_cdp_cookies(Some(&cookies)).unwrap(), "a=1; b=2");
}

#[test]
fn cookies_without_name_or_value_are_skipped() {
    let cookies = vec![
        CdpCookie { name: None, value: Some("x".to_string()) },
        cookie("a", "1"),
        CdpCookie { name: Some("n".to_string()), value: None },
    ];
    assert_eq!(parse_cdp_cookies(Some(&cookies)).unwrap(), "a=1");
    assert_eq!(parse_cdp_cookies(Some(&Vec::new())).unwrap(), "");
    assert!(matches!(
        parse_cdp_cookies(None),
        Err(RestoreError::Api(m)) if m == "Chrome did not return iCloud cookies."
    ));
}

fn target(kind: &str, ws: bool, url: &str) -> CdpTarget {
    CdpTarget {
        websocket_debugger_url: if ws { Some(format!("ws://{url}")) } else { None },
        url: Some(url.to_string()),
        target_type: Some(kind.to_string()),
    }
}

#[test]
fn icloud_page_is_preferred_as_target() {
    let targets = vec![
        target("page", true, "https://example.com"),
        target("page", false, "https://www.icloud.com/"),
        target("page", true, "https://www.icloud.com/recovery"),
    ];
    assert_eq!(pick_page_target(&targets).unwrap().url.as_deref(), Some("https://www.icloud.com/recovery"));
    let targets = vec![target("service_worker", true, "https://a"), target("page", true, "https://b")];
    assert_eq!(pick_page_target(&targets).unwrap().url.as_deref(), Some("https://b"));
    assert!(matches!(pick_page_target(&vec![target("iframe", true, "x")]), Err(RestoreError::ChromeConnectionFailed)));
}

#[test]
fn setup_navigates_unless_icloud_is_open() {
    let cmds = login_setup_commands(Some("about:blank"));
    assert_eq!(cmds.len(), 3);
    assert_eq!(cmds[0].method, "Network.enable");
    assert_eq!(cmds[1].method, "Page.enable");
    assert_eq!(cmds[2].method, "Page.navigate");
    assert!(matches!(&cmds[2].params, CdpParams::Navigate { url } if url == "https://www.icloud.com/recovery/"));
    let cmds = login_setup_commands(Some("https://www.icloud.com/"));
    assert_eq!(cmds[2].method, "Page.reload");
    assert_eq!(login_setup_commands(None)[2].method, "Page.navigate");
}

#[test]
fn login_watch_captures_then_reads_cookies() {
    let mut watch = LoginWatch::new();
    let noise = CdpMessage { id: Some(1), request_url: None, cookies: None };
    let action = watch.on_message(&noise);
    assert!(action.send.is_none());
    assert!(matches!(action.next, WatchStep::Continue));
    let request = CdpMessage {
        id: None,
        request_url: Some("https://p1.icloud.com/ws?clientId=c&dsid=d".to_string()),
        cookies: None,
    };
    let action = watch.on_message(&request);
    match action.send {
        Some(cmd) => {
            assert_eq!(cmd.id, 4);
            assert_eq!(cmd.method, "Network.getCookies");
            match cmd.params {
                CdpParams::GetCookies { urls } => assert_eq!(urls, vec!["https://www.icloud.com"]),
                _ => panic!("expected the cookie urls"),
            }
        }
        None => panic!("expected the cookie request"),
    }
    assert!(matches!(action.next, WatchStep::Continue));
    let other = CdpMessage { id: Some(3), request_url: None, cookies: None };
    assert!(matches!(watch.on_message(&other).next, WatchStep::Continue));
    let reply = CdpMessage { id: Some(4), request_url: None, cookies: Some(vec![cookie("X", "y")]) };
    let action = watch.on_message(&reply);
    assert!(action.send.is_none());
    match action.next {
        WatchStep::Done(Credentials { cookies, client_id, dsid, .. }) => {
            assert_eq!(cookies, "X=y");
            assert_eq!(client_id, "c");
            assert_eq!(dsid, "d");
        }
        _ => panic!("expected sign-in to complete"),
    }
}

#[test]
fn login_watch_keeps_waiting_through_events_without_an_id() {
    let mut watch = LoginWatch::new();
    let event = CdpMessage { id: None, request_url: None, cookies: None };
    let action = watch.on_message(&event);
    assert!(action.send.is_none());
    assert!(matches!(action.next, WatchStep::Continue));
    let request = CdpMessage {
        id: None,
        request_url: Some("https://p1.icloud.com/ws?clientId=c&dsid=d".to_string()),
        cookies: None,
    };
    assert!(watch.on_message(&request).send.is_some());
    assert!(matches!(watch.on_message(&event).next, WatchStep::Continue));
}

#[test]
fn login_watch_reads_a_reply_in_the_message_that_captures() {
    let mut watch = LoginWatch::new();
    let both = CdpMessage {
        id: Some(4),
        request_url: Some("https://p1.icloud.com/ws?clientId=c&dsid=d".to_string()),
        cookies: Some(vec![cookie("A", "1")]),
    };
    let action = watch.on_message(&both);
    assert!(action.send.is_some());
    match action.next {
        WatchStep::Done(credentials) => assert_eq!(credentials.cookies, "A=1"),
        _ => panic!("expected sign-in to complete"),
    }
}

#[test]
fn login_watch_fails_on_a_reply_without_cookies() {
    let mut watch = LoginWatch::new();
    let request = CdpMessage {
        id: None,
        request_url: Some("https://p1.icloud.com/ws?clientId=c&dsid=d".to_string()),
        cookies: None,
    };
    watch.on_message(&request);
    let reply = CdpMessage { id: Some(4), request_url: None, cookies: None };
    match watch.on_message(&reply).next {
        WatchStep::Fail(RestoreError::Api(m)) => assert_eq!(m, "Chrome did not return iCloud cookies."),
        _ => panic!("expected a failure"),
    }
}

#[test]
fn chrome_is_launched_for_debugging() {
    assert_eq!(
        chrome_launch_args("/tmp/p"),
        vec![
            "--remote-debugging-port=9222",
            "--user-data-dir=/tmp/p",
            "--no-first-run",
            "https://www.icloud.com/recovery/"
        ]
    );
    assert_eq!(launch_poll_delay_ms(0), 500);
    assert_eq!(launch_poll_delay_ms(7), 2250);
}

#[test]
fn errors_carry_their_message_and_detail() {
    let e = RestoreError::ChromeConnectionFailed.with_detail("refused");
    assert!(matches!(&e, RestoreError::Api(m) if m == "Chrome connection failed: refused"));
    let m = e.message();
    assert_eq!(m.id(), "error.api");
    assert_eq!(m.params(), vec![("details".to_string(), "Chrome connection failed: refused".to_string())]);
    assert!(matches!(RestoreError::LoginTimeout.with_detail("x"), RestoreError::LoginTimeout));
    assert!(matches!(RestoreError::from_http_failure(Some(403), "no".to_string()), RestoreError::AuthExpired));
    assert!(matches!(RestoreError::from_http_failure(Some(500), "boom".to_string()), RestoreError::Network(m) if m == "boom"));
    assert!(matches!(RestoreError::from_http_failure(None, "dns".to_string()), RestoreError::Network(_)));
}

#[test]
fn message_parameters_replace_by_key() {
    let m = UiMessage::new("status.x").with_param("a", "1").with_param("b", "2").with_param("a", "3");
    assert_eq!(m.id(), "status.x");
    assert_eq!(m.params(), vec![("a".to_string(), "3".to_string()), ("b".to_string(), "2".to_string())]);
    let c = m.clone();
    assert_eq!(c.params(), m.params());
    assert_eq!(decimal_text(0), "0");
    assert_eq!(decimal_text(1234567890), "1234567890");
    let creds = Credentials::new("c".to_string(), "i".to_string(), "d".to_string());
    assert_eq!(creds.client_build_number, "2546Build54");
}

#[test]
fn message_parameters_come_in_key_order() {
    let m = UiMessage::new("status.x")
        .with_param("zeta", "1")
        .with_param("alpha", "2")
        .with_param("mid", "3")
        .with_param("al", "4")
        .with_param("Zed", "5")
        .with_param("\u{e9}t\u{e9}", "6");
    let keys: Vec<String> = m.params().into_iter().map(|(k, _)| k).collect();
    let mut sorted = keys.clone();
    sorted.sort();
    assert_eq!(keys, sorted);
    assert_eq!(keys, vec!["Zed", "al", "alpha", "mid", "zeta", "\u{e9}t\u{e9}"]);
    let replaced = m.with_param("mid", "7");
    assert_eq!(replaced.params()[3], ("mid".to_string(), "7".to_string()));
}
