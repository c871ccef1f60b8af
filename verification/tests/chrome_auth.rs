use tieba_image_downloader::chrome_auth::{
    captured_total_pages, cdp_reply, chrome_candidates, chrome_launch_args, cookie_header,
    default_profile_dir, find_chrome, login_page_ready, page_api_url, parse_debug_port,
    result_string, result_strings, select_page_target, thread_base_url, CaptureAction,
    CaptureState, CdpReply, ChromeProbe, Target,
};
use tieba_image_downloader::error::AppError;
use tieba_image_downloader::json::{JsonNumber, JsonValue};

fn json(value: &serde_json::Value) -> JsonValue {
    match value {
        serde_json::Value::Null => JsonValue::Null,
        serde_json::Value::Bool(b) => JsonValue::Bool(*b),
        serde_json::Value::Number(n) => JsonValue::Number(JsonNumber {
            as_u64: n.as_u64(),
            as_i64: n.as_i64(),
            text: n.to_string(),
        }),
        serde_json::Value::String(s) => JsonValue::String(s.clone()),
        serde_json::Value::Array(items) => JsonValue::Array(items.iter().map(json).collect()),
        serde_json::Value::Object(members) => JsonValue::Object(
            members.iter().map(|(k, v)| (k.clone(), json(v))).collect(),
        ),
    }
}

fn parse(body: &str) -> JsonValue {
    json(&serde_json::from_str::<serde_json::Value>(body).unwrap())
}

#[test]
fn extracts_only_baidu_cookies_without_values_in_debug_output() {
    let value = parse(
        r#"{"cookies": [
            {"domain": ".baidu.com", "name": "BDUSS", "value": "secret"},
            {"domain": "tieba.baidu.com", "name": "BAIDUID", "value": "id"},
            {"domain": ".example.com", "name": "BAD", "value": "ignored"}
        ]}"#,
    );
    assert_eq!(cookie_header(&value).unwrap(), "BAIDUID=id; BDUSS=secret");
}

#[test]
fn custom_chrome_path_must_exist() {
    let missing = ChromeProbe { path: "/definitely/missing/chrome".to_owned(), is_file: false };
    assert!(find_chrome(Some(missing), &[]).is_err());
}

#[test]
fn first_installed_browser_is_chosen() {
    let candidates = chrome_candidates();
    assert_eq!(candidates.len(), 3);
    let probes: Vec<ChromeProbe> = candidates
        .iter()
        .enumerate()
        .map(|(i, p)| ChromeProbe { path: p.clone(), is_file: i >= 1 })
        .collect();
    assert_eq!(
        find_chrome(None, &probes).unwrap(),
        "/Applications/Chromium.app/Contents/MacOS/Chromium"
    );
    match find_chrome(None, &[]) {
        Err(AppError::BrowserLogin(m)) => assert_eq!(m, "未找到 Chrome、Chromium 或 Brave"),
        _ => panic!("expected a missing browser"),
    }
    let custom = ChromeProbe { path: "/opt/chrome".to_owned(), is_file: true };
    assert_eq!(find_chrome(Some(custom), &probes).unwrap(), "/opt/chrome");
}

#[test]
fn profile_and_launch_arguments() {
    let profile = default_profile_dir(Some("/home/u"));
    assert_eq!(
        profile,
        "/home/u/Library/Application Support/tieba-image-downloader/chrome-profile"
    );
    assert_eq!(
        default_profile_dir(None),
        "./Library/Application Support/tieba-image-downloader/chrome-profile"
    );
    let args = chrome_launch_args("/p", "https://tieba.baidu.com/p/1");
    assert_eq!(args.len(), 7);
    assert_eq!(args[2], "--user-data-dir=/p");
    assert_eq!(args[6], "https://tieba.baidu.com/p/1");
}

#[test]
fn reads_the_debug_port() {
    assert_eq!(parse_debug_port("9222\n/devtools/browser/x\n"), Some(9222));
    assert_eq!(parse_debug_port("not a port\n"), None);
    assert_eq!(parse_debug_port(""), None);
    assert_eq!(parse_debug_port("70000\n"), None);
}

#[test]
fn picks_the_thread_page_target() {
    let targets = vec![
        Target { kind: "page".into(), url: "https://example.com".into(), websocket_url: Some("ws://a".into()) },
        Target { kind: "worker".into(), url: "https://tieba.baidu.com/p/1".into(), websocket_url: Some("ws://b".into()) },
        Target { kind: "page".into(), url: "https://tieba.baidu.com/p/1".into(), websocket_url: Some("ws://c".into()) },
    ];
    assert_eq!(select_page_target(&targets, "https://tieba.baidu.com/p/1").as_deref(), Some("ws://c"));
    assert_eq!(select_page_target(&targets[..2], "https://tieba.baidu.com/p/1"), None);
}

#[test]
fn reads_devtools_replies() {
    assert!(matches!(cdp_reply(4, "Page.navigate", r#"{"id": 3, "result": {}}"#), Ok(CdpReply::Other)));
    match cdp_reply(4, "Page.navigate", r#"{"id": 4, "error": {"message": "x", "code": -1}}"#) {
        Ok(CdpReply::Failed(AppError::BrowserLogin(m))) => {
            assert_eq!(m, r#"CDP Page.navigate: {"code":-1,"message":"x"}"#)
        }
        _ => panic!("expected a failure"),
    }
    match cdp_reply(4, "Page.navigate", r#"{"id": 4, "result": {"value": 1}}"#) {
        Ok(CdpReply::Done(v)) => assert_eq!(v.get("value").and_then(|x| x.as_u64()), Some(1)),
        _ => panic!("expected a result"),
    }
    assert!(matches!(cdp_reply(4, "Page.navigate", r#"{"id": 4}"#), Ok(CdpReply::Done(JsonValue::Null))));
    assert!(matches!(cdp_reply(4, "Page.navigate", "{oops"), Err(AppError::Json(_))));
}

#[test]
fn detects_a_ready_thread_page() {
    let ready = parse(r#"{"result":{"value":{"title":"帖子","url":"https://tieba.baidu.com/p/1","ready":"complete"}}}"#);
    assert!(login_page_ready(&ready));
    let check = parse(r#"{"result":{"value":{"title":"百度安全验证","url":"https://tieba.baidu.com/p/1"}}}"#);
    assert!(!login_page_ready(&check));
    let login = parse(r#"{"result":{"value":{"title":"登录","url":"https://tieba.baidu.com/p/1"}}}"#);
    assert!(!login_page_ready(&login));
    let untitled = parse(r#"{"result":{"value":{"title":"","url":"https://tieba.baidu.com/p/1"}}}"#);
    assert!(!login_page_ready(&untitled));
}

#[test]
fn builds_page_api_addresses() {
    let base = thread_base_url("https://tieba.baidu.com/p/42?see_lz=1");
    assert_eq!(base, "https://tieba.baidu.com/p/42");
    assert_eq!(page_api_url(&base, 3, true), "https://tieba.baidu.com/p/42?pn=3&lz=1");
    assert_eq!(page_api_url(&base, 1, false), "https://tieba.baidu.com/p/42?pn=1&lz=0");
}

#[test]
fn reads_captured_page_counts_and_results() {
    assert_eq!(captured_total_pages(Some(r#"{"page":{"total_page":5}}"#)), 5);
    assert_eq!(captured_total_pages(Some(r#"{"page":{}}"#)), 1);
    assert_eq!(captured_total_pages(Some("not json")), 1);
    assert_eq!(captured_total_pages(None), 1);
    let html = parse(r#"{"result":{"value":"<html></html>"}}"#);
    assert_eq!(result_string(&html), "<html></html>");
    assert_eq!(result_string(&parse(r#"{}"#)), "");
    let resources = parse(r#"{"result":{"value":["a.js", 3, "b.css"]}}"#);
    assert_eq!(result_strings(&resources), vec!["a.js".to_owned(), "b.css".to_owned()]);
}

#[test]
fn captures_the_page_api_exchange() {
    let mut state = CaptureState::new();
    let sent = parse(r#"{"method":"Network.requestWillBeSent","params":{"requestId":"9","request":{"url":"https://tieba.baidu.com/c/f/pb/page_pc","postData":"kz=1"}}}"#);
    assert!(matches!(state.step(&sent), CaptureAction::Continue));
    assert_eq!(state.post_data.as_deref(), Some("kz=1"));
    let unrelated = parse(r#"{"method":"Network.responseReceived","params":{"requestId":"8","response":{"url":"https://x/other"}}}"#);
    assert!(matches!(state.step(&unrelated), CaptureAction::Continue));
    let received = parse(r#"{"method":"Network.responseReceived","params":{"requestId":"9","response":{"url":"https://tieba.baidu.com/c/f/pb/page_pc"}}}"#);
    assert!(matches!(state.step(&received), CaptureAction::Continue));
    assert_eq!(state.target_request_id.as_deref(), Some("9"));
    let finished = parse(r#"{"method":"Network.loadingFinished","params":{"requestId":"9"}}"#);
    match state.step(&finished) {
        CaptureAction::FetchBody(id) => assert_eq!(id, "9"),
        _ => panic!("expected the body to be fetched"),
    }
    let body = parse(r#"{"body":"{\"error_code\":0}"}"#);
    assert_eq!(
        state.finish(&body),
        Some(("kz=1".to_owned(), "{\"error_code\":0}".to_owned()))
    );
}

#[test]
fn asks_for_post_data_when_it_was_not_seen() {
    let mut state = CaptureState::new();
    let received = parse(r#"{"method":"Network.responseReceived","params":{"requestId":"5","response":{"url":"https://tieba.baidu.com/c/f/pb/page_pc?x"}}}"#);
    match state.step(&received) {
        CaptureAction::FetchPostData(id) => assert_eq!(id, "5"),
        _ => panic!("expected the post data to be fetched"),
    }
    state.record_post_data(&parse(r#"{"postData":"pn=2"}"#));
    assert_eq!(state.post_data.as_deref(), Some("pn=2"));
    assert_eq!(state.finish(&parse(r#"{}"#)), None);
}

#[test]
fn capture_reads_event_texts() {
    let mut state = CaptureState::new();
    let sent = r#"{"method":"Network.requestWillBeSent","params":{"requestId":"9","request":{"url":"https://tieba.baidu.com/c/f/pb/page_pc","postData":"kz=1"}}}"#;
    assert!(matches!(state.step_text(sent), Ok(CaptureAction::Continue)));
    assert_eq!(state.post_data.as_deref(), Some("kz=1"));
    assert!(matches!(state.step_text("[broken"), Err(AppError::Json(_))));
    assert_eq!(state.post_data.as_deref(), Some("kz=1"));
}
