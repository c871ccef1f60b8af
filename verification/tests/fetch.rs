use tieba_image_downloader::error::AppError;
use tieba_image_downloader::fetch::{
    backoff, check_captured_pages, first_page_count, initial_states, parse_api_pages,
    should_open_browser,
    FetchAction, PageFetch, PageScan,
};
use tieba_image_downloader::parser::ImageRecord;
use tieba_image_downloader::state::{ItemStatus, Timestamp};

#[test]
fn backoff_doubles_up_to_six_times() {
    assert_eq!(backoff(0, 300, 73), 300);
    assert_eq!(backoff(1, 300, 73), 673);
    assert_eq!(backoff(3, 400, 97), 400 * 8 + 3 * 97);
    assert_eq!(backoff(6, 300, 73), 300 * 64 + 6 * 73);
    assert_eq!(backoff(9, 300, 73), 300 * 64 + 9 * 73);
}

#[test]
fn usable_pages_are_accepted() {
    let mut f = PageFetch::new(2, 30);
    match f.on_response(200, None, "<html>ok</html>".into()) {
        FetchAction::Done(Ok(body)) => assert_eq!(body, "<html>ok</html>"),
        _ => panic!("expected the page"),
    }
}

#[test]
fn verification_pages_stop_at_once() {
    let mut f = PageFetch::new(2, 30);
    assert!(matches!(
        f.on_response(200, None, "<title>百度安全验证</title>".into()),
        FetchAction::Done(Err(AppError::Verification))
    ));
    let mut g = PageFetch::new(2, 30);
    assert!(matches!(
        g.on_response(200, None, r#"<div id="app"></div>pc-main-core"#.into()),
        FetchAction::Done(Err(AppError::ClientRenderedPage))
    ));
}

#[test]
fn refusals_carry_the_wait() {
    let mut f = PageFetch::new(2, 30);
    assert!(matches!(
        f.on_response(429, Some("12".into()), String::new()),
        FetchAction::Done(Err(AppError::RateLimited { status: 429, retry_after_secs: 12 }))
    ));
    let mut g = PageFetch::new(2, 45);
    assert!(matches!(
        g.on_response(403, None, String::new()),
        FetchAction::Done(Err(AppError::RateLimited { status: 403, retry_after_secs: 45 }))
    ));
}

#[test]
fn other_failures_are_retried_then_reported() {
    let mut f = PageFetch::new(2, 30);
    assert!(matches!(f.on_response(500, None, String::new()), FetchAction::Wait(300)));
    assert!(matches!(f.on_failure("connection reset".into()), FetchAction::Wait(673)));
    match f.on_response(502, None, String::new()) {
        FetchAction::Done(Err(AppError::PageAccess(m))) => assert_eq!(m, "HTTP 502 Bad Gateway"),
        _ => panic!("expected the last failure"),
    }
}

#[test]
fn scan_batches_grow_and_cover_every_page() {
    let mut scan = PageScan::new(10, 4, true);
    let mut covered = Vec::new();
    let mut sizes = Vec::new();
    while let Some((start, end)) = scan.next_batch() {
        covered.extend(start..end);
        sizes.push(end - start);
        scan.finish_batch(end);
    }
    assert_eq!(covered, (2..=10).collect::<Vec<_>>());
    assert_eq!(sizes, vec![1, 2, 4, 2]);
}

#[test]
fn fixed_scan_uses_the_whole_concurrency() {
    let mut scan = PageScan::new(5, 8, false);
    assert_eq!(scan.next_batch(), Some((2, 6)));
    assert!(!scan.finish_batch(6));
    assert_eq!(scan.next_batch(), None);
    let single = PageScan::new(1, 8, true);
    assert_eq!(single.next_batch(), None);
}

#[test]
fn captured_pages_must_match_the_count() {
    assert!(check_captured_pages(3, 3).is_ok());
    match check_captured_pages(2, 3) {
        Err(AppError::PageAccess(m)) => assert_eq!(m, "浏览器仅捕获到 2/3 页 API 响应"),
        _ => panic!("expected a missing page"),
    }
}

#[test]
fn browser_opens_only_when_allowed_and_needed() {
    assert!(should_open_browser(true, &AppError::Verification));
    assert!(should_open_browser(true, &AppError::RateLimited { status: 403, retry_after_secs: 1 }));
    assert!(!should_open_browser(true, &AppError::RateLimited { status: 429, retry_after_secs: 1 }));
    assert!(!should_open_browser(false, &AppError::ClientRenderedPage));
    assert!(!should_open_browser(true, &AppError::PageAccess("x".into())));
}

#[test]
fn page_count_comes_from_html_without_a_capture() {
    assert_eq!(first_page_count(None, "<html></html>").unwrap(), 1);
}

#[test]
fn every_image_starts_pending() {
    let record = ImageRecord {
        page: 1,
        post_order: 0,
        image_order: 0,
        floor: None,
        author: None,
        post_id: None,
        original_url: "https://x/a.jpg".into(),
        normalized_url: "https://x/a.jpg".into(),
        target_file: "00001_f0000_abcdef12.jpg".into(),
    };
    let stamp = Timestamp { seconds: 1_700_000_000, nanos: 0 };
    let states = initial_states(&[record], stamp);
    assert_eq!(states.len(), 1);
    assert_eq!(states[0].0, "00001_f0000_abcdef12.jpg");
    assert_eq!(states[0].1.status, ItemStatus::Pending);
    assert_eq!(states[0].1.retries, 0);
    assert_eq!(states[0].1.updated_at, stamp);
}

#[test]
fn page_count_comes_from_the_first_captured_response() {
    assert_eq!(first_page_count(Some(r#"{"error_code":0,"page":{"total_page":4}}"#), "").unwrap(), 4);
    assert!(matches!(first_page_count(Some("<html>"), ""), Err(AppError::Json(_))));
    assert!(matches!(first_page_count(Some(r#"{"error_code":1}"#), ""), Err(AppError::PageAccess(_))));
}

#[test]
fn captured_pages_stop_at_the_first_bad_response() {
    let good = r#"{"error_code":0,"post_list":[{"id":1,"content":[{"type":3,"origin_src":"https://imgsrc.baidu.com/forum/pic/item/a.jpg"}]}]}"#.to_owned();
    let pages = parse_api_pages(&[good.clone(), good.clone()]).unwrap();
    assert_eq!(pages.len(), 2);
    assert_eq!(pages[1][0].page, 2);
    let refused = r#"{"error_code":4}"#.to_owned();
    match parse_api_pages(&[good.clone(), refused.clone(), "not json".to_owned()]) {
        Err(AppError::PageAccess(m)) => assert_eq!(m, "贴吧第 2 页 API 返回错误码 4"),
        _ => panic!("expected the second page to stop the run"),
    }
    assert!(matches!(parse_api_pages(&[good, "not json".to_owned(), refused]), Err(AppError::Json(_))));
}
