use tieba_image_downloader::downloader::{
    download_paths, finish_download, is_complete_file, parse_content_range, response_is_image,
    response_step, resume_request, ImageResponse, ResponseStep,
};
use tieba_image_downloader::error::AppError;

fn response(status: u16, content_type: Option<&str>, content_range: Option<&str>, retry_after: Option<&str>) -> ImageResponse {
    ImageResponse {
        status,
        retry_after: retry_after.map(|s| s.to_owned()),
        content_range: content_range.map(|s| s.to_owned()),
        content_type: content_type.map(|s| s.to_owned()),
    }
}

#[test]
fn reads_content_ranges() {
    assert_eq!(parse_content_range("bytes 3-5/6"), Some((3, 5, Some(6))));
    assert_eq!(parse_content_range("bytes 0-9/*"), Some((0, 9, None)));
    assert_eq!(parse_content_range("bytes 0-9/x"), Some((0, 9, None)));
    assert_eq!(parse_content_range("items 0-9/10"), None);
    assert_eq!(parse_content_range("bytes 0/10"), None);
}

#[test]
fn recognises_image_responses() {
    assert!(response_is_image(Some("image/jpeg")));
    assert!(!response_is_image(Some("text/html")));
    assert!(!response_is_image(None));
}

#[test]
fn places_the_partial_file_beside_the_image() {
    let paths = download_paths("/out", "00001_f0001_hash.jpg");
    assert_eq!(paths.intended, "/out/00001_f0001_hash.jpg");
    assert_eq!(paths.part, "/out/00001_f0001_hash.jpg.part");
    let bare = download_paths("/out/", "name");
    assert_eq!(bare.intended, "/out/name");
    assert_eq!(bare.part, "/out/name.jpg.part");
}

#[test]
fn skips_only_non_empty_files() {
    assert!(is_complete_file(Some(3)));
    assert!(!is_complete_file(Some(0)));
    assert!(!is_complete_file(None));
}

#[test]
fn resumes_after_the_bytes_on_disk() {
    assert_eq!(resume_request(Some(3)), (3, Some("bytes=3-".to_owned())));
    assert_eq!(resume_request(Some(0)), (0, None));
    assert_eq!(resume_request(None), (0, None));
}

#[test]
fn resume_with_206_appends_after_existing_bytes() {
    let r = response(206, Some("image/jpeg"), Some("bytes 3-5/6"), None);
    assert!(matches!(response_step(&r, 3), ResponseStep::Write { append: true, written: 3 }));
}

#[test]
fn resume_with_wrong_start_is_refused() {
    let r = response(206, Some("image/jpeg"), Some("bytes 2-5/6"), None);
    match response_step(&r, 3) {
        ResponseStep::Fail(AppError::InvalidRange(m)) => assert_eq!(m, "期望从 3 开始，实际为 2"),
        _ => panic!("expected an inconsistent range"),
    }
    let missing = response(206, Some("image/jpeg"), None, None);
    match response_step(&missing, 3) {
        ResponseStep::Fail(AppError::InvalidRange(m)) => assert_eq!(m, "206 缺少有效 Content-Range"),
        _ => panic!("expected a missing range"),
    }
}

#[test]
fn full_response_overwrites_the_partial_file() {
    let r = response(200, Some("image/jpeg"), None, None);
    assert!(matches!(response_step(&r, 8), ResponseStep::Write { append: false, written: 0 }));
}

#[test]
fn complete_416_finishes_from_the_partial_file() {
    let plus = response(416, None, Some("bytes */+3"), None);
    assert!(matches!(response_step(&plus, 3), ResponseStep::CompleteFromPart { bytes: 3 }));
    let zeros = response(416, None, Some("bytes */003"), None);
    assert!(matches!(response_step(&zeros, 3), ResponseStep::CompleteFromPart { bytes: 3 }));
    let r = response(416, None, Some("bytes */3"), None);
    assert!(matches!(response_step(&r, 3), ResponseStep::CompleteFromPart { bytes: 3 }));
    match response_step(&r, 2) {
        ResponseStep::DiscardPart(AppError::InvalidRange(m)) => {
            assert_eq!(m, "服务器返回 416，且本地大小无法确认完整")
        }
        _ => panic!("expected the partial file to be dropped"),
    }
}

#[test]
fn html_responses_are_not_images() {
    let r = response(200, Some("text/html"), None, None);
    match response_step(&r, 0) {
        ResponseStep::Fail(AppError::NotImage(t)) => assert_eq!(t, "text/html"),
        _ => panic!("expected a refusal"),
    }
    let untyped = response(200, None, None, None);
    match response_step(&untyped, 0) {
        ResponseStep::Fail(AppError::NotImage(t)) => assert_eq!(t, "缺少 Content-Type"),
        _ => panic!("expected a refusal"),
    }
}

#[test]
fn throttling_reports_the_requested_wait() {
    let r = response(429, None, None, Some("17"));
    assert!(matches!(
        response_step(&r, 0),
        ResponseStep::Fail(AppError::RateLimited { status: 429, retry_after_secs: 17 })
    ));
    let forbidden = response(403, None, None, Some("soon"));
    assert!(matches!(
        response_step(&forbidden, 0),
        ResponseStep::Fail(AppError::RateLimited { status: 403, retry_after_secs: 30 })
    ));
}

#[test]
fn other_statuses_name_the_status() {
    let r = response(404, Some("image/png"), None, None);
    match response_step(&r, 0) {
        ResponseStep::Fail(AppError::PageAccess(m)) => assert_eq!(m, "图片 HTTP 404 Not Found"),
        _ => panic!("expected a page access failure"),
    }
}

#[test]
fn finished_downloads_get_their_extension() {
    assert_eq!(
        finish_download(3, Some("image/png"), "https://x/a.jpg", "/out", "00001_f0001_h.jpg").unwrap(),
        "/out/00001_f0001_h.png"
    );
    assert_eq!(
        finish_download(3, None, "https://x/a.webp", "/out", "00001_f0001_h.jpg").unwrap(),
        "/out/00001_f0001_h.webp"
    );
    assert_eq!(
        finish_download(3, None, "https://x/a", "/out", "00001_f0001_h.png").unwrap(),
        "/out/00001_f0001_h.jpg"
    );
}

#[test]
fn empty_or_unparsable_downloads_fail() {
    match finish_download(0, Some("image/png"), "https://x/a.jpg", "/out", "a.jpg") {
        Err(AppError::NotImage(m)) => assert_eq!(m, "响应体为空"),
        _ => panic!("expected an empty body"),
    }
    assert!(matches!(
        finish_download(1, Some("image/png"), "not a url", "/out", "a.jpg"),
        Err(AppError::Url(_))
    ));
}
