use tieba_image_downloader::error::AppError;
use tieba_image_downloader::http::{request_cookie, status_text};

#[test]
fn status_text_has_number_and_reason() {
    assert_eq!(status_text(404), "404 Not Found");
    assert_eq!(status_text(503), "503 Service Unavailable");
    assert_eq!(status_text(599), "599 <unknown status code>");
}

#[test]
fn request_cookie_is_trimmed_and_checked() {
    assert_eq!(request_cookie("  BDUSS=x; BAIDUID=y \n").unwrap(), "BDUSS=x; BAIDUID=y");
    match request_cookie("a=1\u{1}b") {
        Err(AppError::InvalidCookie(m)) => assert_eq!(m, "包含无效请求头字符"),
        _ => panic!("expected an invalid header"),
    }
    assert!(request_cookie("a=中文\tb").is_ok());
}
