use tieba_image_downloader::error::AppError;
use tieba_image_downloader::tieba::{extract_thread_id, page_url};

#[test]
fn extracts_supported_urls() {
    for input in [
        "https://tieba.baidu.com/p/123456789",
        "https://tieba.baidu.com/p/123456789?pn=2",
        "http://tieba.baidu.com/p/123456789?see_lz=1",
        "tieba.baidu.com/p/123456789",
    ] {
        assert_eq!(extract_thread_id(input).unwrap(), 123456789);
    }
}

#[test]
fn rejects_invalid_urls() {
    for input in [
        "",
        "https://example.com/p/1",
        "tieba.baidu.com/f?kw=x",
        "tieba.baidu.com/p/no",
    ] {
        assert!(extract_thread_id(input).is_err(), "{input}");
    }
}

#[test]
fn constructs_modes() {
    assert_eq!(
        page_url(42, 3, false).unwrap().as_str(),
        "https://tieba.baidu.com/p/42?pn=3"
    );
    assert_eq!(
        page_url(42, 3, true).unwrap().as_str(),
        "https://tieba.baidu.com/p/42?pn=3&see_lz=1"
    );
}

#[test]
fn invalid_thread_link_reports_the_trimmed_input() {
    match extract_thread_id("  https://example.com/p/1  ") {
        Err(AppError::InvalidThreadUrl(v)) => assert_eq!(v, "https://example.com/p/1"),
        _ => panic!("expected an invalid thread link"),
    }
}

#[test]
fn accepts_www_host_and_rejects_zero_id() {
    assert_eq!(extract_thread_id("https://www.tieba.baidu.com/p/7").unwrap(), 7);
    assert!(extract_thread_id("https://tieba.baidu.com/p/0").is_err());
    assert!(extract_thread_id("https://tieba.baidu.com/p/7/extra").is_err());
}
