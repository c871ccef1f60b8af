use tieba_image_downloader::error::AppError;
use tieba_image_downloader::keychain::{self, KeychainError};
use tieba_image_downloader::report::OutputFormat;
use tieba_image_downloader::state::{ItemState, ItemStatus, Timestamp};

#[test]
fn new_items_are_pending() {
    let stamp = Timestamp { seconds: 1_700_000_000, nanos: 7 };
    let item = ItemState::new(stamp);
    assert_eq!(item.status, ItemStatus::Pending);
    assert_eq!(item.downloaded_bytes, 0);
    assert_eq!(item.total_bytes, None);
    assert_eq!(item.retries, 0);
    assert!(item.last_error.is_none());
    assert_eq!(item.updated_at, stamp);
}

#[test]
fn text_is_the_default_output() {
    assert_eq!(OutputFormat::default(), OutputFormat::Text);
}

fn failure(code: i32) -> KeychainError {
    KeychainError { code, message: "denied".into() }
}

#[test]
fn keychain_answers_are_judged() {
    assert_eq!(keychain::load(Ok(b"BDUSS=x".to_vec())).unwrap(), Some("BDUSS=x".to_owned()));
    assert!(matches!(keychain::load(Ok(vec![0xff, 0xfe])), Err(AppError::InvalidCookie(m)) if m == "钥匙串中的会话不是有效 UTF-8"));
    assert_eq!(keychain::load(Err(failure(-25300))).unwrap(), None);
    assert!(matches!(keychain::load(Err(failure(-25293))), Err(AppError::BrowserLogin(m)) if m == "无法读取 macOS 钥匙串：denied"));
}

#[test]
fn keychain_save_and_clear_outcomes() {
    assert!(keychain::save(Ok(())).is_ok());
    assert!(matches!(keychain::save(Err(failure(-1))), Err(AppError::BrowserLogin(m)) if m == "无法保存会话到 macOS 钥匙串：denied"));
    assert!(keychain::clear(Ok(())).is_ok());
    assert!(keychain::clear(Err(failure(-25300))).is_ok());
    assert!(matches!(keychain::clear(Err(failure(-1))), Err(AppError::BrowserLogin(m)) if m == "无法删除 macOS 钥匙串会话：denied"));
}
