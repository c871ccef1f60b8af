//! The browser session kept in the macOS keychain: what each answer of the
//! keychain means for a run.  The program asks the keychain; the library
//! decides what its answer is worth.
use vstd::prelude::*;
use vstd::utf8::{decode_utf8, valid_utf8};
use crate::error::{AppError, ErrorView, Result};
use crate::text::concat;

verus! {

/// The status the keychain answers for an item it does not hold
/// (`errSecItemNotFound`).
pub open spec fn item_not_found() -> i32 {
    -25300i32
}

/// A failure the keychain reported: its status code and its message.
pub struct KeychainError {
    pub code: i32,
    pub message: String,
}

/// `String::from_utf8`: the text the bytes encode, or `None` when they are
/// not UTF-8.
#[verifier::external_body]
fn utf8_text(bytes: Vec<u8>) -> (r: Option<String>)
    ensures
        match r {
            Some(s) => valid_utf8(bytes@) && s@ == decode_utf8(bytes@),
            None => !valid_utf8(bytes@),
        },
{
    String::from_utf8(bytes).ok()
}

/// The saved session, given the keychain's answer to reading it: the stored
/// text when it is UTF-8 (else an invalid cookie), none when the item is
/// missing, and any other failure as a browser login failure with its message.
pub fn load(read: std::result::Result<Vec<u8>, KeychainError>) -> (r: Result<Option<String>>)
    ensures
        match read {
            Ok(bytes) => if valid_utf8(bytes@) {
                r matches Ok(Some(s)) && s@ == decode_utf8(bytes@)
            } else {
                r matches Err(e) && e@ == ErrorView::InvalidCookie("钥匙串中的会话不是有效 UTF-8"@)
            },
            Err(k) => if k.code == item_not_found() {
                r matches Ok(None)
            } else {
                r matches Err(e) && e@ == ErrorView::BrowserLogin("无法读取 macOS 钥匙串："@ + k.message@)
            },
        },
{
    match read {
        Ok(bytes) => match utf8_text(bytes) {
            Some(s) => Ok(Some(s)),
            None => Err(AppError::InvalidCookie("钥匙串中的会话不是有效 UTF-8".to_owned())),
        },
        Err(k) => if k.code == -25300 {
            Ok(None)
        } else {
            Err(AppError::BrowserLogin(concat("无法读取 macOS 钥匙串：", k.message.as_str())))
        },
    }
}

/// The outcome of saving the session, given the keychain's answer.
pub fn save(written: std::result::Result<(), KeychainError>) -> (r: Result<()>)
    ensures
        match written {
            Ok(()) => r is Ok,
            Err(k) => r matches Err(e) && e@ == ErrorView::BrowserLogin("无法保存会话到 macOS 钥匙串："@ + k.message@),
        },
{
    match written {
        Ok(()) => Ok(()),
        Err(k) => Err(AppError::BrowserLogin(concat("无法保存会话到 macOS 钥匙串：", k.message.as_str()))),
    }
}

/// The outcome of forgetting the session, given the keychain's answer: an
/// item that was not there is forgotten too.
pub fn clear(deleted: std::result::Result<(), KeychainError>) -> (r: Result<()>)
    ensures
        match deleted {
            Ok(()) => r is Ok,
            Err(k) => if k.code == item_not_found() {
                r is Ok
            } else {
                r matches Err(e) && e@ == ErrorView::BrowserLogin("无法删除 macOS 钥匙串会话："@ + k.message@)
            },
        },
{
    match deleted {
        Ok(()) => Ok(()),
        Err(k) => if k.code == -25300 {
            Ok(())
        } else {
            Err(AppError::BrowserLogin(concat("无法删除 macOS 钥匙串会话：", k.message.as_str())))
        },
    }
}

} // verus!
