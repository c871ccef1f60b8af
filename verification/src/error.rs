//! The failures of the downloader, what each one means for retrying and
//! authentication, and the message each one shows.
use vstd::prelude::*;
use crate::number::{decimal, decimal_string};
use crate::text::concat;

verus! {

/// Every failure the downloader reports.  Failures that come from the
/// operating system or from a library carry that library's message.
#[derive(Debug)]
pub enum AppError {
    InvalidThreadUrl(String),
    CookieRead { path: String, source: String },
    InvalidCookie(String),
    BrowserLogin(String),
    ClientRenderedPage,
    PageAccess(String),
    Verification,
    RateLimited { status: u16, retry_after_secs: u64 },
    NotImage(String),
    InvalidRange(String),
    StateCorrupt { path: String, source: String },
    Io(String),
    Http(String),
    Json(String),
    Url(String),
}

pub type Result<T> = std::result::Result<T, AppError>;

/// A failure with its texts as character sequences.
pub enum ErrorView {
    InvalidThreadUrl(Seq<char>),
    CookieRead { path: Seq<char>, source: Seq<char> },
    InvalidCookie(Seq<char>),
    BrowserLogin(Seq<char>),
    ClientRenderedPage,
    PageAccess(Seq<char>),
    Verification,
    RateLimited { status: u16, retry_after_secs: u64 },
    NotImage(Seq<char>),
    InvalidRange(Seq<char>),
    StateCorrupt { path: Seq<char>, source: Seq<char> },
    Io(Seq<char>),
    Http(Seq<char>),
    Json(Seq<char>),
    Url(Seq<char>),
}

impl View for AppError {
    type V = ErrorView;

    open spec fn view(&self) -> ErrorView {
        match self {
            AppError::InvalidThreadUrl(s) => ErrorView::InvalidThreadUrl(s@),
            AppError::CookieRead { path, source } => ErrorView::CookieRead { path: path@, source: source@ },
            AppError::InvalidCookie(s) => ErrorView::InvalidCookie(s@),
            AppError::BrowserLogin(s) => ErrorView::BrowserLogin(s@),
            AppError::ClientRenderedPage => ErrorView::ClientRenderedPage,
            AppError::PageAccess(s) => ErrorView::PageAccess(s@),
            AppError::Verification => ErrorView::Verification,
            AppError::RateLimited { status, retry_after_secs } => ErrorView::RateLimited {
                status: *status,
                retry_after_secs: *retry_after_secs,
            },
            AppError::NotImage(s) => ErrorView::NotImage(s@),
            AppError::InvalidRange(s) => ErrorView::InvalidRange(s@),
            AppError::StateCorrupt { path, source } => ErrorView::StateCorrupt { path: path@, source: source@ },
            AppError::Io(s) => ErrorView::Io(s@),
            AppError::Http(s) => ErrorView::Http(s@),
            AppError::Json(s) => ErrorView::Json(s@),
            AppError::Url(s) => ErrorView::Url(s@),
        }
    }
}

/// The text shown for a failure.
pub open spec fn error_message(e: AppError) -> Seq<char> {
    match e {
        AppError::InvalidThreadUrl(s) => "无效的贴吧帖子链接："@ + s@,
        AppError::CookieRead { path, source } => "无法读取 Cookie 文件 "@ + path@ + "："@ + source@,
        AppError::InvalidCookie(s) => "Cookie 文件格式无效："@ + s@,
        AppError::BrowserLogin(s) => "Chrome 登录失败："@ + s@,
        AppError::ClientRenderedPage => "贴吧返回了需要浏览器渲染的页面"@,
        AppError::PageAccess(s) => "页面访问失败："@ + s@,
        AppError::Verification => "检测到登录页、安全验证或验证码，任务已停止；请稍后重试或提供 Cookie 文件"@,
        AppError::RateLimited { status, retry_after_secs } => "服务器限流或拒绝访问：HTTP "@ + decimal(
            status as nat,
        ) + "，建议等待 "@ + decimal(retry_after_secs as nat) + " 秒"@,
        AppError::NotImage(s) => "响应不是图片："@ + s@,
        AppError::InvalidRange(s) => "断点续传响应不一致："@ + s@,
        AppError::StateCorrupt { path, source } => "状态文件损坏 "@ + path@ + "："@ + source@,
        AppError::Io(s) => s@,
        AppError::Http(s) => s@,
        AppError::Json(s) => s@,
        AppError::Url(s) => s@,
    }
}

/// Waiting is the remedy: the server throttled the request or asked for verification.
pub open spec fn spec_is_rate_limited(e: AppError) -> bool {
    e is RateLimited || e is Verification
}

/// Only an interactive browser session can get past this failure.
pub open spec fn spec_requires_browser_login(e: AppError) -> bool {
    ||| e is Verification
    ||| e is ClientRenderedPage
    ||| (e matches AppError::RateLimited { status, .. } && status == 403)
}

/// The delay the server asked for.
pub open spec fn spec_retry_after_secs(e: AppError) -> Option<u64> {
    match e {
        AppError::RateLimited { retry_after_secs, .. } => Some(retry_after_secs),
        _ => None,
    }
}

/// A retry of the same request may succeed.
pub open spec fn spec_is_transient(e: AppError) -> bool {
    e is Http || e is PageAccess || e is RateLimited
}

impl AppError {
    pub fn is_rate_limited(&self) -> (r: bool)
        ensures
            r == spec_is_rate_limited(*self),
    {
        match self {
            AppError::RateLimited { .. } => true,
            AppError::Verification => true,
            _ => false,
        }
    }

    pub fn requires_browser_login(&self) -> (r: bool)
        ensures
            r == spec_requires_browser_login(*self),
    {
        match self {
            AppError::Verification => true,
            AppError::ClientRenderedPage => true,
            AppError::RateLimited { status, .. } => *status == 403,
            _ => false,
        }
    }

    pub fn retry_after_secs(&self) -> (r: Option<u64>)
        ensures
            r == spec_retry_after_secs(*self),
    {
        match self {
            AppError::RateLimited { retry_after_secs, .. } => Some(*retry_after_secs),
            AppError::Verification => None,
            _ => None,
        }
    }

    pub fn is_transient(&self) -> (r: bool)
        ensures
            r == spec_is_transient(*self),
    {
        match self {
            AppError::Http(_) => true,
            AppError::PageAccess(_) => true,
            AppError::RateLimited { .. } => true,
            _ => false,
        }
    }

    /// The text shown for this failure.
    pub fn message(&self) -> (r: String)
        ensures
            r@ == error_message(*self),
    {
        match self {
            AppError::InvalidThreadUrl(s) => concat("无效的贴吧帖子链接：", s.as_str()),
            AppError::CookieRead { path, source } => {
                let a = concat("无法读取 Cookie 文件 ", path.as_str());
                let b = concat(a.as_str(), "：");
                concat(b.as_str(), source.as_str())
            },
            AppError::InvalidCookie(s) => concat("Cookie 文件格式无效：", s.as_str()),
            AppError::BrowserLogin(s) => concat("Chrome 登录失败：", s.as_str()),
            AppError::ClientRenderedPage => "贴吧返回了需要浏览器渲染的页面".to_owned(),
            AppError::PageAccess(s) => concat("页面访问失败：", s.as_str()),
            AppError::Verification => "检测到登录页、安全验证或验证码，任务已停止；请稍后重试或提供 Cookie 文件".to_owned(),
            AppError::RateLimited { status, retry_after_secs } => {
                let st = decimal_string(*status as u64);
                let secs = decimal_string(*retry_after_secs);
                let a = concat("服务器限流或拒绝访问：HTTP ", st.as_str());
                let b = concat(a.as_str(), "，建议等待 ");
                let c = concat(b.as_str(), secs.as_str());
                concat(c.as_str(), " 秒")
            },
            AppError::NotImage(s) => concat("响应不是图片：", s.as_str()),
            AppError::InvalidRange(s) => concat("断点续传响应不一致：", s.as_str()),
            AppError::StateCorrupt { path, source } => {
                let a = concat("状态文件损坏 ", path.as_str());
                let b = concat(a.as_str(), "：");
                concat(b.as_str(), source.as_str())
            },
            AppError::Io(s) => s.clone(),
            AppError::Http(s) => s.clone(),
            AppError::Json(s) => s.clone(),
            AppError::Url(s) => s.clone(),
        }
    }
}

} // verus!
