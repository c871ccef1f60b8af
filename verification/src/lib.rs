//! A downloader for the original-size body images of Baidu Tieba threads:
//! the verified logic of finding, ordering, naming and downloading them.
pub mod adaptive;
pub mod chrome_auth;
pub mod cli;
pub mod config;
pub mod cookie;
pub mod downloader;
pub mod error;
pub mod fetch;
pub mod html;
pub mod http;
pub mod image_url;
pub mod json;
pub mod keychain;
pub mod number;
pub mod parser;
pub mod paths;
pub mod report;
pub mod scheduler;
pub mod sorted;
pub mod state;
pub mod text;
pub mod tieba;
pub mod weburl;

pub use error::{AppError, Result};
