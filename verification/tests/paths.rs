use tieba_image_downloader::number::{decimal_string, zero_padded_chars};
use tieba_image_downloader::paths::{file_extension_exec, join_path_exec, with_extension_exec};

fn chars(s: &str) -> Vec<char> {
    s.chars().collect()
}

fn text(c: Vec<char>) -> String {
    c.into_iter().collect()
}

#[test]
fn joins_paths_like_std() {
    assert_eq!(join_path_exec("/a", "b"), "/a/b");
    assert_eq!(join_path_exec("/a/", "b"), "/a/b");
    assert_eq!(join_path_exec("", "b"), "b");
    assert_eq!(join_path_exec("/a", "/b"), "/b");
}

#[test]
fn reads_and_replaces_extensions_like_std() {
    assert_eq!(file_extension_exec(&chars("a.tar.gz")).map(text), Some("gz".to_owned()));
    assert_eq!(file_extension_exec(&chars(".hidden")), None);
    assert_eq!(file_extension_exec(&chars("plain")), None);
    assert_eq!(text(with_extension_exec(&chars("a.jpg"), &chars("png"))), "a.png");
    assert_eq!(text(with_extension_exec(&chars("a"), &chars("jpg.part"))), "a.jpg.part");
    assert_eq!(text(with_extension_exec(&chars("a.jpg"), &chars(""))), "a");
    assert_eq!(text(with_extension_exec(&chars(".."), &chars("x"))), "..");
}

#[test]
fn writes_decimal_numbers() {
    assert_eq!(decimal_string(0), "0");
    assert_eq!(decimal_string(18446744073709551615), "18446744073709551615");
    assert_eq!(text(zero_padded_chars(42, 5)), "00042");
    assert_eq!(text(zero_padded_chars(123456, 5)), "123456");
}
