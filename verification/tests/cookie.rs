use tieba_image_downloader::cookie::{is_baidu_domain, load_cookie, parse_cookie_file};

const NOW: i64 = 1_700_000_000;
use tieba_image_downloader::error::AppError;

#[test]
fn accepts_raw_header() {
    assert_eq!(
        parse_cookie_file("BAIDUID=a; BDUSS=b", NOW).unwrap(),
        "BAIDUID=a; BDUSS=b"
    );
}

#[test]
fn imports_netscape_and_filters_domains() {
    let content = "# Netscape HTTP Cookie File\n.baidu.com\tTRUE\t/\tTRUE\t0\tBDUSS\tsecret\n.example.com\tTRUE\t/\tFALSE\t0\tBAD\tx\ntieba.baidu.com\tFALSE\t/\tFALSE\t0\tBAIDUID\tid\n";
    assert_eq!(
        parse_cookie_file(content, NOW).unwrap(),
        "BAIDUID=id; BDUSS=secret"
    );
}

#[test]
fn rejects_empty_or_unusable_files() {
    assert!(parse_cookie_file("", NOW).is_err());
    assert!(parse_cookie_file("# Netscape HTTP Cookie File\n", NOW).is_err());
}

#[test]
fn expired_cookies_are_dropped() {
    let content = ".baidu.com\tTRUE\t/\tTRUE\t100\tOLD\tx\n.baidu.com\tTRUE\t/\tTRUE\t300\tNEW\ty\n";
    assert_eq!(parse_cookie_file(content, 200).unwrap(), "NEW=y");
}

#[test]
fn empty_file_error_is_an_invalid_cookie() {
    assert!(matches!(parse_cookie_file("", NOW), Err(AppError::InvalidCookie(_))));
}

#[test]
fn baidu_domains_are_recognised() {
    assert!(is_baidu_domain(".baidu.com"));
    assert!(is_baidu_domain("tieba.BAIDU.com"));
    assert!(!is_baidu_domain("notbaidu.com"));
    assert!(!is_baidu_domain(".example.com"));
}

#[test]
fn unreadable_cookie_files_name_their_path() {
    match load_cookie("/missing/cookies.txt", Err("No such file or directory (os error 2)".into()), NOW) {
        Err(AppError::CookieRead { path, source }) => {
            assert_eq!(path, "/missing/cookies.txt");
            assert_eq!(source, "No such file or directory (os error 2)");
        }
        _ => panic!("expected a read failure"),
    }
    assert_eq!(load_cookie("/c.txt", Ok("BDUSS=x".into()), NOW).unwrap(), "BDUSS=x");
}
