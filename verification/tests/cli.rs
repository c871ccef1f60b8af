use tieba_image_downloader::cli::{
    config_from_answers, config_from_args, default_download_dir, image_concurrency_allowed,
    page_concurrency_allowed, parse_image_concurrency, parse_page_concurrency, Args, WizardAnswers,
};
use tieba_image_downloader::error::AppError;
use tieba_image_downloader::report::OutputFormat;

fn args(url: Option<&str>) -> Args {
    Args {
        url: url.map(|u| u.to_owned()),
        only_author: true,
        output: None,
        concurrency: 32,
        page_concurrency: 8,
        auto_concurrency: true,
        cookie_file: Some("/tmp/cookies.txt".into()),
        retries: 4,
        warmup_delay_ms: 750,
        cooldown_secs: 30,
        browser_login: true,
        chrome_path: None,
        login_timeout_secs: 600,
        remember_login: true,
        clear_login: false,
        diagnostic_html_dir: None,
        output_format: OutputFormat::Json,
        metadata_only: true,
    }
}

#[test]
fn concurrency_values_are_bounded() {
    assert_eq!(parse_image_concurrency("256"), Ok(256));
    assert_eq!(parse_image_concurrency("0"), Err("并发数必须为 1-256".to_owned()));
    assert_eq!(parse_image_concurrency("257"), Err("并发数必须为 1-256".to_owned()));
    assert_eq!(parse_image_concurrency("x"), Err("并发数必须为 1-256".to_owned()));
    assert_eq!(parse_page_concurrency("64"), Ok(64));
    assert_eq!(parse_page_concurrency("65"), Err("页面并发数必须为 1-64".to_owned()));
    assert!(image_concurrency_allowed(1) && !image_concurrency_allowed(0));
    assert!(page_concurrency_allowed(64) && !page_concurrency_allowed(65));
}

#[test]
fn default_directory_is_under_downloads() {
    assert_eq!(default_download_dir(Some("/home/u"), 42), "/home/u/Downloads/tieba_42");
    assert_eq!(default_download_dir(None, 7), "./Downloads/tieba_7");
}

#[test]
fn arguments_with_a_link_make_a_configuration() {
    let config = config_from_args(&args(Some("https://tieba.baidu.com/p/10918721568")), Some("/home/u"))
        .unwrap()
        .unwrap();
    assert_eq!(config.output_dir, "/home/u/Downloads/tieba_10918721568");
    assert_eq!(config.output_format, OutputFormat::Json);
    assert!(config.metadata_only);
    assert!(config.only_author);
    assert_eq!(config.cookie_file.as_deref(), Some("/tmp/cookies.txt"));
    assert!(config_from_args(&args(None), None).is_none());
    match config_from_args(&args(Some(" https://example.com/p/1 ")), None) {
        Some(Err(AppError::InvalidThreadUrl(v))) => assert_eq!(v, "https://example.com/p/1"),
        _ => panic!("expected an invalid link"),
    }
}

#[test]
fn wizard_answers_make_a_configuration() {
    let answers = WizardAnswers {
        url: "https://tieba.baidu.com/p/1".into(),
        mode: 1,
        output: "/data/x".into(),
        image_concurrency: 16,
        page_concurrency: 4,
        auto_concurrency: false,
        browser_login: true,
        cookie: "   ".into(),
    };
    let config = config_from_answers(answers, &args(None));
    assert!(config.only_author);
    assert_eq!(config.cookie_file, None);
    assert_eq!(config.retries, 4);
    assert_eq!(config.cooldown_secs, 30);
    assert_eq!(config.output_format, OutputFormat::Json);
}
