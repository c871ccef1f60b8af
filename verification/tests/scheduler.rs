use tieba_image_downloader::config::Config;
use tieba_image_downloader::downloader::DownloadOutcome;
use tieba_image_downloader::error::AppError;
use tieba_image_downloader::parser::ImageRecord;
use tieba_image_downloader::report::OutputFormat;
use tieba_image_downloader::scheduler::{BatchPause, DownloadRetry, RetryAction, Scheduler};
use tieba_image_downloader::state::{ItemState, ItemStatus, Timestamp};

fn config(image_concurrency: usize, auto: bool, retries: u32) -> Config {
    Config {
        thread_url: "https://tieba.baidu.com/p/1".into(),
        only_author: false,
        output_dir: "/tmp/out".into(),
        image_concurrency,
        page_concurrency: 8,
        auto_concurrency: auto,
        cookie_file: None,
        retries,
        warmup_delay_ms: 750,
        cooldown_secs: 30,
        browser_login: true,
        chrome_path: None,
        login_timeout_secs: 600,
        remember_login: true,
        clear_login: false,
        diagnostic_html_dir: None,
        output_format: OutputFormat::Text,
        metadata_only: false,
    }
}

fn record(i: usize) -> ImageRecord {
    ImageRecord {
        page: 1,
        post_order: i,
        image_order: 0,
        floor: None,
        author: None,
        post_id: None,
        original_url: format!("https://x/{i}.jpg"),
        normalized_url: format!("https://x/{i}.jpg"),
        target_file: format!("{i:05}.jpg"),
    }
}

const NOW: Timestamp = Timestamp { seconds: 1_700_000_000, nanos: 5 };

fn state() -> ItemState {
    ItemState {
        status: ItemStatus::Pending,
        downloaded_bytes: 0,
        total_bytes: None,
        retries: 0,
        last_error: None,
        updated_at: Timestamp { seconds: 0, nanos: 0 },
    }
}

#[test]
fn retries_only_transient_failures() {
    let mut r = DownloadRetry::new(2);
    assert!(matches!(r.on_result(Some(&AppError::Http("reset".into()))), RetryAction::Wait(400)));
    assert!(matches!(r.on_result(Some(&AppError::PageAccess("x".into()))), RetryAction::Wait(897)));
    assert!(matches!(r.on_result(Some(&AppError::Http("reset".into()))), RetryAction::Finish));
    assert_eq!(r.attempt, 2);
    let mut s = DownloadRetry::new(3);
    assert!(matches!(s.on_result(Some(&AppError::RateLimited { status: 429, retry_after_secs: 1 })), RetryAction::Finish));
    assert!(matches!(s.on_result(Some(&AppError::NotImage("text/html".into()))), RetryAction::Finish));
    assert!(matches!(s.on_result(None), RetryAction::Finish));
    assert_eq!(s.attempt, 0);
}

#[test]
fn adaptive_batches_start_at_four() {
    let mut s = Scheduler::new((0..10).map(record).collect(), &config(32, true, 4));
    assert_eq!(s.effective, 4);
    let batch = s.next_batch();
    assert_eq!(batch.len(), 4);
    assert_eq!(batch[0].record.target_file, "00000.jpg");
    assert_eq!(s.queue.len(), 6);
    for work in batch {
        let mut item = state();
        let outcome = Ok(DownloadOutcome::Completed { bytes: 10, path: "/tmp/out/a.jpg".into() });
        s.record_result(work, &outcome, 1, &mut item, NOW);
        assert_eq!(item.status, ItemStatus::Completed);
        assert_eq!(item.downloaded_bytes, 10);
        assert_eq!(item.retries, 1);
        assert_eq!(item.updated_at, NOW);
    }
    assert!(matches!(s.end_batch(), BatchPause::Warmup(750)));
    assert_eq!(s.effective, 5);
    assert_eq!(s.succeeded, 4);
}

#[test]
fn throttled_images_are_queued_again_and_slow_the_batches() {
    let mut s = Scheduler::new((0..3).map(record).collect(), &config(8, true, 1));
    let batch = s.next_batch();
    assert_eq!(batch.len(), 3);
    let mut items: Vec<ItemState> = (0..3).map(|_| state()).collect();
    let mut works = batch.into_iter();
    let throttled = Err(AppError::RateLimited { status: 429, retry_after_secs: 90 });
    s.record_result(works.next().unwrap(), &throttled, 0, &mut items[0], NOW);
    assert_eq!(items[0].status, ItemStatus::Pending);
    assert_eq!(items[0].retries, 1);
    assert!(items[0].last_error.as_deref().unwrap().contains("429"));
    s.record_result(works.next().unwrap(), &Ok(DownloadOutcome::Skipped { path: "/tmp/x".into() }), 0, &mut items[1], NOW);
    s.record_result(works.next().unwrap(), &Err(AppError::NotImage("text/html".into())), 0, &mut items[2], NOW);
    assert_eq!(items[2].status, ItemStatus::Failed);
    assert_eq!(s.failed.len(), 1);
    assert_eq!(s.failed[0].file, "00002.jpg");
    assert_eq!(s.failed[0].error, "响应不是图片：text/html");
    assert_eq!(s.queue.len(), 1);
    assert_eq!(s.queue[0].rate_retries, 1);
    assert!(matches!(s.end_batch(), BatchPause::Cooldown(90)));
    assert_eq!(s.effective, 2);
    let again = s.next_batch();
    assert_eq!(again.len(), 1);
    let mut item = state();
    s.record_result(again.into_iter().next().unwrap(), &throttled, 0, &mut item, NOW);
    assert_eq!(item.status, ItemStatus::Failed);
    assert!(s.is_done());
    assert_eq!(s.succeeded + s.skipped + s.failed.len(), 3);
}

#[test]
fn fixed_concurrency_never_changes() {
    let mut s = Scheduler::new((0..5).map(record).collect(), &config(2, false, 0));
    assert_eq!(s.effective, 2);
    let batch = s.next_batch();
    assert_eq!(batch.len(), 2);
    for work in batch {
        let mut item = state();
        s.record_result(work, &Err(AppError::RateLimited { status: 403, retry_after_secs: 5 }), 0, &mut item, NOW);
    }
    assert!(matches!(s.end_batch(), BatchPause::Continue));
    assert_eq!(s.effective, 2);
    assert_eq!(s.failed.len(), 2);
}
