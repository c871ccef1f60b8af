use tieba_image_downloader::error::AppError;
use tieba_image_downloader::json::{JsonNumber, JsonValue};
use tieba_image_downloader::parser::{
    api_total_pages, api_total_pages_text, looks_like_client_rendered_shell, parse_api_page_text, looks_like_verification, parse_api_page,
    parse_page, sort_deduplicate, total_pages, ImageRecord,
};

fn json(value: &serde_json::Value) -> JsonValue {
    match value {
        serde_json::Value::Null => JsonValue::Null,
        serde_json::Value::Bool(b) => JsonValue::Bool(*b),
        serde_json::Value::Number(n) => JsonValue::Number(JsonNumber {
            as_u64: n.as_u64(),
            as_i64: n.as_i64(),
            text: n.to_string(),
        }),
        serde_json::Value::String(s) => JsonValue::String(s.clone()),
        serde_json::Value::Array(items) => JsonValue::Array(items.iter().map(json).collect()),
        serde_json::Value::Object(members) => JsonValue::Object(
            members.iter().map(|(k, v)| (k.clone(), json(v))).collect(),
        ),
    }
}

fn parse(body: &str) -> JsonValue {
    json(&serde_json::from_str::<serde_json::Value>(body).unwrap())
}

fn record(page: usize, post: usize, image: usize, url: &str) -> ImageRecord {
    ImageRecord {
        page,
        post_order: post,
        image_order: image,
        floor: None,
        author: None,
        post_id: None,
        original_url: url.to_owned(),
        normalized_url: url.to_owned(),
        target_file: String::new(),
    }
}

const PAGE: &str = r#"<html><head><title>t</title></head><body>
<li class="l_reply_num"><span class="red">12</span> replies <span class="red">3</span></li>
<div class="l_pager"><a href="/p/1?pn=2">2</a><a href="/p/1?pn=3">next</a></div>
<div class="l_post" data-field='{"author":{"user_name":"alice"},"content":{"post_id":555,"post_no":1}}'>
  <div class="d_post_content">
    <a href="https://imgsrc.baidu.com/forum/pic/item/original.jpg">link</a>
    <img src="https://tiebapic.baidu.com/forum/w=580/thumb.jpg">
    <img class="BDE_Smiley" src="https://tb2.bdstatic.com/smiley.png">
    <img data-src="https://tiebapic.baidu.com/forum/pic/item/lazy.png">
  </div>
</div>
<div class="l_post" data-pid="777" data-field='{"content":{"post_no":"2"}}'>
  <div class="d_post_content"><img src="//imgsa.baidu.com/forum/pic/item/plain.webp"></div>
</div>
</body></html>"#;

const FIXTURE: &str = r#"<!DOCTYPE html><html><head><title>测试帖子_百度贴吧</title></head><body>
<div class="p_thread">
  <ul class="l_posts_num"><li class="l_reply_num"><span class="red">42</span>回复贴，共<span class="red">3</span>页</li></ul>
  <div class="l_pager pager_theme_4 pb_list_pager"><span class="tP">1</span><a href="/p/10918721568?pn=2">2</a><a href="/p/10918721568?pn=3">3</a><a href="/p/10918721568?pn=2">下一页</a><a href="/p/10918721568?pn=3">尾页</a></div>
</div>
<div class="l_post j_l_post" data-pid="1001" data-field='{"author":{"user_name":"楼主"},"content":{"post_id":1001,"post_no":1}}'>
  <div class="d_author"><img class="avatar" src="https://gss0.bdstatic.com/avatar.jpg"></div>
  <div id="post_content_1001" class="d_post_content j_d_post_content">
    正文
    <img class="BDE_Image" data-original="https://imgsrc.baidu.com/forum/pic/item/original.jpg" src="https://tiebapic.baidu.com/forum/w=580/original.jpg">
    <img class="BDE_Smiley" src="https://tb2.bdstatic.com/tb/editor/images/face/i_f01.png">
  </div>
</div>
<div class="l_post j_l_post" data-pid="1002" data-field='{"author":{"user_name":"回复者"},"content":{"post_id":1002,"post_no":2}}'>
  <div id="post_content_1002" class="d_post_content j_d_post_content">
    <img class="BDE_Image" data-src="https://tiebapic.baidu.com/forum/pic/item/lazy.png">
    <img class="BDE_Image" src="//imgsa.baidu.com/forum/pic/item/plain.webp">
  </div>
</div>
</body></html>"#;

#[test]
fn parses_total_pages() {
    assert_eq!(total_pages(FIXTURE), 3);
}

#[test]
fn parses_body_and_priority() {
    let v = parse_page(FIXTURE, 1);
    assert_eq!(v.len(), 3);
    assert!(v[0].normalized_url.ends_with("/original.jpg"));
    assert!(v[1].normalized_url.ends_with("/lazy.png"));
    assert!(v[2].normalized_url.ends_with("/plain.webp"));
    assert_eq!(v[0].floor, Some(1));
}

#[test]
fn stable_deduplication() {
    let one = parse_page(FIXTURE, 2);
    let two = parse_page(FIXTURE, 1);
    let out = sort_deduplicate(vec![one, two]);
    assert_eq!(out.len(), 3);
    assert_eq!(out[0].page, 1);
    assert!(out[0].target_file.starts_with("00001_f0001_"));
}

#[test]
fn detects_error_pages() {
    assert!(looks_like_verification("<title>百度安全验证</title>"));
}

#[test]
fn detects_client_rendered_shell() {
    assert!(looks_like_client_rendered_shell(
        r#"<div id="app"></div><script>{"renderType":"csr"}</script>"#
    ));
}

#[test]
fn parses_api_images_and_authors() {
    let body = r#"{"error_code":0,"page":{"total_page":2},"user_list":[{"id":7,"name_show":"tester"}],"first_floor":{"id":10,"floor":1,"author_id":7,"content":[{"type":3,"origin_src":"https://imgsrc.baidu.com/forum/pic/item/original.jpg","cdn_src":"https://example.com/thumb.jpg"}]},"post_list":[{"id":"11","floor":2,"author_id":7,"content":[{"type":0,"text":"x"},{"type":3,"big_cdn_src":"https://imgsrc.baidu.com/forum/pic/item/fallback.png"}]}]}"#;
    let value = parse(body);
    assert_eq!(api_total_pages(&value).unwrap(), 2);
    let records = parse_api_page(&value, 1).unwrap();
    assert_eq!(records.len(), 2);
    assert_eq!(records[0].author.as_deref(), Some("tester"));
    assert!(records[0].normalized_url.ends_with("/original.jpg"));
    assert_eq!(records[1].floor, Some(2));
}

#[test]
fn api_error_code_is_reported() {
    let value = parse(r#"{"error_code":110001}"#);
    match api_total_pages(&value) {
        Err(e) => assert_eq!(e.message(), "页面访问失败：贴吧页面 API 返回错误码 110001"),
        Ok(_) => panic!("expected an error"),
    }
    match parse_api_page(&value, 3) {
        Err(e) => assert_eq!(e.message(), "页面访问失败：贴吧第 3 页 API 返回错误码 110001"),
        Ok(_) => panic!("expected an error"),
    }
    assert!(api_total_pages(&parse(r#"{}"#)).is_err());
}

#[test]
fn api_first_floor_only_on_page_one() {
    let body = r#"{"error_code":0,"first_floor":{"id":1,"content":[{"type":3,"origin_src":"https://imgsrc.baidu.com/forum/pic/item/a.jpg"}]},"post_list":[]}"#;
    let value = parse(body);
    assert_eq!(parse_api_page(&value, 1).unwrap().len(), 1);
    assert_eq!(parse_api_page(&value, 2).unwrap().len(), 0);
    assert_eq!(api_total_pages(&value).unwrap(), 1);
}

#[test]
fn reads_the_page_count_from_the_pager() {
    assert_eq!(total_pages(PAGE), 3);
    assert_eq!(
        total_pages(r#"<div class="l_pager"><a href="/p/1?pn=9&see_lz=1">尾页</a></div>"#),
        9
    );
    assert_eq!(total_pages("<html><body>nothing</body></html>"), 1);
    assert_eq!(
        total_pages(r#"<a class="last pagination-item" href="/p/1?pn=7">尾页</a>"#),
        7
    );
}

#[test]
fn parses_body_images_in_order_with_metadata() {
    let v = parse_page(PAGE, 4);
    assert_eq!(v.len(), 3);
    assert!(v[0].normalized_url.ends_with("/original.jpg"));
    assert_eq!(v[0].image_order, 0);
    assert_eq!(v[0].floor, Some(1));
    assert_eq!(v[0].author.as_deref(), Some("alice"));
    assert_eq!(v[0].post_id.as_deref(), Some("555"));
    assert!(v[1].normalized_url.ends_with("/lazy.png"));
    assert_eq!(v[1].image_order, 2);
    assert!(v[2].normalized_url.ends_with("/plain.webp"));
    assert_eq!(v[2].post_order, 1);
    assert_eq!(v[2].floor, Some(2));
    assert_eq!(v[2].post_id.as_deref(), Some("777"));
    assert!(v.iter().all(|r| r.page == 4 && r.target_file.is_empty()));
}

#[test]
fn deduplicates_and_names_in_page_order() {
    let one = parse_page(PAGE, 2);
    let two = parse_page(PAGE, 1);
    let out = sort_deduplicate(vec![one, two]);
    assert_eq!(out.len(), 3);
    assert_eq!(out[0].page, 1);
    assert!(out[0].target_file.starts_with("00001_f0001_"));
    assert!(out[1].target_file.starts_with("00002_f0001_"));
    assert!(out[2].target_file.starts_with("00003_f0002_"));
}

#[test]
fn sort_keeps_earliest_record_of_each_address() {
    let pages = vec![
        vec![record(2, 0, 0, "https://x/a.jpg")],
        vec![record(1, 1, 0, "https://x/b.png"), record(1, 0, 3, "https://x/a.jpg")],
    ];
    let out = sort_deduplicate(pages);
    assert_eq!(out.len(), 2);
    assert_eq!(out[0].normalized_url, "https://x/a.jpg");
    assert_eq!((out[0].page, out[0].post_order, out[0].image_order), (1, 0, 3));
    assert_eq!(out[1].normalized_url, "https://x/b.png");
    assert!(out[0].target_file.ends_with(".jpg"));
    assert!(out[1].target_file.ends_with(".png"));
    assert!(out[0].target_file.starts_with("00001_f0000_"));
    assert_eq!(out[0].target_file.len(), "00001_f0000_".len() + 8 + ".jpg".len());
}

#[test]
fn recognises_ordinary_pages() {
    assert!(!looks_like_verification("<title>帖子</title>"));
    assert!(!looks_like_client_rendered_shell("<html><body>plain</body></html>"));
}

#[test]
fn api_texts_are_parsed_in_the_library() {
    let body = r#"{"error_code":0,"page":{"total_page":3},"post_list":[{"id":5,"floor":4,"content":[{"type":3,"cdn_src":"https://imgsrc.baidu.com/forum/pic/item/c.jpg"}]}]}"#;
    assert_eq!(api_total_pages_text(body).unwrap(), 3);
    let records = parse_api_page_text(body, 2).unwrap();
    assert_eq!(records.len(), 1);
    assert_eq!(records[0].post_id.as_deref(), Some("5"));
    assert!(matches!(api_total_pages_text("<html>"), Err(AppError::Json(_))));
    assert!(matches!(parse_api_page_text("{", 1), Err(AppError::Json(_))));
    assert!(matches!(parse_api_page_text(r#"{"error_code":"0"}"#, 1), Err(AppError::PageAccess(_))));
}

#[test]
fn post_metadata_reads_strings_and_numbers() {
    let html = r#"<div class="l_post" data-field='{"author":{"user_name":7},"content":{"post_id":"p9","post_no":12}}'><div class="d_post_content"><img src="https://imgsrc.baidu.com/forum/pic/item/x.png"></div></div>"#;
    let v = parse_page(html, 1);
    assert_eq!(v.len(), 1);
    assert_eq!(v[0].author.as_deref(), Some("7"));
    assert_eq!(v[0].post_id.as_deref(), Some("p9"));
    assert_eq!(v[0].floor, Some(12));
}
