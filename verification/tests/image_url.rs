use tieba_image_downloader::image_url::{
    absolute_url, extension_from_content_type, extension_from_url, normalized_key, original_url,
};
use tieba_image_downloader::weburl::WebUrl;

#[test]
fn handles_protocol_and_thumbnail() {
    assert_eq!(
        original_url("//tiebapic.baidu.com/forum/w=580/a.jpg")
            .unwrap()
            .as_str(),
        "https://tiebapic.baidu.com/forum/pic/item/a.jpg"
    );
    assert_eq!(
        original_url("http://imgsa.baidu.com/forum/pic/item/a.png?q=1")
            .unwrap()
            .scheme(),
        "https"
    );
}

#[test]
fn maps_extensions() {
    assert_eq!(
        extension_from_content_type(Some("image/jpeg; charset=x")),
        Some("jpg")
    );
    assert_eq!(extension_from_content_type(Some("text/html")), None);
    assert_eq!(
        extension_from_url(&WebUrl::parse("https://x/a.webp?q=1").unwrap()),
        Some("webp")
    );
}

#[test]
fn normalized_key_drops_the_fragment() {
    let url = WebUrl::parse("https://x/a.jpg?q=1#part").unwrap();
    assert_eq!(normalized_key(&url), "https://x/a.jpg?q=1");
}

#[test]
fn relative_addresses_are_not_images() {
    assert!(absolute_url("/forum/a.jpg").is_none());
    assert!(original_url("data:image/png;base64,AAAA").is_none());
}

#[test]
fn content_types_map_to_extensions() {
    assert_eq!(extension_from_content_type(Some("IMAGE/PNG")), Some("png"));
    assert_eq!(extension_from_content_type(Some("image/webp")), Some("webp"));
    assert_eq!(extension_from_content_type(None), None);
}
