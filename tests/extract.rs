use r7kamura::extract::{
    extract_image_url, extract_summary, first_image_source, summarize, truncate,
};
use r7kamura::markdown::tracked_url;

#[test]
fn extract_summary_returns_none_to_empty_html() {
    let html = "";
    let option = extract_summary(html);
    assert!(option.is_none());
}

#[test]
fn extract_summary_returns_summary_to_simple_paragraph() {
    let html = "<p>a b c.</p>";
    let option = extract_summary(html);
    let summary = option.unwrap();
    assert_eq!(summary, "a b c.");
}

#[test]
fn extract_summary_returns_summary_to_linked_paragraph() {
    let html = "<p><a href=''>a</a> b c.</p>";
    let option = extract_summary(html);
    let summary = option.unwrap();
    assert_eq!(summary, "a b c.");
}

#[test]
fn extract_summary_returns_summary_to_multiple_japanese_sentences() {
    let html = "<p>あ。い。</p>";
    let option = extract_summary(html);
    let summary = option.unwrap();
    assert_eq!(summary, "あ。");
}

#[test]
fn extract_image_url_returns_ok_when_single_img_exists() {
    let html = r#"<p><img src="http://example.com/image.jpg"></p>"#;
    let option = extract_image_url(html);
    let image_url = option.unwrap();
    assert_eq!(image_url, "http://example.com/image.jpg");
}

#[test]
fn extract_image_url_returns_image_url_when_single_img_exists() {
    let html = r#"<p><img src="http://example.com/image.jpg"></p>"#;
    let option = extract_image_url(html);
    let image_url = option.unwrap();
    assert_eq!(image_url, "http://example.com/image.jpg");
}

#[test]
fn extract_image_url_returns_first_image_url_when_multi_img_exists() {
    let html = r#"<p><img src="http://example.com/image1.jpg"></p><p><img src="http://example.com/image2.jpg"></p>"#;
    let option = extract_image_url(html);
    let image_url = option.unwrap();
    assert_eq!(image_url, "http://example.com/image1.jpg");
}

#[test]
fn extract_image_url_returns_none_when_no_img_exists() {
    let html = "<p>a</p>";
    let option = extract_image_url(html);
    assert!(option.is_none());
}

#[test]
fn extract_image_url_returns_none_when_no_srced_img_exists() {
    let html = r#"<p><img></p>"#;
    let option = extract_image_url(html);
    assert!(option.is_none());
}

#[test]
fn extract_image_url_skips_image_without_source() {
    let html = r#"<p><img><img src="b.png"></p>"#;
    assert_eq!(extract_image_url(html), Some("b.png".to_string()));
}

#[test]
fn extract_summary_skips_empty_paragraph() {
    let html = "<p></p><p>second。third</p>";
    assert_eq!(extract_summary(html), Some("second。".to_string()));
}

#[test]
fn extract_summary_of_paragraph_without_text_is_none() {
    assert_eq!(extract_summary("<p><img src=\"a.png\"></p>"), None);
}

#[test]
fn summary_of_long_sentence_is_cut_to_limit() {
    let long: String = "あ".repeat(150);
    let html = format!("<p>{}。</p>", long);
    let summary = extract_summary(&html).unwrap();
    assert_eq!(summary.chars().count(), 140);
    assert_eq!(summary, "あ".repeat(140));
}

#[test]
fn summarize_takes_first_sentence_of_first_text() {
    let texts = vec!["".to_string(), "x。y。".to_string(), "z".to_string()];
    assert_eq!(summarize(&texts), Some("x。".to_string()));
    assert_eq!(summarize(&vec!["".to_string()]), None);
    assert_eq!(summarize(&vec![]), None);
}

#[test]
fn first_image_source_takes_first_present() {
    let sources = vec![None, Some("a".to_string()), Some("b".to_string())];
    assert_eq!(first_image_source(&sources), Some("a".to_string()));
    assert_eq!(first_image_source(&vec![None]), None);
}

#[test]
fn truncate_counts_characters_not_bytes() {
    assert_eq!(truncate("あいうえお", 3), "あいう");
    assert_eq!(truncate("abc", 3), "abc");
    assert_eq!(truncate("abc", 5), "abc");
    assert_eq!(truncate("abc", 0), "");
    assert_eq!(truncate("", 2), "");
}

#[test]
fn tracked_url_tags_marketplace_links_only() {
    assert_eq!(
        tracked_url("https://www.amazon.co.jp/dp/X"),
        "https://www.amazon.co.jp/dp/X?tag=r7kamuracom-22"
    );
    assert_eq!(tracked_url("https://www.amazon.co.jp/gp/X"), "https://www.amazon.co.jp/gp/X");
    assert_eq!(tracked_url("https://www.amazon.co.jp/dp"), "https://www.amazon.co.jp/dp");
    assert_eq!(tracked_url(""), "");
}
