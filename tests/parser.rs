use r7kamura::frontmatter::Error;
use r7kamura::markdown::parse_markdown;
use r7kamura::parser::parse;

#[test]
fn parse_returns_error_to_empty_content() {
    let content = "";
    let result = parse(content);
    assert!(result.is_err());
}

#[test]
fn parse_returns_error_to_no_title_content() {
    let content = "---\n---\nbody\n";
    let result = parse(content);
    assert!(result.is_err());
}

#[test]
fn parse_works() {
    let content = "---\ntitle: title\n---\nこんにちは。![](http://example.com/image.jpg)\n";
    let result = parse(content);
    let data = result.unwrap();
    assert_eq!(data.title, "title".to_string());
    assert_eq!(
        data.html_body,
        "<p>こんにちは。<img src=\"http://example.com/image.jpg\" alt=\"\" /></p>\n".to_string()
    );
    assert_eq!(data.summary, Some("こんにちは。".to_string()));
    assert_eq!(
        data.image_url,
        Some("http://example.com/image.jpg".to_string())
    );
}

#[test]
fn parse_works_to_empty_title_content() {
    let content = "---\ntitle:\n---\nbody\n";
    let result = parse(content);
    let data = result.unwrap();
    assert_eq!(data.title, "".to_string());
    assert_eq!(data.html_body, "<p>body</p>\n".to_string());
}

#[test]
fn parse_appends_tracking_id_to_amazon_link() {
    let content = "---\ntitle:\n---\n[link](https://www.amazon.co.jp/dp/B07L5J1LY9)\n";
    let result = parse(content);
    let data = result.unwrap();
    assert_eq!(data.title, "".to_string());
    assert_eq!(data.html_body, "<p><a href=\"https://www.amazon.co.jp/dp/B07L5J1LY9?tag=r7kamuracom-22\">link</a></p>\n".to_string());
}

#[test]
fn parse_leaves_other_links_alone() {
    let content = "---\ntitle: t\n---\n[link](https://example.com/dp/B07L5J1LY9)\n";
    let data = parse(content).unwrap();
    assert_eq!(
        data.html_body,
        "<p><a href=\"https://example.com/dp/B07L5J1LY9\">link</a></p>\n".to_string()
    );
}

#[test]
fn parse_renders_strikethrough() {
    let data = parse("---\ntitle: t\n---\n~~gone~~\n").unwrap();
    assert_eq!(data.html_body, "<p><del>gone</del></p>\n".to_string());
    assert_eq!(data.summary, Some("gone".to_string()));
    assert_eq!(data.image_url, None);
}

#[test]
fn parse_reports_missing_opening_line() {
    assert!(matches!(parse("hello"), Err(Error::MissingBeginningLine)));
}

#[test]
fn parse_reports_missing_closing_line() {
    assert!(matches!(parse("---\n"), Err(Error::MissingEndingLine)));
}

#[test]
fn parse_of_empty_body_has_no_summary_nor_image() {
    let data = parse("---\ntitle: t\n---\n").unwrap();
    assert_eq!(data.title, "t");
    assert_eq!(data.html_body, "");
    assert_eq!(data.summary, None);
    assert_eq!(data.image_url, None);
}

#[test]
fn parse_markdown_tags_marketplace_link() {
    assert_eq!(
        parse_markdown("[link](https://www.amazon.co.jp/dp/B07L5J1LY9)\n"),
        "<p><a href=\"https://www.amazon.co.jp/dp/B07L5J1LY9?tag=r7kamuracom-22\">link</a></p>\n"
    );
}

#[test]
fn parse_markdown_keeps_other_link() {
    assert_eq!(
        parse_markdown("[a](https://example.com/)\n"),
        "<p><a href=\"https://example.com/\">a</a></p>\n"
    );
}

#[test]
fn parse_markdown_leaves_images_and_text_alone() {
    assert_eq!(
        parse_markdown("![](https://www.amazon.co.jp/dp/X) https://www.amazon.co.jp/dp/Y\n"),
        "<p><img src=\"https://www.amazon.co.jp/dp/X\" alt=\"\" /> https://www.amazon.co.jp/dp/Y</p>\n"
    );
}

#[test]
fn parse_markdown_tags_each_link_in_turn() {
    assert_eq!(
        parse_markdown("[a](https://example.com/) [b](https://www.amazon.co.jp/dp/Z) <https://www.amazon.co.jp/dp/W>\n"),
        "<p><a href=\"https://example.com/\">a</a> <a href=\"https://www.amazon.co.jp/dp/Z?tag=r7kamuracom-22\">b</a> <a href=\"https://www.amazon.co.jp/dp/W?tag=r7kamuracom-22\">https://www.amazon.co.jp/dp/W</a></p>\n"
    );
}

#[test]
fn parse_of_empty_title_keeps_body() {
    let data = parse("---\ntitle:\n---\n*a* ---\nb\n").unwrap();
    assert_eq!(data.title, "");
    assert_eq!(data.html_body, parse_markdown("*a* ---\nb\n"));
}
