use bookmark_hub::readability::{process, readability_response, ArticleText};

#[test]
fn article_content_is_sanitized() {
    let r = readability_response(ArticleText {
        title: "T".into(),
        content: "<p>hi<script>alert(1)</script></p>".into(),
        text_content: "hi".into(),
    });
    assert_eq!(r.title, "T");
    assert_eq!(r.content, "<p>hi</p>");
    assert_eq!(r.text_content, "hi");
}

#[test]
fn article_is_extracted_from_a_page() {
    let body = "Rust is a language empowering everyone to build reliable and efficient software. ".repeat(20);
    let html = format!(
        "<html><head><title>Rust article</title></head><body><article><h1>Rust article</h1><p>{body}</p><p>{body}</p></article></body></html>"
    );
    let r = process(html).unwrap();
    assert!(r.title.contains("Rust"));
    assert!(r.text_content.contains("reliable and efficient"));
    assert!(!r.content.contains("<script"));
}
