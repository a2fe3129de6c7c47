use bookmark_hub::identity::{make_bookmark_id, WebUrl};
use bookmark_hub::images::{
    find_images, index_images, replacement_for, rewrite_images, static_image_path, Image,
};

fn image(id: &str, src: &str) -> Image {
    Image {
        id: id.into(),
        original_url: format!("https://example.com/{src}"),
        original_src: src.into(),
        content_type: "image/png".into(),
        bytes: vec![1, 2, 3],
    }
}

#[test]
fn images_are_resolved_against_the_page() {
    let base = WebUrl::parse("https://example.com/articles/post").unwrap();
    let html = r#"<p><img src="a.png"><img alt="x"><img src="https://cdn.example.org/b.jpg#x"><img src="http://[::1"></p>"#;
    let found = find_images(&base, html).unwrap();
    assert_eq!(found.len(), 2);
    assert_eq!(found[0].src, "a.png");
    assert_eq!(found[0].url.as_str(), "https://example.com/articles/a.png");
    assert_eq!(found[0].id, make_bookmark_id(&found[0].url).unwrap());
    assert_eq!(found[1].src, "https://cdn.example.org/b.jpg#x");
    assert_eq!(
        found[1].id,
        make_bookmark_id(&WebUrl::parse("https://cdn.example.org/b.jpg").unwrap()).unwrap()
    );
}

#[test]
fn static_path_names_user_bookmark_and_image() {
    assert_eq!(
        static_image_path(0x67e5504410b1426f9247bb680e5fe0c8, "bm", "img"),
        "/static/67e55044-10b1-426f-9247-bb680e5fe0c8/bm/img"
    );
}

#[test]
fn stored_images_replace_their_sources() {
    let images = vec![image("id1", "a.png")];
    let html = rewrite_images(
        "bm",
        1,
        r#"<img src="a.png"><img src="other.png">"#,
        &images,
    )
    .unwrap();
    assert_eq!(
        html,
        r#"<img src="/static/00000000-0000-0000-0000-000000000001/bm/id1"><img src="other.png">"#
    );
}

#[test]
fn last_replacement_wins() {
    let pairs = vec![
        ("a".to_string(), "1".to_string()),
        ("b".to_string(), "2".to_string()),
        ("a".to_string(), "3".to_string()),
    ];
    assert_eq!(replacement_for(&pairs, &"a".to_string()), "3");
    assert_eq!(replacement_for(&pairs, &"b".to_string()), "2");
    assert_eq!(replacement_for(&pairs, &"c".to_string()), "c");
}

#[test]
fn index_keeps_last_image_of_each_source() {
    let out = index_images(vec![image("1", "a"), image("2", "b"), image("3", "a")]);
    let ids: Vec<&str> = out.iter().map(|i| i.id.as_str()).collect();
    assert_eq!(ids, vec!["3", "2"]);
}
