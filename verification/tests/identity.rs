use bookmark_hub::identity::{
    canonicalize_url, canonicalize_url_str, domain_from_url, make_bookmark_id, u128_to_be_bytes,
    IdentityError, WebUrl,
};

fn url(s: &str) -> WebUrl {
    WebUrl::parse(s).unwrap()
}

#[test]
fn canonicalize_url_preserves_query_and_non_default_port() {
    let canonical =
        canonicalize_url_str("https://EXAMPLE.com:8443/post?a=1&b=2#section").unwrap();
    assert_eq!(canonical, "https://example.com:8443/post?a=1&b=2");
}

#[test]
fn canonicalize_url_drops_default_port_and_fragment() {
    let canonical = canonicalize_url_str("https://EXAMPLE.com:443/post#section").unwrap();
    assert_eq!(canonical, "https://example.com/post");
}

#[test]
fn bookmark_id_uses_full_canonical_url() {
    let a = url("https://example.com/post?a=1");
    let b = url("https://example.com/post?a=2");
    let c = url("http://example.com/post?a=1");
    let d = url("https://example.com:8443/post?a=1");

    assert_ne!(make_bookmark_id(&a).unwrap(), make_bookmark_id(&b).unwrap());
    assert_ne!(make_bookmark_id(&a).unwrap(), make_bookmark_id(&c).unwrap());
    assert_ne!(make_bookmark_id(&a).unwrap(), make_bookmark_id(&d).unwrap());
}

#[test]
fn bookmark_id_ignores_fragment_and_default_port() {
    let a = url("https://example.com/post?a=1");
    let b = url("https://example.com:443/post?a=1#top");
    assert_eq!(make_bookmark_id(&a).unwrap(), make_bookmark_id(&b).unwrap());
}

#[test]
fn bookmark_id_is_url_safe_base64_of_sixteen_bytes() {
    let id = make_bookmark_id(&url("https://example.com/")).unwrap();
    assert_eq!(id.len(), 22);
    assert!(id
        .chars()
        .all(|c| c.is_ascii_alphanumeric() || c == '-' || c == '_'));
}

#[test]
fn bookmark_id_is_not_the_url_itself() {
    let u = url("https://example.com/post");
    let id = make_bookmark_id(&u).unwrap();
    assert_ne!(id, u.as_str());
}

#[test]
fn invalid_url_is_refused() {
    assert_eq!(canonicalize_url_str("not a url").unwrap_err(), IdentityError::InvalidUrl);
    assert!(WebUrl::parse("/relative/path").is_err());
}

#[test]
fn url_without_host_is_refused() {
    let u = url("mailto:someone@example.com");
    assert_eq!(canonicalize_url(u).err(), Some(IdentityError::MissingHost));
    assert_eq!(
        make_bookmark_id(&url("data:text/plain,hello")).unwrap_err(),
        IdentityError::MissingHost
    );
    assert_eq!(
        canonicalize_url_str("mailto:someone@example.com").unwrap_err(),
        IdentityError::MissingHost
    );
}

#[test]
fn empty_path_becomes_root() {
    assert_eq!(
        canonicalize_url_str("https://example.com").unwrap(),
        "https://example.com/"
    );
}

#[test]
fn domain_is_taken_from_canonical_url() {
    assert_eq!(
        domain_from_url(&url("https://Sub.Example.com:8080/x#y")).unwrap(),
        "sub.example.com"
    );
}

#[test]
fn domain_of_ip_address_is_its_host() {
    assert_eq!(
        domain_from_url(&url("http://127.0.0.1:3000/")).unwrap(),
        "127.0.0.1"
    );
}

#[test]
fn big_endian_bytes_of_value() {
    let v = u128_to_be_bytes(0x0102_0304_0506_0708_090a_0b0c_0d0e_0f10);
    assert_eq!(v, (1u8..=16).collect::<Vec<u8>>());
    assert_eq!(u128_to_be_bytes(0), vec![0u8; 16]);
    assert_eq!(u128_to_be_bytes(u128::MAX), vec![255u8; 16]);
}
