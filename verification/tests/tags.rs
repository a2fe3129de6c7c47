use bookmark_hub::tags::{normalize_tags, normalized_tag_option, retain_non_blank};
use bookmark_hub::text::{blank, same_text, text_less, trim, truncate_chars};

fn strings(v: &[&str]) -> Vec<String> {
    v.iter().map(|s| s.to_string()).collect()
}

#[test]
fn tags_are_trimmed_lowercased_and_deduplicated() {
    assert_eq!(
        normalize_tags(&strings(&[" Rust ", "rust", "", "  ", "Web", "ÉTÉ"])),
        strings(&["rust", "web", "été"])
    );
}

#[test]
fn first_occurrence_order_is_kept() {
    assert_eq!(
        normalize_tags(&strings(&["b", "a", "B", "c", "A"])),
        strings(&["b", "a", "c"])
    );
}

#[test]
fn normalizing_twice_changes_nothing() {
    let once = normalize_tags(&strings(&[" X", "y ", "x"]));
    assert_eq!(normalize_tags(&once), once);
}

#[test]
fn no_tags_left_gives_none() {
    assert_eq!(normalized_tag_option(&strings(&["", " "])), None);
    assert_eq!(normalized_tag_option(&strings(&["a"])), Some(strings(&["a"])));
}

#[test]
fn blank_texts_are_dropped_in_order() {
    assert_eq!(
        retain_non_blank(strings(&["a", " ", "b", "\t\n", "c"])),
        strings(&["a", "b", "c"])
    );
}

#[test]
fn text_helpers() {
    assert_eq!(trim("  a b \n"), "a b");
    assert_eq!(trim("   "), "");
    assert!(blank(" \u{3000}"));
    assert!(!blank(" x "));
    assert_eq!(truncate_chars("héllo", 2), "hé");
    assert_eq!(truncate_chars("hi", 5), "hi");
    assert!(same_text("abc", "abc"));
    assert!(!same_text("abc", "abd"));
    assert!(text_less("ab", "abc"));
    assert!(text_less("Z", "a"));
    assert!(!text_less("b", "abc"));
    assert!(!text_less("abc", "abc"));
    assert_eq!(text_less("w", "é"), "w" < "é");
}
