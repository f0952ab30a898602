use channel_copier::text::{
    dialogue_label, download_path, flood_message, photo_name, push_decimal, rest_message, same_text,
    sanitize, summary_message,
};

fn decimal(n: i64) -> String {
    let mut out = String::new();
    push_decimal(&mut out, n);
    out
}

#[test]
fn reserved_characters_are_taken_out() {
    assert_eq!(sanitize("a\\b/c:d*e?f\"g>h<i|j.pdf"), "abcdefghij.pdf");
    assert_eq!(sanitize("//::??"), "");
    assert_eq!(sanitize(""), "");
}

#[test]
fn other_characters_stay() {
    assert_eq!(sanitize("Übung (1) $1 [x].tar.gz"), "Übung (1) $1 [x].tar.gz");
}

#[test]
fn sanitizing_twice_changes_nothing() {
    let once = sanitize("a<b>c");
    assert_eq!(sanitize(&once), once);
}

#[test]
fn path_of_a_download() {
    assert_eq!(download_path(-100, 7, "a.pdf"), ".tmp/-100/7/a.pdf");
}

#[test]
fn paths_of_different_files_differ() {
    assert_ne!(download_path(1, 23, "a"), download_path(12, 3, "a"));
    assert_ne!(download_path(1, 2, "a"), download_path(1, 2, "b"));
}

#[test]
fn decimals() {
    for n in [0, 7, 10, 99, 100, -1, -10, 1234567890, i64::MAX, i64::MIN] {
        assert_eq!(decimal(n), n.to_string());
    }
}

#[test]
fn decimals_are_appended() {
    let mut out = "n=".to_string();
    push_decimal(&mut out, -42);
    assert_eq!(out, "n=-42");
}

#[test]
fn photos_are_named_by_id() {
    assert_eq!(photo_name(5), "5.jpeg");
    assert_eq!(photo_name(-81), "-81.jpeg");
}

#[test]
fn dialogue_with_names() {
    assert_eq!(dialogue_label(Some("News"), Some("news"), 17), "News (news) [17]");
}

#[test]
fn dialogue_without_names() {
    assert_eq!(dialogue_label(None, None, -3), "- (-) [-3]");
    assert_eq!(dialogue_label(Some("News"), None, 1), "News (-) [1]");
}

#[test]
fn texts_compare_by_value() {
    assert!(same_text(&"abc".to_string(), "abc"));
    assert!(!same_text(&"abc".to_string(), "abd"));
}

#[test]
fn lines_of_the_progress_bar() {
    assert_eq!(flood_message(60), "Flood wait encountered - sleeping for 60s...💤");
    assert_eq!(rest_message(1100), "Sleeping for 1100s...💤");
    assert_eq!(summary_message(12, -5), "Collected 12 messages from chat -5");
}
