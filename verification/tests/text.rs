use vendor_scraper::text::contains_text;

#[test]
fn substring_is_found_anywhere() {
    assert!(contains_text("username", "user"));
    assert!(contains_text("login_user", "user"));
    assert!(contains_text("a_user_b", "user"));
    assert!(contains_text("user", "user"));
}

#[test]
fn substring_must_be_whole_and_in_order() {
    assert!(!contains_text("use", "user"));
    assert!(!contains_text("usr", "user"));
    assert!(!contains_text("resu", "user"));
    assert!(!contains_text("us_er", "user"));
    assert!(!contains_text("", "user"));
    assert!(!contains_text("User", "user"));
}

#[test]
fn empty_needle_is_everywhere() {
    assert!(contains_text("abc", ""));
    assert!(contains_text("", ""));
}

#[test]
fn repeated_prefixes_do_not_hide_a_match() {
    assert!(contains_text("ususer", "user"));
    assert!(contains_text("aaab", "aab"));
    assert!(!contains_text("aaaa", "aab"));
}

#[test]
fn characters_beyond_ascii_count_as_one() {
    assert!(contains_text("\u{00e9}user", "user"));
    assert!(contains_text("na\u{00ef}ve", "\u{00ef}v"));
    assert!(!contains_text("na\u{00ef}ve", "iv"));
}
