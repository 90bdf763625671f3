use subscript::text::{
    chars_of, names_match, same_text, text_before, text_contains, text_contains_ignore_case,
};
use subscript::utils::{get_current_timestamp, is_test_email, is_valid_email};

#[test]
fn test_is_valid_email() {
    assert!(is_valid_email("test@example.com"));
    assert!(!is_valid_email("invalid-email"));
    assert!(!is_valid_email("test@no-dot"));
}

#[test]
fn test_is_test_email() {
    assert!(is_test_email("Receipt [TEST] for Netflix"));
    assert!(is_test_email("[test] subscription"));
    assert!(!is_test_email("Regular receipt"));
}

#[test]
fn chars_of_keeps_every_character() {
    assert_eq!(chars_of("a{b}"), vec!['a', '{', 'b', '}']);
    assert_eq!(chars_of(""), Vec::<char>::new());
}

#[test]
fn same_text_compares_whole_strings() {
    assert!(same_text("domain", "domain"));
    assert!(!same_text("domain", "domains"));
    assert!(!same_text("domain", "Domain"));
}

#[test]
fn names_match_ignores_ascii_case_only() {
    assert!(names_match("Content-Type", "content-type"));
    assert!(!names_match("Content-Type", "content_type"));
    assert!(!names_match("\u{212a}", "k"));
}

#[test]
fn text_contains_finds_needle_at_either_end() {
    assert!(text_contains("attachment; filename=a.pdf", "attachment"));
    assert!(text_contains("form; attachment", "attachment"));
    assert!(text_contains("anything", ""));
    assert!(!text_contains("attach", "attachment"));
}

#[test]
fn text_contains_ignore_case_folds_ascii_letters() {
    assert!(text_contains_ignore_case("Application/PDF", "pdf"));
    assert!(text_contains_ignore_case("x IMAGE/Jpeg y", "image/jpeg"));
    assert!(!text_contains_ignore_case("image/gif", "image/png"));
}

#[test]
fn is_test_email_needs_the_brackets() {
    assert!(is_test_email("re: [TeSt]"));
    assert!(!is_test_email("test"));
    assert!(!is_test_email("[tes t]"));
    assert!(!is_test_email(""));
}

#[test]
fn is_valid_email_only_asks_for_both_signs() {
    assert!(is_valid_email("@."));
    assert!(!is_valid_email("a.b"));
    assert!(!is_valid_email(""));
}

#[test]
fn current_timestamp_is_written_in_rfc_3339() {
    let now = get_current_timestamp();
    let chars = chars_of(&now);
    assert!(chars.len() >= 20);
    assert_eq!(chars[4], '-');
    assert_eq!(chars[7], '-');
    assert_eq!(chars[10], 'T');
    assert!(now.ends_with("+00:00"));
}

#[test]
fn texts_are_compared_character_by_character() {
    assert!(text_before("", "a"));
    assert!(text_before("a", "b"));
    assert!(text_before("ab", "b"));
    assert!(text_before("a", "ab"));
    assert!(text_before("2024-03-01", "2024-03-02"));
    assert!(text_before("Z", "a"));
    assert!(text_before("z", "\u{e9}"));
    assert!(!text_before("a", "a"));
    assert!(!text_before("b", "a"));
    assert!(!text_before("ab", "a"));
    assert!(!text_before("", ""));
}
