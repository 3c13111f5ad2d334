use socrata_roulette::slug::{slug_from_cleaned, slugify_table, try_slugify_table, SlugError};
use socrata_roulette::text::{contains_str, decimal_string, double_quotes, join_strings};

#[test]
fn test_slugify_table() {
    assert_eq!(
        slugify_table("Performance Metrics - Procurement Services - Task Order Request (TOR)"),
        "performance_metrics_procurement_services_task"
    );
    assert_eq!(slugify_table("Some Table"), "some_table");
}

#[test]
fn slug_lowercases_and_strips_punctuation() {
    assert_eq!(slugify_table("Hello, World!"), "hello_world");
    assert_eq!(slugify_table("  Multiple   Spaces\tand\ttabs  "), "multiple_spaces_and_tabs");
    assert_eq!(slugify_table("Café Prices (2020)"), "caf_prices_2020");
}

#[test]
fn slug_first_word_is_cut_to_fifty_bytes() {
    let long = "A".repeat(60);
    let slug = slugify_table(&long);
    assert_eq!(slug, "a".repeat(50));
    assert_eq!(slug.len(), 50);
}

#[test]
fn slug_stops_at_first_word_that_does_not_fit() {
    // 45 bytes, then a 5-letter word would make 51 bytes; the 2-letter one after it
    // is not considered either.
    let name = format!("{} {} {} {}", "a".repeat(20), "b".repeat(24), "ccccc", "dd");
    assert_eq!(slugify_table(&name), format!("{}_{}", "a".repeat(20), "b".repeat(24)));
    // Exactly 50 bytes fits.
    let name = format!("{} {}", "a".repeat(20), "b".repeat(29));
    assert_eq!(slugify_table(&name), format!("{}_{}", "a".repeat(20), "b".repeat(29)));
}

#[test]
fn slug_within_limit_on_many_words() {
    let name = "one two three four five six seven eight nine ten eleven twelve";
    let slug = slugify_table(name);
    assert!(slug.len() <= 50);
    assert_eq!(slug, "one_two_three_four_five_six_seven_eight_nine_ten");
}

#[test]
fn slug_errors() {
    assert_eq!(try_slugify_table("--- ()"), Err(SlugError::NoWords));
    assert_eq!(try_slugify_table(""), Err(SlugError::NoWords));
    assert_eq!(try_slugify_table("Some Table"), Ok("some_table".to_string()));
    // A cleaned name whose cut at 50 bytes falls inside a two-byte character.
    let cleaned = format!("a{}", "é".repeat(25));
    assert_eq!(slug_from_cleaned(&cleaned), Err(SlugError::CutInsideCharacter));
    let cleaned = "é".repeat(26);
    assert_eq!(slug_from_cleaned(&cleaned), Ok("é".repeat(25)));
    assert_eq!(slug_from_cleaned("  \u{3000} "), Err(SlugError::NoWords));
    assert_eq!(slug_from_cleaned("x\u{3000}y"), Ok("x_y".to_string()));
}

#[test]
fn text_helpers() {
    assert_eq!(double_quotes("a\"b\"\""), "a\"\"b\"\"\"\"");
    assert_eq!(double_quotes("plain"), "plain");
    assert!(contains_str("ab:@computed_region_x", ":@computed_region"));
    assert!(!contains_str(":@computed_regio", ":@computed_region"));
    assert!(contains_str("abc", ""));
    assert_eq!(decimal_string(0), "0");
    assert_eq!(decimal_string(100), "100");
    assert_eq!(decimal_string(4294967295), "4294967295");
    let parts = vec!["a".to_string(), "bc".to_string(), "d".to_string()];
    assert_eq!(join_strings(&parts, ", "), "a, bc, d");
    assert_eq!(join_strings(&vec![], ", "), "");
}

#[test]
fn slug_is_lower_case_ascii() {
    // The Kelvin sign lowercases to an ASCII `k`; `À` lowercases to `à`, which is dropped.
    assert_eq!(slugify_table("\u{212A}elvin ÀB C"), "kelvin_b_c");
    for name in ["Ünïcödé Nâmes 2024", "MiXeD CaSe", "tabs\tand\u{3000}ideographic spaces"] {
        let slug = slugify_table(name);
        assert!(!slug.is_empty() && slug.len() <= 50);
        assert!(slug.chars().all(|c| c.is_ascii_lowercase() || c.is_ascii_digit() || c == '_'));
    }
    assert_eq!(try_slugify_table("ÀÉÎ"), Err(SlugError::NoWords));
}
