use stembot::praise::{get_praise_pattern, test_for_praise};
use stembot::rules::get_patterns;
use stembot::transform::{fold_join, handle_text};

#[test]
fn test_handle_text() {
    let patterns = get_patterns().unwrap();

    assert_eq!(
        handle_text("", &patterns),
        String::from(""),
        "empty string returns an empty string"
    );

    assert_eq!(
        handle_text("питерский", &patterns),
        String::from("Пидорский*"),
        "lowercase pattern for city works correctly"
    );

    assert_eq!(
        handle_text("ПиТеРсКиЙ", &patterns),
        String::from("Пидорский*"),
        "regex is case-insensitive for city"
    );

    assert_eq!(
        handle_text("питерец", &patterns),
        String::from("Пидор*"),
        "pattern for singular person works"
    );

    assert_eq!(
        handle_text("питерцы", &patterns),
        String::from("Пидоры*"),
        "pattern for plural person works"
    );
}

#[test]
fn empty_message_gets_empty_rewrite() {
    let patterns = get_patterns().unwrap();
    assert_eq!(handle_text("", &patterns), "");
}

#[test]
fn message_without_stems_gets_empty_rewrite() {
    let patterns = get_patterns().unwrap();
    assert_eq!(handle_text("hello, привет, Москва! 123", &patterns), "");
    assert_eq!(handle_text("питер", &patterns), "");
}

#[test]
fn upper_case_stems_match() {
    let patterns = get_patterns().unwrap();
    assert_eq!(handle_text("ПИТЕРСКИЙ", &patterns), "Пидорский*");
    assert_eq!(handle_text("ПИТЕРЕЦ", &patterns), "Пидор*");
    assert_eq!(handle_text("ПИТЕРЦЫ", &patterns), "Пидоры*");
}

#[test]
fn suffix_is_lowercased_and_prefix_kept() {
    let patterns = get_patterns().unwrap();
    assert_eq!(handle_text("питерская", &patterns), "Пидорская*");
    assert_eq!(handle_text("ПиТеРсКОЕ", &patterns), "Пидорское*");
    assert_eq!(handle_text("питерцАМИ", &patterns), "Пидорами*");
}

#[test]
fn plain_rule_takes_only_the_exact_stem() {
    let patterns = get_patterns().unwrap();
    assert_eq!(handle_text("питерец", &patterns), "Пидор*");
    assert_eq!(handle_text("питерцы", &patterns), "Пидоры*");
    assert_eq!(handle_text("питерца", &patterns), "Пидора*");
}

#[test]
fn matches_join_in_rule_order() {
    let patterns = get_patterns().unwrap();
    assert_eq!(
        handle_text("питерский питерец и питерцы", &patterns),
        "Пидорский*, Пидор*, Пидоры*"
    );
    assert_eq!(handle_text("питерцы и питерский", &patterns), "Пидорский*, Пидоры*");
    assert_eq!(
        handle_text("питерский, питерская", &patterns),
        "Пидорский*, Пидорская*"
    );
}

#[test]
fn no_double_separator_when_a_rule_is_silent() {
    let patterns = get_patterns().unwrap();
    let out = handle_text("питерский и питерцы", &patterns);
    assert_eq!(out, "Пидорский*, Пидоры*");
    assert!(!out.starts_with(", "));
    assert!(!out.ends_with(", "));
}

#[test]
fn fold_join_three_ways() {
    assert_eq!(fold_join(String::new(), String::from("a")), "a");
    assert_eq!(fold_join(String::from("a"), String::new()), "a");
    assert_eq!(fold_join(String::from("a"), String::from("b")), "a, b");
    assert_eq!(fold_join(String::new(), String::new()), "");
}

#[test]
fn replace_by_policy() {
    let patterns = get_patterns().unwrap();
    assert_eq!(patterns[0].replace("ИЙ"), "Пидорский");
    assert_eq!(patterns[1].replace("ЫЙ"), "Пидор");
    assert_eq!(patterns[2].replace("Ы"), "Пидоры");
    assert_eq!(patterns[2].replace(""), "Пидор");
}

#[test]
fn praise_found_anywhere_in_any_case() {
    let praise = get_praise_pattern().unwrap();
    assert!(test_for_praise("ну ты молодец, бот", &praise));
    assert!(test_for_praise("Спасибо!", &praise));
    assert!(test_for_praise("очень ХОРОШИЙ БОТ", &praise));
    assert!(test_for_praise("Thanks a lot", &praise));
    assert!(test_for_praise("what a Good Bot", &praise));
}

#[test]
fn no_praise_without_a_phrase() {
    let praise = get_praise_pattern().unwrap();
    assert!(!test_for_praise("", &praise));
    assert!(!test_for_praise("привет, бот", &praise));
    assert!(!test_for_praise("goodbot", &praise));
}
