use voice_segmenter::filter::{eq_ignore_ascii_case, filter_transcription, filter_trimmed};

#[test]
fn boilerplate_is_discarded() {
    assert_eq!(filter_transcription("Thank you for watching!"), None);
    assert_eq!(filter_transcription("  thank YOU for watching "), None);
    assert_eq!(filter_transcription("ご視聴ありがとうございました。"), None);
    assert_eq!(filter_transcription("¡Gracias por ver!"), None);
    assert_eq!(filter_transcription("시청해주셔서 감사합니다"), None);
}

#[test]
fn short_text_is_discarded() {
    assert_eq!(filter_transcription("ok"), None);
    assert_eq!(filter_transcription("   "), None);
    assert_eq!(filter_transcription(""), None);
}

#[test]
fn text_without_letters_is_discarded() {
    assert_eq!(filter_transcription("123456"), None);
    assert_eq!(filter_transcription(" ... !!! "), None);
}

#[test]
fn ordinary_text_passes_trimmed() {
    assert_eq!(filter_transcription("Turn left at the light"), Some("Turn left at the light".to_string()));
    assert_eq!(filter_transcription("  Turn left at the light\n"), Some("Turn left at the light".to_string()));
    assert_eq!(filter_transcription("yes"), Some("yes".to_string()));
}

#[test]
fn trimmed_decision_keeps_text_as_given() {
    assert_eq!(filter_trimmed("abc"), Some("abc".to_string()));
    assert_eq!(filter_trimmed(" a "), Some(" a ".to_string()));
    assert_eq!(filter_trimmed("a1"), None);
}

#[test]
fn ascii_case_is_ignored_only_for_ascii() {
    assert!(eq_ignore_ascii_case("Hello", "hELLO"));
    assert!(!eq_ignore_ascii_case("Hello", "Hell"));
    assert!(!eq_ignore_ascii_case("É", "é"));
    assert!(!eq_ignore_ascii_case("[", "{"));
}
