use voice_segmenter::reply::{transcription_text, ReplyError};

#[test]
fn text_member_is_the_transcription() {
    assert_eq!(transcription_text(br#"{"text":"Turn left at the light"}"#), Ok("Turn left at the light".to_string()));
    assert_eq!(transcription_text(" { \"lang\": \"fr\", \"text\": \"café\" } ".as_bytes()), Ok("café".to_string()));
}

#[test]
fn missing_or_non_string_text_is_empty() {
    assert_eq!(transcription_text(br#"{}"#), Ok(String::new()));
    assert_eq!(transcription_text(br#"{"text": 5}"#), Ok(String::new()));
    assert_eq!(transcription_text(br#"["text"]"#), Ok(String::new()));
}

#[test]
fn malformed_reply_is_refused() {
    assert_eq!(transcription_text(b"not json"), Err(ReplyError::NotJson));
    assert_eq!(transcription_text(b""), Err(ReplyError::NotJson));
    assert_eq!(transcription_text(br#"{"text":"a"} trailing"#), Err(ReplyError::NotJson));
}
