use home_llm_bot::state::{BotMode, ConversationState};
use home_llm_bot::telegram::{
    answers_voice, failure_notice, on_text, sender_name, split_long_message, transcription_failure_notice,
    voice_echo, TextReply, TELEGRAM_MAX_LEN,
};

#[test]
fn commands_switch_mode() {
    let mut state = ConversationState::new(1);
    match on_text(&mut state, "/transcribe") {
        TextReply::Say(s) => assert!(s.starts_with("Transcribe-only mode on.")),
        _ => panic!("expected an acknowledgement"),
    }
    assert_eq!(state.mode, BotMode::TranscribeOnly);
    assert!(!answers_voice(&state));
    assert!(matches!(on_text(&mut state, "turn on the light"), TextReply::Ignore));
    match on_text(&mut state, "/respond") {
        TextReply::Say(s) => assert_eq!(s, "Respond mode on. Voice messages will be transcribed and acted on."),
        _ => panic!("expected an acknowledgement"),
    }
    assert_eq!(state.mode, BotMode::Respond);
    assert!(answers_voice(&state));
    assert!(matches!(on_text(&mut state, "turn on the light"), TextReply::Answer));
}

#[test]
fn sender_names() {
    assert_eq!(sender_name(Some("alice"), Some("Alice")), "alice");
    assert_eq!(sender_name(None, Some("Alice")), "Alice");
    assert_eq!(sender_name(None, None), "unknown");
}

#[test]
fn fixed_texts() {
    assert_eq!(voice_echo("bob", "ligar luz"), "\u{1f3a4} bob: ligar luz");
    assert_eq!(failure_notice(), "Sorry, something went wrong.");
    assert_eq!(transcription_failure_notice(), "Could not transcribe voice message.");
}

#[test]
fn short_reply_is_one_message() {
    assert_eq!(split_long_message("hello").0, vec!["hello".to_string()]);
    assert_eq!(split_long_message("").0, vec!["".to_string()]);
    let exact = "a".repeat(TELEGRAM_MAX_LEN);
    assert_eq!(split_long_message(&exact).0, vec![exact.clone()]);
}

#[test]
fn long_reply_is_cut_at_whitespace() {
    let text = format!("{} {}", "a".repeat(4000), "b".repeat(200));
    let (chunks, whole) = split_long_message(&text);
    assert!(whole);
    assert_eq!(chunks, vec!["a".repeat(4000), "b".repeat(200)]);
    for c in &chunks {
        assert!(c.len() <= TELEGRAM_MAX_LEN);
    }
}

#[test]
fn long_reply_without_whitespace_drops_the_cut_character() {
    let text = format!("{}xyz", "a".repeat(4096));
    let (chunks, whole) = split_long_message(&text);
    assert!(whole);
    assert_eq!(chunks, vec!["a".repeat(4096), "yz".to_string()]);
}

#[test]
fn spaces_after_a_cut_are_skipped() {
    // The cut is at the last whitespace of the window; the spaces before it
    // stay with the first message, those after the next cut would be skipped.
    let text = format!("{}    {}", "a".repeat(4090), "c".repeat(100));
    let (chunks, whole) = split_long_message(&text);
    assert!(whole);
    assert_eq!(chunks, vec![format!("{}   ", "a".repeat(4090)), "c".repeat(100)]);
    let text = format!("{}{}  {}", "a".repeat(4095), "b", "c".repeat(100));
    let (chunks, whole) = split_long_message(&text);
    assert!(whole);
    assert_eq!(chunks, vec![format!("{}b", "a".repeat(4095)), "c".repeat(100)]);
}

#[test]
fn cut_inside_a_character_is_refused() {
    // 4095 ASCII bytes then a two-byte character straddling the limit.
    let text = format!("{}é{}", "a".repeat(4095), "b".repeat(10));
    let (chunks, whole) = split_long_message(&text);
    assert!(!whole);
    assert!(chunks.is_empty());
    // Multi-byte text that lands exactly on the limit is cut there.
    let text = format!("{} {}", "é".repeat(2000), "é".repeat(100));
    assert!(!split_long_message(&text).1);
    // A multi-byte character dropped at a cut stops the cutting after that message.
    let text = format!("{}é{}", "a".repeat(4096), "b".repeat(10));
    let (chunks, whole) = split_long_message(&text);
    assert!(!whole);
    assert_eq!(chunks, vec!["a".repeat(4096)]);
    let text = format!("{} {}", "é".repeat(2000), "b".repeat(200));
    let (chunks, whole) = split_long_message(&text);
    assert!(whole);
    assert_eq!(chunks, vec!["é".repeat(2000), "b".repeat(200)]);
}
