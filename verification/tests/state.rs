use home_llm_bot::state::{message_from_row, BotMode, ConversationState};

#[test]
fn test_add_message_to_history() {
    let mut state = ConversationState::new(1);
    state.add_message("user", "Turn on lights", None);
    assert_eq!(state.messages.len(), 1);
    assert_eq!(state.messages[0].role, "user");
    assert_eq!(state.messages[0].content, "Turn on lights");
}

#[test]
fn test_get_context_window() {
    let mut state = ConversationState::new(1);
    for i in 0..25 {
        state.add_message("user", &format!("Message {}", i), None);
    }
    let context = state.get_context_window(10);
    assert_eq!(context.len(), 10);
    assert_eq!(context[0].content, "Message 15");
}

#[test]
fn context_window_larger_than_history_returns_all() {
    let mut state = ConversationState::new(1);
    state.add_message("user", "a", Some("Ana".to_string()));
    state.add_message("assistant", "b", None);
    let context = state.get_context_window(20);
    assert_eq!(context.len(), 2);
    assert_eq!(context[0].sender_name, Some("Ana".to_string()));
    assert_eq!(context[1].content, "b");
    assert_eq!(state.get_context_window(0).len(), 0);
}

#[test]
fn new_state_starts_in_respond_mode_without_database() {
    let state = ConversationState::new(42);
    assert_eq!(state.family_id, 42);
    assert_eq!(state.mode, BotMode::Respond);
    assert!(state.messages.is_empty());
    assert!(state.pool.is_none());
}

#[test]
fn row_with_readable_timestamp_keeps_it() {
    let m = message_from_row(
        "assistant".to_string(),
        "hi".to_string(),
        Some("Bob".to_string()),
        "2024-01-02T03:04:05Z",
    );
    assert_eq!(m.role, "assistant");
    assert_eq!(m.content, "hi");
    assert_eq!(m.sender_name, Some("Bob".to_string()));
    assert_eq!(m.timestamp, 1704164645000);
}

#[test]
fn row_with_unreadable_timestamp_gets_current_time() {
    let m = message_from_row("user".to_string(), "x".to_string(), None, "not a date");
    assert!(m.timestamp > 1704164645000);
}
