use cforge::history_file::{
    maybe_create_message, HistoryFile, Message, Role, DELIMITER_AI_RESPONSE,
    DELIMITER_USER_INPUT,
};

fn pairs(ms: &[Message]) -> Vec<(Role, String)> {
    ms.iter().map(|m| (m.role, m.content.clone())).collect()
}

fn with_content(content: &str) -> HistoryFile {
    let mut history_file = HistoryFile::new(
        "/tmp/test_history.txt".to_string(),
        "test_history.txt".to_string(),
        String::new(),
    );
    history_file.content = content.to_string();
    history_file
}

fn create_message(delimiter: &str, content: &str) -> String {
    format!("{}{}", delimiter, content)
}

#[test]
fn test_json_parsing_empty_file() {
    let history_file = with_content("");
    assert!(history_file.to_messages().is_empty());
}

#[test]
fn test_json_parsing_linear_messages() {
    let content = format!(
        "{}{}{}{}{}{}",
        create_message(DELIMITER_USER_INPUT, "User message 1"),
        create_message(DELIMITER_AI_RESPONSE, "AI response 1"),
        create_message(DELIMITER_USER_INPUT, "User message 2"),
        create_message(DELIMITER_AI_RESPONSE, "AI response 2"),
        create_message(DELIMITER_USER_INPUT, "User message 3"),
        create_message(DELIMITER_AI_RESPONSE, "AI response 3"),
    );
    let history_file = with_content(&content);
    let expected = vec![
        (Role::User, "User message 1".to_string()),
        (Role::Assistant, "AI response 1".to_string()),
        (Role::User, "User message 2".to_string()),
        (Role::Assistant, "AI response 2".to_string()),
        (Role::User, "User message 3".to_string()),
        (Role::Assistant, "AI response 3".to_string()),
    ];
    assert_eq!(pairs(&history_file.to_messages()), expected);
}

#[test]
fn test_json_parsing_non_linear_messages() {
    let content = format!(
        "{}{}{}{}{}{}",
        create_message(DELIMITER_USER_INPUT, "User message 1"),
        create_message(DELIMITER_USER_INPUT, "User message 2"),
        create_message(DELIMITER_AI_RESPONSE, "AI response 1"),
        create_message(DELIMITER_USER_INPUT, "User message 3"),
        create_message(DELIMITER_AI_RESPONSE, "AI response 2"),
        create_message(DELIMITER_AI_RESPONSE, "AI response 3"),
    );
    let history_file = with_content(&content);
    let expected = vec![
        (Role::User, "User message 1".to_string()),
        (Role::User, "User message 2".to_string()),
        (Role::Assistant, "AI response 1".to_string()),
        (Role::User, "User message 3".to_string()),
        (Role::Assistant, "AI response 2".to_string()),
        (Role::Assistant, "AI response 3".to_string()),
    ];
    assert_eq!(pairs(&history_file.to_messages()), expected);
}

#[test]
fn test_json_parsing_empty_messages() {
    let content = format!(
        "{}{}{}",
        DELIMITER_USER_INPUT, DELIMITER_AI_RESPONSE, DELIMITER_USER_INPUT
    );
    let history_file = with_content(&content);
    assert!(history_file.to_messages().is_empty());
}

#[test]
fn test_json_parsing_whitespace_only_messages() {
    let content = format!(
        "{}{}{}{}",
        DELIMITER_USER_INPUT, "   \n  \t  ", DELIMITER_AI_RESPONSE, "  \n\n  "
    );
    let history_file = with_content(&content);
    assert!(history_file.to_messages().is_empty());
}

#[test]
fn test_json_parsing_content_without_delimiters() {
    let content = "This is some content without any delimiters.".to_string();
    let history_file = with_content(&content);
    assert_eq!(pairs(&history_file.to_messages()), vec![(Role::User, content)]);
}

#[test]
fn test_json_parsing_multiline_content() {
    let content = format!(
        "{}{}{}{}",
        DELIMITER_USER_INPUT,
        "Line 1\nLine 2\nLine 3",
        DELIMITER_AI_RESPONSE,
        "Response\nWith\nMultiple\nLines"
    );
    let history_file = with_content(&content);
    let expected = vec![
        (Role::User, "Line 1\nLine 2\nLine 3".to_string()),
        (Role::Assistant, "Response\nWith\nMultiple\nLines".to_string()),
    ];
    assert_eq!(pairs(&history_file.to_messages()), expected);
}

#[test]
fn test_json_parsing_with_large_content() {
    let large_text = "A".repeat(10_000);
    let content = format!("{}{}", DELIMITER_USER_INPUT, large_text);
    let history_file = with_content(&content);
    assert_eq!(
        pairs(&history_file.to_messages()),
        vec![(Role::User, large_text.trim().to_string())]
    );
}

#[test]
fn test_maybe_create_message_with_empty_content() {
    assert!(maybe_create_message(Role::User, "").is_none());
    assert!(maybe_create_message(Role::User, "  \n  \t  ").is_none());
}

#[test]
fn test_maybe_create_message_with_valid_content() {
    let m = maybe_create_message(Role::User, "Hello").unwrap();
    assert_eq!((m.role, m.content.as_str()), (Role::User, "Hello"));
    let m = maybe_create_message(Role::Assistant, "  Response  ").unwrap();
    assert_eq!((m.role, m.content.as_str()), (Role::Assistant, "Response"));
}

#[test]
fn test_new_reads_existing_content() {
    let history_file = HistoryFile::new(
        "/tmp/existing.txt".to_string(),
        "existing.txt".to_string(),
        "Existing content".to_string(),
    );
    assert_eq!(history_file.get_content(), "Existing content");
    assert_eq!(history_file.filename, "existing.txt");
}

#[test]
fn test_append_user_input() {
    let mut history_file = with_content("");
    let user_input = "User message";
    history_file.append_user_input(user_input);
    let expected = format!("{}{}", DELIMITER_USER_INPUT, user_input);
    assert_eq!(history_file.get_content(), expected);
    assert_eq!(HistoryFile::user_entry(user_input), expected);
}

#[test]
fn test_append_multiple_entries() {
    let mut history_file = with_content("");
    history_file.append_user_input("User message 1");
    history_file.append_ai_response("AI response 1");
    history_file.append_user_input("User message 2");
    let content = history_file.get_content();
    assert!(content.contains("User message 1"));
    assert!(content.contains("AI response 1"));
    assert!(content.contains("User message 2"));
}

#[test]
fn test_append_ai_response_normal() {
    let mut history_file = with_content("");
    let ai_response = "AI response";
    let entry = history_file.append_ai_response(ai_response);
    let expected = format!("{}{}", DELIMITER_AI_RESPONSE, ai_response);
    assert_eq!(history_file.get_content(), expected);
    assert_eq!(entry, expected);
    assert_eq!(HistoryFile::ai_entry(ai_response), expected);
}

#[test]
fn test_newline_handling() {
    let mut history_file = with_content("Initial content");
    let user_input = "User message";
    history_file.append_user_input(user_input);
    assert!(!history_file.get_content().contains("\n\n\n"));
    let expected = format!("{}{}", DELIMITER_USER_INPUT, user_input);
    assert!(history_file.get_content().contains(&expected));
}

#[test]
fn append_then_read_back_single_turn() {
    let mut history_file = with_content("");
    history_file.append_user_input("hi");
    assert_eq!(
        pairs(&history_file.to_messages()),
        vec![(Role::User, "hi".to_string())]
    );
}

#[test]
fn consecutive_user_banners_drop_empty_span() {
    let content = format!("{}{}{}", DELIMITER_USER_INPUT, DELIMITER_USER_INPUT, "question");
    let history_file = with_content(&content);
    assert_eq!(
        pairs(&history_file.to_messages()),
        vec![(Role::User, "question".to_string())]
    );
}

#[test]
fn alternating_turns_read_back_trimmed_in_order() {
    let mut history_file = with_content("");
    history_file.append_user_input("  first question \n");
    history_file.append_ai_response("\tfirst answer");
    history_file.append_user_input("   ");
    history_file.append_ai_response("second answer  ");
    history_file.append_user_input("last");
    let expected = vec![
        (Role::User, "first question".to_string()),
        (Role::Assistant, "first answer".to_string()),
        (Role::Assistant, "second answer".to_string()),
        (Role::User, "last".to_string()),
    ];
    assert_eq!(pairs(&history_file.to_messages()), expected);
}

#[test]
fn text_before_first_banner_is_the_users() {
    let content = format!("  preface \n{}{}", DELIMITER_AI_RESPONSE, "reply");
    let history_file = with_content(&content);
    let expected = vec![
        (Role::User, "preface".to_string()),
        (Role::Assistant, "reply".to_string()),
    ];
    assert_eq!(pairs(&history_file.to_messages()), expected);
}

#[test]
fn unicode_white_space_is_trimmed() {
    let content = format!("{}{}", DELIMITER_USER_INPUT, "\u{3000}\u{a0}text\u{2029}");
    let history_file = with_content(&content);
    assert_eq!(
        pairs(&history_file.to_messages()),
        vec![(Role::User, "text".to_string())]
    );
}

#[test]
fn reload_with_unchanged_text_keeps_content() {
    let mut history_file = with_content("");
    history_file.append_user_input("hello");
    let before = history_file.get_content().to_string();
    history_file.reload_content(before.clone());
    assert_eq!(history_file.get_content(), before);
    history_file.reload_content(String::new());
    assert_eq!(history_file.get_content(), "");
}

#[test]
fn role_names() {
    assert_eq!(Role::User.as_str(), "user");
    assert_eq!(Role::Assistant.as_str(), "assistant");
}
