use llm_tui_assistant::types::{Command, KeyAction, Message, MessageRole, UserAction};
use llm_tui_assistant::ui::{parse_command, AppDisplayData, TuiState};
use std::time::Duration;

fn create_test_message(role: MessageRole, content: &str, provisional: bool) -> Message {
    Message {
        role,
        content: content.to_string(),
        timestamp: chrono::Utc::now().timestamp_millis(),
        provisional,
        context_files: vec![],
    }
}

fn create_test_app_data() -> AppDisplayData {
    AppDisplayData {
        messages: vec![
            create_test_message(MessageRole::User, "Hello", false),
            create_test_message(MessageRole::Assistant, "Hi there!", false),
            create_test_message(MessageRole::User, "Test provisional", true),
        ],
        provisional_mode: false,
        rag_enabled: true,
        current_status: "Ready".to_string(),
        streaming_response: None,
    }
}

#[test]
fn test_tui_state_default() {
    let state = TuiState::default();
    assert_eq!(state.input_buffer, "");
    assert_eq!(state.scroll_position, 0);
    assert!(!state.command_mode);
    assert!(state.status_message.is_none());
    assert!(!state.show_help);
    assert!(state.last_input_time.elapsed() < Duration::from_secs(1));
}

#[test]
fn test_app_display_data_default() {
    let data = AppDisplayData::default();
    assert!(data.messages.is_empty());
    assert!(!data.provisional_mode);
    assert!(!data.rag_enabled);
    assert_eq!(data.current_status, "");
    assert!(data.streaming_response.is_none());
}

#[test]
fn test_command_parsing_basic_commands() {
    assert!(matches!(parse_command("help"), Ok(Command::Help)));
    assert!(matches!(parse_command("config"), Ok(Command::Config)));
    assert!(matches!(parse_command("clear"), Ok(Command::Clear)));
    assert!(matches!(parse_command("toggle-rag"), Ok(Command::ToggleRag)));
    assert!(matches!(parse_command("toggle-prov"), Ok(Command::ToggleProvisional)));
    assert!(matches!(parse_command("toggle-provisional"), Ok(Command::ToggleProvisional)));
    assert!(matches!(parse_command("list-sources"), Ok(Command::ListSources)));
    assert!(matches!(parse_command("exit"), Ok(Command::Exit)));
    assert!(matches!(parse_command("quit"), Ok(Command::Exit)));
}

#[test]
fn test_command_parsing_with_arguments() {
    match parse_command("add-source /path/to/file") {
        Ok(Command::AddSource(path)) => {
            assert_eq!(path, "/path/to/file");
        }
        _ => panic!("Expected AddSource command"),
    }
    match parse_command("remove-source /another/path") {
        Ok(Command::RemoveSource(path)) => {
            assert_eq!(path, "/another/path");
        }
        _ => panic!("Expected RemoveSource command"),
    }
}

#[test]
fn test_command_parsing_errors() {
    assert!(parse_command("").is_err());
    assert!(parse_command("unknown-command").is_err());
    assert!(parse_command("add-source").is_err());
    assert!(parse_command("remove-source").is_err());
}

#[test]
fn test_command_parsing_whitespace_handling() {
    assert!(matches!(parse_command("  help  "), Ok(Command::Help)));
    assert!(matches!(parse_command("\tconfig\t"), Ok(Command::Config)));
    match parse_command("add-source /path with spaces/file.txt") {
        Ok(Command::AddSource(path)) => {
            assert_eq!(path, "/path");
        }
        _ => panic!("Expected AddSource command"),
    }
}

#[test]
fn test_input_buffer_operations() {
    let mut state = TuiState::default();
    assert_eq!(state.get_input_buffer(), "");
    state.input_buffer = "test input".to_string();
    assert_eq!(state.get_input_buffer(), "test input");
    state.clear_input_buffer();
    assert_eq!(state.get_input_buffer(), "");
}

#[test]
fn test_status_message_management() {
    let mut state = TuiState::default();
    state.set_status_message(Some("Test status".to_string()));
    assert_eq!(state.status_message, Some("Test status".to_string()));
    state.set_status_message(None);
    assert!(state.status_message.is_none());
}

#[test]
fn test_tui_state_mode_toggles() {
    let mut state = TuiState::default();
    assert!(!state.command_mode);
    state.command_mode = !state.command_mode;
    assert!(state.command_mode);
    assert!(!state.show_help);
    state.show_help = !state.show_help;
    assert!(state.show_help);
}

#[test]
fn test_message_role_display_properties() {
    let user_msg = create_test_message(MessageRole::User, "User message", false);
    let assistant_msg = create_test_message(MessageRole::Assistant, "Assistant message", false);
    let system_msg = create_test_message(MessageRole::System, "System message", false);
    assert!(matches!(user_msg.role, MessageRole::User));
    assert!(matches!(assistant_msg.role, MessageRole::Assistant));
    assert!(matches!(system_msg.role, MessageRole::System));
    let provisional_msg = create_test_message(MessageRole::User, "Provisional", true);
    assert!(provisional_msg.provisional);
}

#[test]
fn test_app_display_data_with_streaming() {
    let mut data = create_test_app_data();
    assert!(data.streaming_response.is_none());
    data.streaming_response = Some("Partial response...".to_string());
    assert_eq!(data.streaming_response, Some("Partial response...".to_string()));
}

#[test]
fn test_app_display_data_status_indicators() {
    let mut data = create_test_app_data();
    data.rag_enabled = true;
    assert!(data.rag_enabled);
    data.rag_enabled = false;
    assert!(!data.rag_enabled);
    data.provisional_mode = true;
    assert!(data.provisional_mode);
    data.provisional_mode = false;
    assert!(!data.provisional_mode);
    data.current_status = "Processing...".to_string();
    assert_eq!(data.current_status, "Processing...");
}

#[test]
fn test_message_timestamp_ordering() {
    let now = chrono::Utc::now().timestamp_millis();
    let msg1 = Message {
        role: MessageRole::User,
        content: "First message".to_string(),
        timestamp: now,
        provisional: false,
        context_files: vec![],
    };
    let msg2 = Message {
        role: MessageRole::Assistant,
        content: "Second message".to_string(),
        timestamp: now + 1000,
        provisional: false,
        context_files: vec![],
    };
    assert!(msg1.timestamp < msg2.timestamp);
}

#[test]
fn test_context_files_in_messages() {
    let context_files = vec!["/path/to/file1.txt".to_string(), "/path/to/file2.md".to_string()];
    let msg = Message {
        role: MessageRole::Assistant,
        content: "Response with context".to_string(),
        timestamp: chrono::Utc::now().timestamp_millis(),
        provisional: false,
        context_files: context_files.clone(),
    };
    assert_eq!(msg.context_files.len(), 2);
    assert_eq!(msg.context_files, context_files);
}

#[test]
fn test_scroll_position_bounds() {
    let mut state = TuiState::default();
    assert_eq!(state.scroll_position, 0);
    state.scroll_position = 5;
    assert_eq!(state.scroll_position, 5);
}

#[test]
fn test_message_display_formatting() {
    let data = create_test_app_data();
    assert_eq!(data.messages.len(), 3);
    assert_eq!(data.messages[0].content, "Hello");
    assert!(matches!(data.messages[0].role, MessageRole::User));
    assert!(!data.messages[0].provisional);
    assert_eq!(data.messages[1].content, "Hi there!");
    assert!(matches!(data.messages[1].role, MessageRole::Assistant));
    assert!(!data.messages[1].provisional);
    assert_eq!(data.messages[2].content, "Test provisional");
    assert!(matches!(data.messages[2].role, MessageRole::User));
    assert!(data.messages[2].provisional);
}

#[test]
fn test_status_bar_information() {
    let data = create_test_app_data();
    assert!(data.rag_enabled);
    assert!(!data.provisional_mode);
    assert_eq!(data.current_status, "Ready");
}

#[test]
fn test_command_vs_message_mode() {
    let mut state = TuiState::default();
    assert!(!state.command_mode);
    state.command_mode = true;
    assert!(state.command_mode);
    state.input_buffer = "test input".to_string();
    assert_eq!(state.input_buffer, "test input");
}

#[test]
fn test_help_display_toggle() {
    let mut state = TuiState::default();
    assert!(!state.show_help);
    state.show_help = true;
    assert!(state.show_help);
    state.show_help = false;
    assert!(!state.show_help);
}

#[test]
fn test_empty_input_buffer_operations() {
    let mut state = TuiState::default();
    assert_eq!(state.get_input_buffer(), "");
    state.clear_input_buffer();
    assert_eq!(state.get_input_buffer(), "");
}

#[test]
fn test_large_message_content() {
    let large_content = "x".repeat(10000);
    let msg = create_test_message(MessageRole::User, &large_content, false);
    assert_eq!(msg.content.len(), 10000);
    assert_eq!(msg.content, large_content);
}

#[test]
fn test_many_messages_display_data() {
    let mut data = AppDisplayData::default();
    for i in 0..1000 {
        data.messages.push(create_test_message(
            MessageRole::User,
            &format!("Message {}", i),
            i % 10 == 0,
        ));
    }
    assert_eq!(data.messages.len(), 1000);
    let provisional_count = data.messages.iter().filter(|m| m.provisional).count();
    assert_eq!(provisional_count, 100);
}

#[test]
fn test_special_characters_in_commands() {
    match parse_command("add-source /path/with-dashes/file_name.txt") {
        Ok(Command::AddSource(path)) => {
            assert_eq!(path, "/path/with-dashes/file_name.txt");
        }
        _ => panic!("Expected AddSource command"),
    }
}

#[test]
fn test_unicode_in_input_buffer() {
    let mut state = TuiState::default();
    state.input_buffer = "Hello 世界 🌍".to_string();
    assert_eq!(state.get_input_buffer(), "Hello 世界 🌍");
    state.clear_input_buffer();
    assert_eq!(state.get_input_buffer(), "");
}

#[test]
fn command_line_from_enter_is_parsed() {
    let mut state = TuiState::default();
    state.command_mode = true;
    state.input_buffer = "add-source /data".to_string();
    match state.apply_key(KeyAction::Enter) {
        Ok(Some(UserAction::ExecuteCommand(Command::AddSource(p)))) => assert_eq!(p, "/data"),
        _ => panic!("expected AddSource"),
    }
    assert_eq!(state.get_input_buffer(), "");
}
