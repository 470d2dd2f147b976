use forge::command::{Command, ConfigCommand};
use forge::ui::{
    command_action, config_key_not_found_message, context_reset_message, handle_chat_response, handle_stream_item,
    ChatResponse, ConsoleAction, StreamControl, TitleKind, ToolCallEnd, UIState, UiAction, Usage,
};

fn usage(p: u64, c: u64) -> Usage {
    Usage { prompt_tokens: p, completion_tokens: c, total_tokens: p + c }
}

#[test]
fn text_is_written_as_it_is() {
    let mut s = UIState::new();
    let out = handle_chat_response(&mut s, false, ChatResponse::Text("hi".to_string()));
    assert_eq!(out.len(), 1);
    assert!(matches!(&out[0], ConsoleAction::Write(t) if t == "hi"));
}

#[test]
fn tool_calls_show_only_in_verbose_mode() {
    let mut s = UIState::new();
    let quiet = handle_chat_response(&mut s, false, ChatResponse::ToolCallDetected("shell".to_string()));
    assert!(quiet.is_empty());
    let loud = handle_chat_response(&mut s, true, ChatResponse::ToolCallDetected("shell".to_string()));
    assert_eq!(loud.len(), 4);
    assert!(matches!(&loud[2], ConsoleAction::Title(TitleKind::Execute, n) if n == "shell"));

    let end = ToolCallEnd { name: "shell".to_string(), content: "boom".to_string(), is_error: true };
    let out = handle_chat_response(&mut s, true, ChatResponse::ToolCallEnd(end));
    assert!(matches!(&out[0], ConsoleAction::WriteLineDimmed(t) if t == "boom"));
    assert!(matches!(&out[1], ConsoleAction::Title(TitleKind::Failed, n) if n == "shell"));

    let start = handle_chat_response(&mut s, false, ChatResponse::ToolCallStart("shell".to_string()));
    assert_eq!(start.len(), 2);
    assert!(matches!(start[0], ConsoleAction::Newline));
}

#[test]
fn responses_update_the_session() {
    let mut s = UIState::new();
    handle_chat_response(&mut s, false, ChatResponse::ConversationStarted("c-1".to_string()));
    assert_eq!(s.current_conversation_id, Some("c-1".to_string()));
    handle_chat_response(&mut s, false, ChatResponse::PartialTitle("Dra".to_string()));
    assert_eq!(s.current_title, None);
    handle_chat_response(&mut s, false, ChatResponse::CompleteTitle("Draft".to_string()));
    assert_eq!(s.current_title, Some("Draft".to_string()));
    handle_chat_response(
        &mut s,
        false,
        ChatResponse::VariableSet { key: "mode".to_string(), value: "fast".to_string() },
    );
    assert_eq!(s.current_title, Some("Draft".to_string()));
    handle_chat_response(
        &mut s,
        false,
        ChatResponse::VariableSet { key: "title".to_string(), value: "Final".to_string() },
    );
    assert_eq!(s.current_title, Some("Final".to_string()));
    let out = handle_chat_response(&mut s, true, ChatResponse::Usage(usage(3, 4)));
    assert!(out.is_empty());
    assert_eq!(s.usage, usage(3, 4));
    let (title, u) = s.prompt_update();
    assert_eq!(title, Some("Final".to_string()));
    assert_eq!(u.total_tokens, 7);
}

#[test]
fn commands_lead_to_actions() {
    let mut s = UIState::new();
    s.current_title = Some("t".to_string());
    let a = command_action(&mut s, Command::Message("hello".to_string()));
    assert!(matches!(a, UiAction::Chat(ref m) if m == "hello"));
    assert_eq!(s.current_content, Some("hello".to_string()));
    assert_eq!(s.current_title, Some("t".to_string()));

    assert!(matches!(command_action(&mut s, Command::Info), UiAction::ShowInfo));
    assert_eq!(s.current_title, Some("t".to_string()));

    assert!(matches!(command_action(&mut s, Command::New), UiAction::ResetAndPrompt));
    assert_eq!(s.current_title, None);
    assert_eq!(s.current_content, None);

    assert!(matches!(command_action(&mut s, Command::Reload), UiAction::ResetAndReload));
    assert!(matches!(command_action(&mut s, Command::Exit), UiAction::Exit));
    assert!(matches!(command_action(&mut s, Command::End), UiAction::Exit));
    let set = Command::Config(ConfigCommand::SetValue("model".to_string(), "m1".to_string()));
    assert!(matches!(command_action(&mut s, set), UiAction::ConfigSet(ref k, ref v) if k == "model" && v == "m1"));
    let get = Command::Config(ConfigCommand::Get("model".to_string()));
    assert!(matches!(command_action(&mut s, get), UiAction::ConfigGet(ref k) if k == "model"));
    assert!(matches!(command_action(&mut s, Command::Config(ConfigCommand::List)), UiAction::ConfigList));
    assert!(matches!(command_action(&mut s, Command::Models), UiAction::ShowModels));
}

#[test]
fn front_end_messages() {
    assert!(context_reset_message().starts_with("All context was cleared"));
    assert_eq!(config_key_not_found_message("model"), "Config key 'model' not found");
}

#[test]
fn prompts_after_info_and_chat_show_the_session() {
    assert!(UiAction::ShowInfo.prompt_shows_session());
    assert!(UiAction::Chat("x".to_string()).prompt_shows_session());
    assert!(!UiAction::ResetAndPrompt.prompt_shows_session());
    assert!(!UiAction::ConfigList.prompt_shows_session());
    assert!(!UiAction::ShowModels.prompt_shows_session());
}

#[test]
fn stream_items_continue_until_the_end_or_an_error() {
    let mut s = UIState::new();
    let (out, c) = handle_stream_item(&mut s, false, Some(Ok(ChatResponse::CompleteTitle("T".to_string()))));
    assert!(out.is_empty());
    assert!(matches!(c, StreamControl::Continue));
    assert_eq!(s.current_title, Some("T".to_string()));
    let (out, c) = handle_stream_item(&mut s, false, Some(Err("lost".to_string())));
    assert!(out.is_empty());
    assert!(matches!(c, StreamControl::Failed(ref e) if e == "lost"));
    let (_, c) = handle_stream_item(&mut s, false, None);
    assert!(matches!(c, StreamControl::Finished));
    assert_eq!(s.current_title, Some("T".to_string()));
}
