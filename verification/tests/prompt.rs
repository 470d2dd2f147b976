use forge::autocomplete::{
    AutocompleteFormatter, DefaultAutocompleteFormatter, classify_key, format_suggestions, AutocompleteInput, InputCursor, KeyAction, KeyCode, KeyModifiers,
    PromptState, Suggester, SuggesterConfig, SuggestionContext,
};

struct Fixed {
    words: Vec<String>,
}

impl Suggester for Fixed {
    fn get_suggestions(&self, input: &str, pos: usize) -> SuggestionContext {
        match input[..pos].rfind('@') {
            Some(at) => SuggestionContext {
                suggestions: self.words.clone(),
                show_suggestions: true,
                replace_range: Some((at, pos)),
                submit_on_select: false,
            },
            None => SuggestionContext::empty(),
        }
    }
}

fn prompt_with(words: &[&str]) -> AutocompleteInput<Fixed> {
    let words = words.iter().map(|w| w.to_string()).collect();
    AutocompleteInput::new("Ask".to_string()).with_suggester(Fixed { words })
}

fn type_text(p: &mut AutocompleteInput<Fixed>, text: &str) {
    for c in text.chars() {
        p.handle(KeyCode::Char(c), KeyModifiers::Plain);
    }
}

#[test]
fn cursor_editing() {
    let mut c = InputCursor::new("héllo".to_string(), 5);
    c.move_left();
    c.move_left();
    assert_eq!(c.cursor(), 3);
    c.insert('X');
    assert_eq!(c.value(), "hélXlo");
    assert_eq!(c.cursor(), 4);
    c.delete_left_char();
    assert_eq!(c.value(), "héllo");
    assert_eq!(c.cursor(), 3);
    c.delete_right_char();
    assert_eq!(c.value(), "hélo");
    c.move_home();
    c.move_left();
    assert_eq!(c.cursor(), 0);
    c.delete_left_char();
    assert_eq!(c.value(), "hélo");
    c.move_end();
    assert_eq!(c.cursor(), 4);
    c.move_right();
    assert_eq!(c.cursor(), 4);
    c.delete_right_char();
    assert_eq!(c.value(), "hélo");
    assert!(!c.is_empty());
    assert!(InputCursor::new(" \t ".to_string(), 0).is_empty());
}

#[test]
fn insert_then_delete_restores_the_line() {
    let mut c = InputCursor::new("abc".to_string(), 1);
    c.insert('z');
    c.delete_left_char();
    assert_eq!(c.value(), "abc");
    assert_eq!(c.cursor(), 1);
}

#[test]
fn key_bindings() {
    assert_eq!(classify_key(KeyCode::Char('c'), KeyModifiers::Control), KeyAction::Cancel);
    assert_eq!(classify_key(KeyCode::Char('a'), KeyModifiers::Control), KeyAction::MoveHome);
    assert_eq!(classify_key(KeyCode::Char('e'), KeyModifiers::Control), KeyAction::MoveEnd);
    assert_eq!(classify_key(KeyCode::Char('x'), KeyModifiers::Control), KeyAction::Ignore);
    assert_eq!(classify_key(KeyCode::Char('A'), KeyModifiers::Shift), KeyAction::Insert('A'));
    assert_eq!(classify_key(KeyCode::Char('a'), KeyModifiers::Other), KeyAction::Ignore);
    assert_eq!(classify_key(KeyCode::Tab, KeyModifiers::Plain), KeyAction::Accept);
    assert_eq!(classify_key(KeyCode::Other, KeyModifiers::Plain), KeyAction::Ignore);
}

#[test]
fn enter_submits_only_non_blank_required_input() {
    let mut p = prompt_with(&[]);
    assert_eq!(p.handle(KeyCode::Enter, KeyModifiers::Plain), PromptState::Active);
    type_text(&mut p, "  ");
    assert_eq!(p.handle(KeyCode::Enter, KeyModifiers::Plain), PromptState::Active);
    type_text(&mut p, "go");
    assert_eq!(p.handle(KeyCode::Enter, KeyModifiers::Plain), PromptState::Submit);
    assert_eq!(p.submit(), "  go");
    assert_eq!(p.handle(KeyCode::Tab, KeyModifiers::Plain), PromptState::Active);
}

#[test]
fn escape_closes_suggestions_then_cancels() {
    let mut p = prompt_with(&["a.rs"]);
    type_text(&mut p, "@");
    assert!(p.suggestion_context.is_some());
    assert_eq!(p.handle(KeyCode::Esc, KeyModifiers::Plain), PromptState::Active);
    assert!(p.suggestion_context.is_none());
    assert_eq!(p.handle(KeyCode::Esc, KeyModifiers::Plain), PromptState::Cancel);
    assert_eq!(p.handle(KeyCode::Char('c'), KeyModifiers::Control), PromptState::Cancel);
}

#[test]
fn arrows_move_the_selection_within_the_list() {
    let mut p = prompt_with(&["a.rs", "b.rs", "c.rs"]);
    type_text(&mut p, "@");
    assert_eq!(p.selected_index, 0);
    p.handle(KeyCode::Up, KeyModifiers::Plain);
    assert_eq!(p.selected_index, 0);
    p.handle(KeyCode::Down, KeyModifiers::Plain);
    p.handle(KeyCode::Down, KeyModifiers::Plain);
    p.handle(KeyCode::Down, KeyModifiers::Plain);
    assert_eq!(p.selected_index, 2);
    p.handle(KeyCode::Up, KeyModifiers::Plain);
    assert_eq!(p.selected_index, 1);
    assert_eq!(p.handle(KeyCode::Tab, KeyModifiers::Plain), PromptState::Active);
    assert!(p.input.value().contains("b.rs"));
    assert!(!p.input.value().contains('@'));
    assert!(p.suggestion_context.is_none());
}

#[test]
fn selection_in_range_is_checked() {
    let mut p = prompt_with(&["a.rs"]);
    type_text(&mut p, "x@");
    assert!(p.check_selection_in_range());
    p.suggestion_context.as_mut().unwrap().replace_range = Some((0, 10));
    assert!(!p.check_selection_in_range());
}

#[test]
fn suggestion_list_marks_the_selected_line() {
    let list = format_suggestions(&vec!["one".to_string(), "two".to_string()], 1);
    let lines: Vec<&str> = list.split('\n').collect();
    assert_eq!(lines.len(), 2);
    assert_eq!(lines[0], "   one");
    assert!(lines[1].starts_with(' '));
    assert!(lines[1].contains('\u{2192}'));
    assert!(lines[1].contains("two"));
    assert!(lines[1].contains('\u{1b}'));
    assert_ne!(lines[1], " \u{2192} two");
    assert_eq!(format_suggestions(&vec![], 0), "");
}

#[test]
fn suggester_config_sorts_its_suggestions() {
    let c = SuggesterConfig::new(vec!["b.rs".to_string(), "B.rs".to_string(), "a.rs".to_string(), "b.rs".to_string()]);
    assert_eq!(c.suggestions, vec!["B.rs", "a.rs", "b.rs", "b.rs"]);
    assert!(c.trigger_chars.is_empty());
    assert!(!c.submit_on_select);
    let c = c.with_triggers(vec!['@']).with_submit_on_select(true);
    assert_eq!(c.trigger_chars, vec!['@']);
    assert!(c.submit_on_select);
}

#[test]
fn body_shows_the_suggestions_only_when_there_are_some() {
    let mut p = prompt_with(&["a.rs", "b.rs"]);
    assert_eq!(p.render_body(), None);
    type_text(&mut p, "@");
    let body = p.render_body().unwrap();
    assert!(body.starts_with(' '));
    assert!(body.ends_with("   b.rs"));
    let mut q = prompt_with(&[]);
    type_text(&mut q, "@");
    assert!(q.suggestion_context.is_some());
    assert_eq!(q.render_body(), None);
}

#[test]
fn prompt_settings_and_default_formatter() {
    let p = prompt_with(&[]).with_hint("h".to_string()).with_placeholder("type here".to_string());
    assert_eq!(p.hint, Some("h".to_string()));
    assert_eq!(p.placeholder, Some("type here".to_string()));
    assert_eq!(p.message, "Ask");
    assert!(p.required);
    let f = DefaultAutocompleteFormatter::new();
    assert_eq!(f.err_required(), "Required input");
    assert_eq!(f.suggestions(&vec!["x".to_string()], 5), "   x");
    let fixed = Fixed { words: vec![] };
    assert_eq!(fixed.format_suggestion("a.rs"), "a.rs");
}

#[test]
fn replace_range_is_in_bytes_of_the_line() {
    let mut p = prompt_with(&["a.rs"]);
    p.input = InputCursor::new("é@x".to_string(), 2);
    p.suggestion_context = Some(SuggestionContext {
        suggestions: vec!["a.rs".to_string()],
        show_suggestions: true,
        replace_range: Some((1, 3)),
        submit_on_select: false,
    });
    assert!(!p.check_selection_in_range());
    p.suggestion_context.as_mut().unwrap().replace_range = Some((2, 3));
    assert!(p.check_selection_in_range());
    assert_eq!(p.handle(KeyCode::Tab, KeyModifiers::Plain), PromptState::Active);
    let v = p.input.value();
    assert!(v.starts_with("é"));
    assert!(v.ends_with('x'));
    assert!(v.contains("a.rs"));
    assert!(!v.contains('@'));
    assert_eq!(p.input.cursor(), v.len() - 1);
    assert!(p.suggestion_context.is_none());
}

struct Quoted;

impl Suggester for Quoted {
    fn get_suggestions(&self, input: &str, pos: usize) -> SuggestionContext {
        SuggestionContext {
            suggestions: vec![format!("{}{}", &input[..pos], "!")],
            show_suggestions: true,
            replace_range: Some((0, pos)),
            submit_on_select: true,
        }
    }

    fn format_suggestion(&self, suggestion: &str) -> String {
        format!("'{}'", suggestion)
    }
}

#[test]
fn accepting_inserts_the_formatted_suggestion_and_may_submit() {
    let mut p = AutocompleteInput::new("Ask".to_string()).with_suggester(Quoted);
    p.handle(KeyCode::Char('h'), KeyModifiers::Plain);
    p.handle(KeyCode::Char('i'), KeyModifiers::Plain);
    assert_eq!(p.suggestion_context.as_ref().unwrap().suggestions, vec!["hi!".to_string()]);
    assert_eq!(p.handle(KeyCode::Enter, KeyModifiers::Plain), PromptState::Submit);
    assert!(p.submit().contains("'hi!'"));
}
