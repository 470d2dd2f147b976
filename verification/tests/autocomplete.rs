use forge::autocomplete::{
    AutocompleteInput, KeyCode, KeyModifiers, SuggesterConfig, Suggester, SuggestionContext,
};

struct SimpleSuggester {
    suggestions: SuggesterConfig,
}

impl SimpleSuggester {
    fn new(suggestions: Vec<String>) -> Self {
        Self { suggestions: SuggesterConfig::new(suggestions) }
    }

    fn with_triggers(mut self, triggers: Vec<char>) -> Self {
        self.suggestions.trigger_chars = triggers;
        self
    }
}

impl Suggester for SimpleSuggester {
    fn get_suggestions(&self, input: &str, pos: usize) -> SuggestionContext {
        let input_before_cursor = &input[..pos];
        if let Some((trigger_pos, _)) = input_before_cursor
            .char_indices()
            .rev()
            .find(|(_, c)| self.suggestions.trigger_chars.contains(c))
        {
            let query = &input[trigger_pos + 1..pos].to_lowercase();
            let filtered = self
                .suggestions
                .suggestions
                .iter()
                .filter(|s| s.contains(query))
                .take(5)
                .cloned()
                .collect();

            SuggestionContext {
                suggestions: filtered,
                replace_range: Some((trigger_pos, pos)),
                show_suggestions: !query.is_empty(),
                submit_on_select: self.suggestions.submit_on_select,
            }
        } else {
            SuggestionContext::empty()
        }
    }
}

#[test]
fn test_autocomplete_input_basic() {
    let suggester = SimpleSuggester::new(vec!["a.rs".to_owned(), "b.rs".to_owned()]);
    let input = AutocompleteInput::new("Test".to_string()).with_suggester(suggester);
    // Test initial state
    assert_eq!(input.input.value(), "");
    assert!(input.suggestion_context.is_none());
}

#[test]
fn test_autocomplete_filtering() {
    let suggester = SimpleSuggester::new(vec![
        "fibo.rs".to_owned(),
        "apple.rs".to_owned(),
        "apricot.rs".to_owned(),
    ])
    .with_triggers(vec!['@']);

    let mut input = AutocompleteInput::new("Test".to_string()).with_suggester(suggester);

    // Simulate typing 'a'
    input.handle(KeyCode::Char('@'), KeyModifiers::Plain);
    input.handle(KeyCode::Char('a'), KeyModifiers::Plain);
    assert!(input.suggestion_context.is_some());

    // Simulate typing 'p'
    input.handle(KeyCode::Char('p'), KeyModifiers::Plain);
    assert!(input.suggestion_context.is_some());

    assert_eq!(
        input.suggestion_context.as_ref().unwrap().suggestions,
        vec!["apple.rs".to_string(), "apricot.rs".to_string()]
    );
}

#[test]
fn test_suggestion_selection() {
    let suggester = SimpleSuggester::new(vec![
        "fibo.rs".to_owned(),
        "apple.rs".to_owned(),
        "apricot.rs".to_owned(),
    ])
    .with_triggers(vec!['@']);

    let mut input = AutocompleteInput::new("".to_string()).with_suggester(suggester);
    // Show suggestions
    input.handle(KeyCode::Char('@'), KeyModifiers::Plain);
    input.handle(KeyCode::Char('a'), KeyModifiers::Plain);
    input.handle(KeyCode::Char('p'), KeyModifiers::Plain);
    input.handle(KeyCode::Char('p'), KeyModifiers::Plain);
    input.handle(KeyCode::Tab, KeyModifiers::Plain);
    assert!(input.input.value().contains("apple.rs"));
}
