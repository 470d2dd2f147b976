//! The decisions of the interactive front end: what each command leads to,
//! and how each streamed chat response changes the session and what it
//! shows.
use vstd::prelude::*;

use crate::command::{Command, CommandView, ConfigCommand, ConfigCommandView};
use crate::text::{chars_of, string_of};

verus! {

/// Token counts of a conversation.
#[derive(PartialEq, Eq, Structural, Clone, Copy, Debug)]
pub struct Usage {
    pub prompt_tokens: u64,
    pub completion_tokens: u64,
    pub total_tokens: u64,
}

impl Usage {
    /// No tokens.
    pub fn new() -> (u: Usage)
        ensures
            u == (Usage { prompt_tokens: 0, completion_tokens: 0, total_tokens: 0 }),
    {
        Usage { prompt_tokens: 0, completion_tokens: 0, total_tokens: 0 }
    }
}

/// The session as the front end tracks it.
pub struct UIState {
    pub current_conversation_id: Option<String>,
    pub current_title: Option<String>,
    pub current_content: Option<String>,
    pub usage: Usage,
}

/// The value of a `UIState`.
pub struct UIStateView {
    pub current_conversation_id: Option<Seq<char>>,
    pub current_title: Option<Seq<char>>,
    pub current_content: Option<Seq<char>>,
    pub usage: Usage,
}

/// The view of an optional string.
pub open spec fn opt_view(o: Option<String>) -> Option<Seq<char>> {
    match o {
        Some(s) => Some(s@),
        None => None,
    }
}

impl View for UIState {
    type V = UIStateView;

    open spec fn view(&self) -> UIStateView {
        UIStateView {
            current_conversation_id: opt_view(self.current_conversation_id),
            current_title: opt_view(self.current_title),
            current_content: opt_view(self.current_content),
            usage: self.usage,
        }
    }
}

/// The state of a fresh session.
pub open spec fn fresh_state() -> UIStateView {
    UIStateView {
        current_conversation_id: None,
        current_title: None,
        current_content: None,
        usage: Usage { prompt_tokens: 0, completion_tokens: 0, total_tokens: 0 },
    }
}

impl UIState {
    /// A fresh session.
    pub fn new() -> (s: UIState)
        ensures
            s@ == fresh_state(),
    {
        UIState { current_conversation_id: None, current_title: None, current_content: None, usage: Usage::new() }
    }

    /// What the prompt shows of the session: its title and usage.
    pub fn prompt_update(&self) -> (r: (Option<String>, Usage))
        ensures
            opt_view(r.0) == opt_view(self.current_title),
            r.1 == self.usage,
    {
        (copy_opt(&self.current_title), self.usage)
    }
}

/// A copy of an optional string.
fn copy_opt(o: &Option<String>) -> (r: Option<String>)
    ensures
        opt_view(r) == opt_view(*o),
{
    match o {
        Some(s) => Some(string_of(&chars_of(s.as_str()))),
        None => None,
    }
}

/// A tool's result as the front end shows it.
pub struct ToolCallEnd {
    pub name: String,
    pub content: String,
    pub is_error: bool,
}

/// A streamed chat response.
pub enum ChatResponse {
    Text(String),
    ToolCallDetected(String),
    ToolCallArgPart(String),
    ToolCallStart(String),
    ToolCallEnd(ToolCallEnd),
    ConversationStarted(String),
    ModifyContext,
    Complete,
    PartialTitle(String),
    CompleteTitle(String),
    VariableSet { key: String, value: String },
    FinishReason(String),
    Usage(Usage),
}

/// The kinds of title lines.
#[derive(PartialEq, Eq, Structural, Clone, Copy, Debug)]
pub enum TitleKind {
    Execute,
    Success,
    Failed,
}

/// What the console is told to do.
pub enum ConsoleAction {
    /// Write the text as it is.
    Write(String),
    /// Write the text dimmed.
    WriteDimmed(String),
    /// Write the text dimmed and end the line.
    WriteLineDimmed(String),
    /// End the line.
    Newline,
    /// Write a title line of the kind with the text, the current usage as
    /// its subtitle.
    Title(TitleKind, String),
}

/// The value of a `ConsoleAction`.
pub enum ConsoleActionView {
    Write(Seq<char>),
    WriteDimmed(Seq<char>),
    WriteLineDimmed(Seq<char>),
    Newline,
    Title(TitleKind, Seq<char>),
}

impl View for ConsoleAction {
    type V = ConsoleActionView;

    open spec fn view(&self) -> ConsoleActionView {
        match self {
            ConsoleAction::Write(s) => ConsoleActionView::Write(s@),
            ConsoleAction::WriteDimmed(s) => ConsoleActionView::WriteDimmed(s@),
            ConsoleAction::WriteLineDimmed(s) => ConsoleActionView::WriteLineDimmed(s@),
            ConsoleAction::Newline => ConsoleActionView::Newline,
            ConsoleAction::Title(k, s) => ConsoleActionView::Title(*k, s@),
        }
    }
}

/// The views of a list of console actions.
pub open spec fn actions_view(v: Seq<ConsoleAction>) -> Seq<ConsoleActionView> {
    v.map_values(|a: ConsoleAction| a@)
}

/// What a chat response shows, in verbose mode or not.
pub open spec fn response_output(verbose: bool, m: ChatResponse) -> Seq<ConsoleActionView> {
    match m {
        ChatResponse::Text(t) => seq![ConsoleActionView::Write(t@)],
        ChatResponse::ToolCallDetected(name) => if verbose {
            seq![
                ConsoleActionView::Newline,
                ConsoleActionView::Newline,
                ConsoleActionView::Title(TitleKind::Execute, name@),
                ConsoleActionView::Newline,
            ]
        } else {
            Seq::empty()
        },
        ChatResponse::ToolCallArgPart(arg) => if verbose {
            seq![ConsoleActionView::WriteDimmed(arg@)]
        } else {
            Seq::empty()
        },
        ChatResponse::ToolCallStart(_) => seq![ConsoleActionView::Newline, ConsoleActionView::Newline],
        ChatResponse::ToolCallEnd(r) => if verbose {
            seq![
                ConsoleActionView::WriteLineDimmed(r.content@),
                ConsoleActionView::Title(
                    if r.is_error { TitleKind::Failed } else { TitleKind::Success },
                    r.name@,
                ),
            ]
        } else {
            Seq::empty()
        },
        _ => Seq::empty(),
    }
}

/// How a chat response changes the session.
pub open spec fn response_state(s: UIStateView, m: ChatResponse) -> UIStateView {
    match m {
        ChatResponse::ConversationStarted(id) => UIStateView { current_conversation_id: Some(id@), ..s },
        ChatResponse::CompleteTitle(t) => UIStateView { current_title: Some(t@), ..s },
        ChatResponse::VariableSet { key, value } => if key@ == "title"@ {
            UIStateView { current_title: Some(value@), ..s }
        } else {
            s
        },
        ChatResponse::Usage(u) => UIStateView { usage: u, ..s },
        _ => s,
    }
}

/// Applies a streamed chat response to the session and returns what the
/// console shows for it.
pub fn handle_chat_response(state: &mut UIState, verbose: bool, message: ChatResponse) -> (out: Vec<ConsoleAction>)
    ensures
        final(state)@ == response_state(old(state)@, message),
        actions_view(out@) == response_output(verbose, message),
{
    let ghost m = message;
    let mut out: Vec<ConsoleAction> = Vec::new();
    match message {
        ChatResponse::Text(text) => {
            out.push(ConsoleAction::Write(text));
        },
        ChatResponse::ToolCallDetected(name) => {
            if verbose {
                out.push(ConsoleAction::Newline);
                out.push(ConsoleAction::Newline);
                out.push(ConsoleAction::Title(TitleKind::Execute, name));
                out.push(ConsoleAction::Newline);
            }
        },
        ChatResponse::ToolCallArgPart(arg) => {
            if verbose {
                out.push(ConsoleAction::WriteDimmed(arg));
            }
        },
        ChatResponse::ToolCallStart(_) => {
            out.push(ConsoleAction::Newline);
            out.push(ConsoleAction::Newline);
        },
        ChatResponse::ToolCallEnd(result) => {
            if verbose {
                let kind = if result.is_error { TitleKind::Failed } else { TitleKind::Success };
                out.push(ConsoleAction::WriteLineDimmed(result.content));
                out.push(ConsoleAction::Title(kind, result.name));
            }
        },
        ChatResponse::ConversationStarted(id) => {
            state.current_conversation_id = Some(id);
        },
        ChatResponse::ModifyContext => {},
        ChatResponse::Complete => {},
        ChatResponse::PartialTitle(_) => {},
        ChatResponse::CompleteTitle(title) => {
            state.current_title = Some(title);
        },
        ChatResponse::VariableSet { key, value } => {
            if key_is_title(&key) {
                state.current_title = Some(value);
            }
        },
        ChatResponse::FinishReason(_) => {},
        ChatResponse::Usage(u) => {
            state.usage = u;
        },
    }
    assert(actions_view(out@) =~= response_output(verbose, m));
    out
}

/// Whether reading the chat stream goes on after an item.
pub enum StreamControl {
    /// Read the next item.
    Continue,
    /// The stream ended.
    Finished,
    /// The stream failed with this error.
    Failed(String),
}

/// Handles one item read from the chat stream: a response is applied and
/// shown and reading goes on; the end of the stream or an error stops it,
/// leaving the session as it was.
pub fn handle_stream_item(state: &mut UIState, verbose: bool, item: Option<Result<ChatResponse, String>>) -> (r: (
    Vec<ConsoleAction>,
    StreamControl,
))
    ensures
        match item {
            Some(Ok(m)) => final(state)@ == response_state(old(state)@, m) && actions_view(r.0@) == response_output(
                verbose,
                m,
            ) && r.1 is Continue,
            Some(Err(e)) => final(state)@ == old(state)@ && r.0@.len() == 0 && r.1 == StreamControl::Failed(e),
            None => final(state)@ == old(state)@ && r.0@.len() == 0 && r.1 is Finished,
        },
{
    match item {
        Some(Ok(m)) => (handle_chat_response(state, verbose, m), StreamControl::Continue),
        Some(Err(e)) => (Vec::new(), StreamControl::Failed(e)),
        None => (Vec::new(), StreamControl::Finished),
    }
}

/// Whether `key` is `"title"`.
fn key_is_title(key: &String) -> (b: bool)
    ensures
        b == (key@ == "title"@),
{
    crate::text::eq_chars(&chars_of(key.as_str()), &chars_of("title"))
}

/// What the front end does for a command.
pub enum UiAction {
    /// Clear the session, say so, and prompt again.
    ResetAndPrompt,
    /// Clear the session, say so, and read the initial input again.
    ResetAndReload,
    /// Show environment and usage information and prompt again.
    ShowInfo,
    /// Send the message to the chat, then prompt again.
    Chat(String),
    /// Leave the loop.
    Exit,
    /// Show the available models, and prompt again.
    ShowModels,
    /// Set a configuration key, report it, and prompt again.
    ConfigSet(String, String),
    /// Show a configuration value, and prompt again.
    ConfigGet(String),
    /// Show all configuration values, and prompt again.
    ConfigList,
}

impl UiAction {
    /// Whether the prompt that follows the action shows the session's title
    /// and usage: after information is shown and after a chat.
    pub fn prompt_shows_session(&self) -> (b: bool)
        ensures
            b == (self is ShowInfo || self is Chat),
    {
        match self {
            UiAction::ShowInfo => true,
            UiAction::Chat(_) => true,
            _ => false,
        }
    }
}

/// The action for a command, and how the session changes before it.
pub open spec fn command_action_ok(c: CommandView, a: UiAction, s0: UIStateView, s1: UIStateView) -> bool {
    match c {
        CommandView::New => a is ResetAndPrompt && s1 == fresh_state(),
        CommandView::Reload => a is ResetAndReload && s1 == fresh_state(),
        CommandView::Info => a is ShowInfo && s1 == s0,
        CommandView::Message(m) => a matches UiAction::Chat(t) && t@ == m && s1 == UIStateView {
            current_content: Some(m),
            ..s0
        },
        CommandView::End => a is Exit && s1 == s0,
        CommandView::Exit => a is Exit && s1 == s0,
        CommandView::Models => a is ShowModels && s1 == s0,
        CommandView::Config(ConfigCommandView::SetValue(k, v)) => a matches UiAction::ConfigSet(k2, v2) && k2@ == k
            && v2@ == v && s1 == s0,
        CommandView::Config(ConfigCommandView::Get(k)) => a matches UiAction::ConfigGet(k2) && k2@ == k && s1 == s0,
        CommandView::Config(ConfigCommandView::List) => a is ConfigList && s1 == s0,
    }
}

/// Decides what a command leads to, clearing or updating the session first.
pub fn command_action(state: &mut UIState, command: Command) -> (a: UiAction)
    ensures
        command_action_ok(command@, a, old(state)@, final(state)@),
{
    match command {
        Command::New => {
            *state = UIState::new();
            UiAction::ResetAndPrompt
        },
        Command::Reload => {
            *state = UIState::new();
            UiAction::ResetAndReload
        },
        Command::Info => UiAction::ShowInfo,
        Command::Message(content) => {
            state.current_content = Some(string_of(&chars_of(content.as_str())));
            UiAction::Chat(content)
        },
        Command::End => UiAction::Exit,
        Command::Exit => UiAction::Exit,
        Command::Models => UiAction::ShowModels,
        Command::Config(ConfigCommand::SetValue(k, v)) => UiAction::ConfigSet(k, v),
        Command::Config(ConfigCommand::Get(k)) => UiAction::ConfigGet(k),
        Command::Config(ConfigCommand::List) => UiAction::ConfigList,
    }
}

/// The message shown when a command clears the session.
pub fn context_reset_message() -> (m: String)
    ensures
        m@ == "All context was cleared, and we're starting fresh. Please re-add files and details so we can get started."@,
{
    String::from_str(
        "All context was cleared, and we're starting fresh. Please re-add files and details so we can get started.",
    )
}

/// The message shown when a configuration key is not set.
pub fn config_key_not_found_message(key: &str) -> (m: String)
    ensures
        m@ == "Config key '"@ + key@ + "' not found"@,
{
    let mut m = String::from_str("Config key '");
    m.append(key);
    m.append("' not found");
    m
}

/// Title kinds follow what happened: an execution title only announces a
/// detected tool call, a success title only ends a tool call that did not
/// fail, and a failure title only ends one that did.
pub proof fn law_title_kinds(verbose: bool, m: ChatResponse, i: int)
    requires
        0 <= i < response_output(verbose, m).len(),
    ensures
        response_output(verbose, m)[i] matches ConsoleActionView::Title(k, _) ==> {
            &&& k == TitleKind::Execute ==> m is ToolCallDetected
            &&& k == TitleKind::Success ==> (m matches ChatResponse::ToolCallEnd(r) && !r.is_error)
            &&& k == TitleKind::Failed ==> (m matches ChatResponse::ToolCallEnd(r) && r.is_error)
        },
{
}

/// In verbose mode a finished tool call shows its output dimmed and then a
/// title with the tool's name: a success title when the call did not fail,
/// a failure title when it did.
pub proof fn law_tool_end_titled_by_outcome(r: ToolCallEnd)
    ensures
        ({
            let out = response_output(true, ChatResponse::ToolCallEnd(r));
            &&& out.len() == 2
            &&& out[0] == ConsoleActionView::WriteLineDimmed(r.content@)
            &&& out[1] matches ConsoleActionView::Title(k, n) && n == r.name@
                && (k == TitleKind::Success <==> !r.is_error) && (k == TitleKind::Failed <==> r.is_error)
        }),
{
}

/// A command whose action clears the session leaves no conversation, no
/// title, no content and no usage.
pub proof fn law_reset_actions_clear_session(c: CommandView, a: UiAction, s0: UIStateView, s1: UIStateView)
    requires
        command_action_ok(c, a, s0, s1),
        a is ResetAndPrompt || a is ResetAndReload,
    ensures
        s1.current_conversation_id is None,
        s1.current_title is None,
        s1.current_content is None,
        s1.usage.prompt_tokens == 0 && s1.usage.completion_tokens == 0 && s1.usage.total_tokens == 0,
{
}

/// Every other command keeps the conversation, its title and its usage.
pub proof fn law_other_actions_keep_conversation(c: CommandView, a: UiAction, s0: UIStateView, s1: UIStateView)
    requires
        command_action_ok(c, a, s0, s1),
        !(a is ResetAndPrompt || a is ResetAndReload),
    ensures
        s1.current_conversation_id == s0.current_conversation_id,
        s1.current_title == s0.current_title,
        s1.usage == s0.usage,
{
}

/// What a response does to the session: a started conversation sets the
/// conversation, a complete title or a variable named `title` sets the
/// title, usage sets the usage, and nothing else changes anything; the
/// content typed by the user is never touched.
pub proof fn law_response_state(s: UIStateView, m: ChatResponse)
    ensures
        response_state(s, m).current_content == s.current_content,
        response_state(s, m).current_conversation_id == match m {
            ChatResponse::ConversationStarted(id) => Some(id@),
            _ => s.current_conversation_id,
        },
        response_state(s, m).usage == match m {
            ChatResponse::Usage(u) => u,
            _ => s.usage,
        },
        response_state(s, m).current_title == match m {
            ChatResponse::CompleteTitle(t) => Some(t@),
            ChatResponse::VariableSet { key, value } => if key@ == "title"@ {
                Some(value@)
            } else {
                s.current_title
            },
            _ => s.current_title,
        },
{
}

/// Text is written as it comes, in either mode; without verbose mode no
/// title and nothing dimmed is shown.
pub proof fn law_quiet_mode_shows_no_titles(m: ChatResponse, i: int)
    requires
        0 <= i < response_output(false, m).len(),
    ensures
        !(response_output(false, m)[i] is Title),
        !(response_output(false, m)[i] is WriteDimmed),
        !(response_output(false, m)[i] is WriteLineDimmed),
        m matches ChatResponse::Text(t) ==> response_output(false, m)[i] == ConsoleActionView::Write(t@),
{
}

} // verus!
