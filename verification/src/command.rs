//! The commands a user types at the prompt, and how a line of input is read
//! as one of them.
use vstd::prelude::*;

use crate::text::{chars_of, copy_chars, eq_chars, is_ws, lemma_trim_surrounded, join, join_exec, skip_ws, starts_with_exec, string_of, trailing_ws_end, trim, trim_exec, words, words_exec};

verus! {

/// Configuration operations.
pub enum ConfigCommand {
    /// List all available configuration options.
    List,
    /// Get the value of a specific configuration key.
    Get(String),
    /// Set a configuration key to a specific value.
    SetValue(String, String),
}

/// The mathematical value of a `ConfigCommand`.
pub enum ConfigCommandView {
    List,
    Get(Seq<char>),
    SetValue(Seq<char>, Seq<char>),
}

impl View for ConfigCommand {
    type V = ConfigCommandView;

    open spec fn view(&self) -> ConfigCommandView {
        match self {
            ConfigCommand::List => ConfigCommandView::List,
            ConfigCommand::Get(k) => ConfigCommandView::Get(k@),
            ConfigCommand::SetValue(k, v) => ConfigCommandView::SetValue(k@, v@),
        }
    }
}

/// A line of user input: a system command (starting with '/') or a message.
pub enum Command {
    /// End the current session and exit the application (`/end`).
    End,
    /// Start a new conversation while preserving history (`/new`).
    New,
    /// Reload the conversation with its first prompt (`/reload`).
    Reload,
    /// A regular text message to be processed by the chat system.
    Message(String),
    /// Display system environment information (`/info`).
    Info,
    /// Exit the application without any further action (`/exit`).
    Exit,
    /// List the available models (`/models`).
    Models,
    /// Get, set or list configuration values (`/config ...`).
    Config(ConfigCommand),
}

/// The mathematical value of a `Command`.
pub enum CommandView {
    End,
    New,
    Reload,
    Message(Seq<char>),
    Info,
    Exit,
    Models,
    Config(ConfigCommandView),
}

impl View for Command {
    type V = CommandView;

    open spec fn view(&self) -> CommandView {
        match self {
            Command::End => CommandView::End,
            Command::New => CommandView::New,
            Command::Reload => CommandView::Reload,
            Command::Message(m) => CommandView::Message(m@),
            Command::Info => CommandView::Info,
            Command::Exit => CommandView::Exit,
            Command::Models => CommandView::Models,
            Command::Config(c) => CommandView::Config(c@),
        }
    }
}

/// Why a line could not be read as a command.
pub enum Error {
    CommandParse(String),
}

impl Error {
    /// The text of the error.
    pub open spec fn text(&self) -> Seq<char> {
        match self {
            Error::CommandParse(m) => m@,
        }
    }
}

/// The usage line of `/config set`.
pub open spec fn set_usage() -> Seq<char> {
    "Usage: /config set <key> <value>"@
}

/// The usage line of `/config get`.
pub open spec fn get_usage() -> Seq<char> {
    "Usage: /config get <key>"@
}

/// The message for an unknown `/config` subcommand `x`.
pub open spec fn invalid_subcommand(x: Seq<char>) -> Seq<char> {
    "Invalid config subcommand: "@ + x
        + ". Use 'set', 'get', or no subcommand to list all options"@
}

/// The configuration command that the words `args` (after `/config`) denote.
pub open spec fn spec_config_parse(args: Seq<Seq<char>>) -> Result<ConfigCommandView, Seq<char>> {
    if args.len() == 0 {
        Ok(ConfigCommandView::List)
    } else if args[0] == "set"@ {
        if args.len() < 3 {
            Err(set_usage())
        } else {
            Ok(ConfigCommandView::SetValue(args[1], join(args.skip(2), " "@)))
        }
    } else if args[0] == "get"@ {
        if args.len() != 2 {
            Err(get_usage())
        } else {
            Ok(ConfigCommandView::Get(args[1]))
        }
    } else {
        Err(invalid_subcommand(args[0]))
    }
}

/// `t` begins with `/config`.
pub open spec fn is_config_line(t: Seq<char>) -> bool {
    t.len() >= "/config"@.len() && t.take("/config"@.len() as int) == "/config"@
}

/// All words but the first (none when there are none).
pub open spec fn drop_first_word(ws: Seq<Seq<char>>) -> Seq<Seq<char>> {
    if ws.len() == 0 {
        Seq::empty()
    } else {
        ws.skip(1)
    }
}

/// The message for a line `t` that starts with `/` but names no command.
pub open spec fn unknown_command(t: Seq<char>) -> Seq<char> {
    "Unknown command: "@ + t
}

/// The command that the line `input` denotes, or the error message: a
/// trimmed line that starts with `/` must name a command.
pub open spec fn spec_parse(input: Seq<char>) -> Result<CommandView, Seq<char>> {
    let t = trim(input);
    if is_config_line(t) {
        match spec_config_parse(drop_first_word(words(t))) {
            Ok(c) => Ok(CommandView::Config(c)),
            Err(e) => Err(e),
        }
    } else if t == "/end"@ {
        Ok(CommandView::End)
    } else if t == "/new"@ {
        Ok(CommandView::New)
    } else if t == "/reload"@ {
        Ok(CommandView::Reload)
    } else if t == "/info"@ {
        Ok(CommandView::Info)
    } else if t == "/exit"@ {
        Ok(CommandView::Exit)
    } else if t == "/models"@ {
        Ok(CommandView::Models)
    } else if t.len() > 0 && t[0] == '/' {
        Err(unknown_command(t))
    } else {
        Ok(CommandView::Message(t))
    }
}

/// The command strings offered for validation, completion and help.
pub open spec fn spec_available_commands() -> Seq<Seq<char>> {
    seq![
        "/end"@,
        "/new"@,
        "/reload"@,
        "/info"@,
        "/exit"@,
        "/config"@,
        "/config set"@,
        "/config get"@,
        "/models"@,
    ]
}

impl ConfigCommand {
    /// Reads the words that follow `/config`.
    pub fn parse(args: &Vec<Vec<char>>) -> (r: Result<ConfigCommand, Error>)
        ensures
            match r {
                Ok(c) => spec_config_parse(args@.map_values(|w: Vec<char>| w@)) == Ok::<_, Seq<char>>(c@),
                Err(e) => spec_config_parse(args@.map_values(|w: Vec<char>| w@)) == Err::<ConfigCommandView, _>(e.text()),
            },
    {
        let ghost av = args@.map_values(|w: Vec<char>| w@);
        if args.len() == 0 {
            return Ok(ConfigCommand::List);
        }
        let set_w = chars_of("set");
        let get_w = chars_of("get");
        assert(av[0] == args@[0]@);
        if eq_chars(&args[0], &set_w) {
            if args.len() < 3 {
                return Err(Error::CommandParse(String::from_str("Usage: /config set <key> <value>")));
            }
            let mut rest: Vec<Vec<char>> = Vec::new();
            let mut i: usize = 2;
            while i < args.len()
                invariant
                    2 <= i <= args.len(),
                    av == args@.map_values(|w: Vec<char>| w@),
                    rest@.map_values(|w: Vec<char>| w@) == av.subrange(2, i as int),
                decreases args.len() - i,
            {
                let ghost before = rest@;
                rest.push(copy_chars(&args[i]));
                assert(rest@.map_values(|w: Vec<char>| w@) =~= before.map_values(|w: Vec<char>| w@).push(args@[i as int]@));
                assert(av.subrange(2, i + 1) =~= av.subrange(2, i as int).push(av[i as int]));
                i = i + 1;
            }
            assert(av.subrange(2, args.len() as int) =~= av.skip(2));
            let space = chars_of(" ");
            let value = join_exec(&rest, &space);
            assert(av[1] == args@[1]@);
            return Ok(ConfigCommand::SetValue(string_of(&args[1]), string_of(&value)));
        }
        if eq_chars(&args[0], &get_w) {
            if args.len() != 2 {
                return Err(Error::CommandParse(String::from_str("Usage: /config get <key>")));
            }
            assert(av[1] == args@[1]@);
            return Ok(ConfigCommand::Get(string_of(&args[1])));
        }
        let mut m = String::from_str("Invalid config subcommand: ");
        let x = string_of(&args[0]);
        m.append(x.as_str());
        m.append(". Use 'set', 'get', or no subcommand to list all options");
        Err(Error::CommandParse(m))
    }
}

impl Command {
    /// Returns a list of all available command strings.
    pub fn available_commands() -> (v: Vec<String>)
        ensures
            v@.map_values(|s: String| s@) == spec_available_commands(),
    {
        let v = vec![
            String::from_str("/end"),
            String::from_str("/new"),
            String::from_str("/reload"),
            String::from_str("/info"),
            String::from_str("/exit"),
            String::from_str("/config"),
            String::from_str("/config set"),
            String::from_str("/config get"),
            String::from_str("/models"),
        ];
        assert(v@.map_values(|s: String| s@) =~= spec_available_commands());
        v
    }

    /// Parses a line of input: trims whitespace, recognizes and validates
    /// commands (starting with '/') and turns any other text into a
    /// message; a line that starts with '/' and names no command is an
    /// error.
    pub fn parse(input: &str) -> (r: Result<Command, Error>)
        ensures
            match r {
                Ok(c) => spec_parse(input@) == Ok::<_, Seq<char>>(c@),
                Err(e) => spec_parse(input@) == Err::<CommandView, _>(e.text()),
            },
    {
        let raw = chars_of(input);
        let t = trim_exec(&raw);
        let config_w = chars_of("/config");
        if starts_with_exec(&t, &config_w) {
            let ws = words_exec(&t);
            let mut args: Vec<Vec<char>> = Vec::new();
            let mut i: usize = 1;
            let ghost wv = ws@.map_values(|w: Vec<char>| w@);
            assert(wv.len() == ws.len());
            while i < ws.len()
                invariant
                    1 <= i,
                    wv == ws@.map_values(|w: Vec<char>| w@),
                    i <= ws.len() ==> args@.map_values(|w: Vec<char>| w@) == wv.subrange(1, i as int),
                    i > ws.len() ==> args@.len() == 0 && ws.len() == 0,
                decreases ws.len() - i,
            {
                let ghost before = args@;
                args.push(copy_chars(&ws[i]));
                assert(args@.map_values(|w: Vec<char>| w@) =~= before.map_values(|w: Vec<char>| w@).push(ws@[i as int]@));
                assert(wv.subrange(1, i + 1) =~= wv.subrange(1, i as int).push(wv[i as int]));
                i = i + 1;
            }
            proof {
                if ws.len() == 0 {
                    assert(args@.map_values(|w: Vec<char>| w@) =~= drop_first_word(wv));
                } else {
                    assert(wv.subrange(1, ws.len() as int) =~= wv.skip(1));
                }
            }
            return match ConfigCommand::parse(&args) {
                Ok(c) => Ok(Command::Config(c)),
                Err(e) => Err(e),
            };
        }
        if eq_chars(&t, &chars_of("/end")) {
            Ok(Command::End)
        } else if eq_chars(&t, &chars_of("/new")) {
            Ok(Command::New)
        } else if eq_chars(&t, &chars_of("/reload")) {
            Ok(Command::Reload)
        } else if eq_chars(&t, &chars_of("/info")) {
            Ok(Command::Info)
        } else if eq_chars(&t, &chars_of("/exit")) {
            Ok(Command::Exit)
        } else if eq_chars(&t, &chars_of("/models")) {
            Ok(Command::Models)
        } else if t.len() > 0 && t[0] == '/' {
            let mut m = String::from_str("Unknown command: ");
            m.append(string_of(&t).as_str());
            Err(Error::CommandParse(m))
        } else {
            Ok(Command::Message(string_of(&t)))
        }
    }
}



/// Whitespace before and after a line does not change the command it is
/// read as.
pub proof fn law_parse_ignores_surrounding_whitespace(pre: Seq<char>, x: Seq<char>, post: Seq<char>)
    requires
        forall|i: int| 0 <= i < pre.len() ==> is_ws(#[trigger] pre[i]),
        forall|i: int| 0 <= i < post.len() ==> is_ws(#[trigger] post[i]),
    ensures
        spec_parse(pre + x + post) == spec_parse(x),
{
    lemma_trim_surrounded(pre, x, post);
}

/// A line that, once trimmed, does not begin with `/` is read as a message
/// holding the trimmed text.
pub proof fn law_plain_text_is_message(x: Seq<char>)
    requires
        trim(x).len() == 0 || trim(x)[0] != '/',
    ensures
        spec_parse(x) == Ok::<CommandView, Seq<char>>(CommandView::Message(trim(x))),
{
    let t = trim(x);
    reveal_strlit("/config");
    reveal_strlit("/end");
    reveal_strlit("/new");
    reveal_strlit("/reload");
    reveal_strlit("/info");
    reveal_strlit("/exit");
    reveal_strlit("/models");
    if t.len() > 0 {
        if t.len() >= 7 {
            assert(t.take(7)[0] == t[0]);
        }
        assert(!is_config_line(t));
        assert(t != "/end"@ && t != "/new"@ && t != "/reload"@ && t != "/info"@ && t != "/exit"@ && t
            != "/models"@);
    } else {
        assert(!is_config_line(t));
    }
}

/// Only a line that starts with `/` once trimmed can fail to parse: every
/// other line is a message.
pub proof fn law_only_slash_lines_fail(x: Seq<char>)
    ensures
        spec_parse(x) is Err ==> trim(x).len() > 0 && trim(x)[0] == '/',
{
    if !(trim(x).len() > 0 && trim(x)[0] == '/') {
        law_plain_text_is_message(x);
    }
}

/// Every advertised command is read as a command, never as a message.
pub proof fn law_available_commands_recognized(i: int)
    requires
        0 <= i < spec_available_commands().len(),
    ensures
        !(spec_parse(spec_available_commands()[i]) matches Ok(CommandView::Message(_))),
{
    let c = spec_available_commands()[i];
    reveal_strlit("/config");
    reveal_strlit("/config set");
    reveal_strlit("/config get");
    reveal_strlit("/end");
    reveal_strlit("/new");
    reveal_strlit("/reload");
    reveal_strlit("/info");
    reveal_strlit("/exit");
    reveal_strlit("/models");
    assert(c.len() > 0 && c[0] == '/' && !is_ws(c[0]) && !is_ws(c[c.len() - 1]));
    assert(skip_ws(c, 0) == 0);
    assert(trailing_ws_end(c, c.len() as int) == c.len());
    assert(trim(c) =~= c);
}

/// A source of user input: files to upload and lines typed at a prompt.
pub trait UserInput {
    type PromptInput;

    /// Reads the content of the file at `path` as a command.
    fn upload(&self, path: &str) -> Result<Command, String>;

    /// Prompts for a line, with optional text to show, and reads it as a command.
    fn prompt(&self, input: Option<Self::PromptInput>) -> Result<Command, String>;
}

} // verus!
