use forge::command::{Command, ConfigCommand, Error};

fn parse_ok(s: &str) -> Command {
    match Command::parse(s) {
        Ok(c) => c,
        Err(_) => panic!("expected a command for {:?}", s),
    }
}

fn parse_err(s: &str) -> String {
    match Command::parse(s) {
        Ok(_) => panic!("expected an error for {:?}", s),
        Err(Error::CommandParse(m)) => m,
    }
}

#[test]
fn commands_are_recognized() {
    assert!(matches!(parse_ok("/end"), Command::End));
    assert!(matches!(parse_ok("/new"), Command::New));
    assert!(matches!(parse_ok("/reload"), Command::Reload));
    assert!(matches!(parse_ok("/info"), Command::Info));
    assert!(matches!(parse_ok("/exit"), Command::Exit));
    assert!(matches!(parse_ok("  /exit \n"), Command::Exit));
}

#[test]
fn other_text_is_a_trimmed_message() {
    match parse_ok("  hello world \t") {
        Command::Message(m) => assert_eq!(m, "hello world"),
        _ => panic!("not a message"),
    }
    match parse_ok("path /unknown") {
        Command::Message(m) => assert_eq!(m, "path /unknown"),
        _ => panic!("not a message"),
    }
    match parse_ok("   ") {
        Command::Message(m) => assert_eq!(m, ""),
        _ => panic!("not a message"),
    }
}

#[test]
fn unknown_commands_are_rejected() {
    assert_eq!(parse_err("/unknown"), "Unknown command: /unknown");
    assert_eq!(parse_err("  /foo bar "), "Unknown command: /foo bar");
    assert_eq!(parse_err("/"), "Unknown command: /");
}

#[test]
fn every_advertised_command_is_a_command() {
    assert!(matches!(parse_ok("/models"), Command::Models));
    for c in Command::available_commands() {
        assert!(!matches!(Command::parse(&c), Ok(Command::Message(_))), "{}", c);
    }
}

#[test]
fn config_commands() {
    assert!(matches!(parse_ok("/config"), Command::Config(ConfigCommand::List)));
    match parse_ok("/config get model") {
        Command::Config(ConfigCommand::Get(k)) => assert_eq!(k, "model"),
        _ => panic!("not a get"),
    }
    match parse_ok("/config set  model   gpt 4  turbo ") {
        Command::Config(ConfigCommand::SetValue(k, v)) => {
            assert_eq!(k, "model");
            assert_eq!(v, "gpt 4 turbo");
        }
        _ => panic!("not a set"),
    }
}

#[test]
fn config_errors() {
    assert_eq!(parse_err("/config set model"), "Usage: /config set <key> <value>");
    assert_eq!(parse_err("/config get"), "Usage: /config get <key>");
    assert_eq!(parse_err("/config get a b"), "Usage: /config get <key>");
    assert_eq!(
        parse_err("/config frob"),
        "Invalid config subcommand: frob. Use 'set', 'get', or no subcommand to list all options"
    );
}

#[test]
fn available_commands_list() {
    assert_eq!(
        Command::available_commands(),
        vec!["/end", "/new", "/reload", "/info", "/exit", "/config", "/config set", "/config get", "/models"]
    );
}
