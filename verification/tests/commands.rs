use codecrafters_shell::commands::{
    cd_failure, command_not_found, type_builtin, type_found, type_missing,
};
use codecrafters_shell::parser::{parse_command, parse_prompt, resolve_command};
use codecrafters_shell::{
    builtin_commands, cd_target, interpret_escape_sequences, is_built_in, CdTarget, Command,
    CommandKind, FileOutput, OutputStreams, ParseError, Sink, StdErrOutput, StdOutput,
};

fn words(items: &[&str]) -> Vec<String> {
    items.iter().map(|s| s.to_string()).collect()
}

#[test]
fn builtins_are_listed_in_order() {
    assert_eq!(
        builtin_commands(),
        vec!["exit", "echo", "type", "pwd", "cd", "history"]
    );
}

#[test]
fn listed_names_are_builtins_and_no_others() {
    for name in builtin_commands() {
        assert!(is_built_in(&name));
    }
    for name in ["", "ls", "Echo", "EXIT", "echo ", " cd", "cdd", "ech", "typ", "historyx"] {
        assert!(!is_built_in(name));
    }
}

#[test]
fn kinds_and_names_correspond() {
    let kinds = [
        CommandKind::Exit,
        CommandKind::Echo,
        CommandKind::Type,
        CommandKind::Pwd,
        CommandKind::Cd,
        CommandKind::History,
    ];
    for kind in kinds {
        assert_eq!(CommandKind::from_name(&kind.name()), Some(kind));
    }
    assert_eq!(CommandKind::from_name("cat"), None);
    assert_eq!(CommandKind::Pwd.name(), "pwd");
}

#[test]
fn escapes_become_control_characters() {
    assert_eq!(interpret_escape_sequences("a\\tb"), "a\tb");
    assert_eq!(
        interpret_escape_sequences("\\n\\t\\r\\\\\\a\\b\\f\\v\\e"),
        "\n\t\r\\\x07\x08\x0C\x0B\x1B"
    );
}

#[test]
fn unknown_escapes_keep_both_characters() {
    assert_eq!(interpret_escape_sequences("a\\qb\\0"), "a\\qb\\0");
    assert_eq!(interpret_escape_sequences("\\é"), "\\é");
}

#[test]
fn a_trailing_backslash_is_kept() {
    assert_eq!(interpret_escape_sequences("abc\\"), "abc\\");
    assert_eq!(interpret_escape_sequences("\\"), "\\");
    assert_eq!(interpret_escape_sequences("a\\\\\\"), "a\\\\");
}

#[test]
fn text_without_backslashes_is_unchanged() {
    assert_eq!(interpret_escape_sequences(""), "");
    assert_eq!(interpret_escape_sequences("plain text n t"), "plain text n t");
}

#[test]
fn echo_with_flag_interprets_escapes() {
    let (command, _) = parse_command(parse_prompt("echo -e \"a\\tb\"")).unwrap();
    match command {
        Command::Echo { text, interpret_escapes } => {
            assert!(interpret_escapes);
            assert_eq!(text, "a\\tb");
            assert_eq!(interpret_escape_sequences(&text), "a\tb");
        }
        other => panic!("{:?}", other),
    }
}

#[test]
fn echo_without_flag_is_literal() {
    let (command, _) = parse_command(parse_prompt("echo \"a\\tb\"")).unwrap();
    assert_eq!(
        command,
        Command::Echo { text: "a\\tb".to_string(), interpret_escapes: false }
    );
}

#[test]
fn echo_flag_counts_only_in_front() {
    assert_eq!(
        resolve_command("echo", words(&["a", "-e"])),
        Command::Echo { text: "a -e".to_string(), interpret_escapes: false }
    );
    assert_eq!(
        resolve_command("echo", words(&["-e"])),
        Command::Echo { text: "".to_string(), interpret_escapes: true }
    );
    assert_eq!(
        resolve_command("echo", words(&["-e", "-e", "x"])),
        Command::Echo { text: "-e x".to_string(), interpret_escapes: true }
    );
    assert_eq!(
        resolve_command("echo", words(&[])),
        Command::Echo { text: "".to_string(), interpret_escapes: false }
    );
}

#[test]
fn builtins_take_their_joined_words() {
    assert_eq!(resolve_command("exit", words(&["1"])), Command::Exit);
    assert_eq!(resolve_command("pwd", words(&["x"])), Command::Pwd);
    assert_eq!(resolve_command("type", words(&["a", "b"])), Command::Type("a b".to_string()));
    assert_eq!(resolve_command("cd", words(&[])), Command::Cd("".to_string()));
    assert_eq!(resolve_command("cd", words(&["/tmp"])), Command::Cd("/tmp".to_string()));
    assert_eq!(resolve_command("history", words(&[])), Command::History(None));
    assert_eq!(
        resolve_command("history", words(&["-r", "f"])),
        Command::History(Some("-r f".to_string()))
    );
}

#[test]
fn other_names_are_programs() {
    assert_eq!(
        resolve_command("ls", words(&["-l", "a b"])),
        Command::Exec { command: "ls".to_string(), args: words(&["-l", "a b"]) }
    );
    assert_eq!(
        resolve_command("ECHO", words(&["x"])),
        Command::Exec { command: "ECHO".to_string(), args: words(&["x"]) }
    );
}

#[test]
fn a_command_carries_its_sinks() {
    let (command, streams) =
        parse_command(words(&["grep", "x", "2>>", "err", ">", "out", "f"])).unwrap();
    assert_eq!(
        command,
        Command::Exec { command: "grep".to_string(), args: words(&["x", "f"]) }
    );
    assert_eq!(
        streams,
        OutputStreams::new(
            Sink::File(FileOutput::new("out", false)),
            Sink::File(FileOutput::new("err", true))
        )
    );
}

#[test]
fn the_first_word_is_never_an_operator() {
    let (command, streams) = parse_command(words(&[">", "out"])).unwrap();
    assert_eq!(command, Command::Exec { command: ">".to_string(), args: words(&["out"]) });
    assert_eq!(streams, OutputStreams::default());
}

#[test]
fn a_command_needs_a_word() {
    assert_eq!(parse_command(Vec::new()), Err(ParseError::EmptyCommand));
}

#[test]
fn a_command_needs_its_redirect_target() {
    assert_eq!(parse_command(words(&["echo", "a", ">"])), Err(ParseError::MissingRedirectTarget));
}

#[test]
fn default_streams_are_the_terminal() {
    let streams = OutputStreams::default();
    assert_eq!(streams.stdout, Sink::Stdout(StdOutput::new()));
    assert_eq!(streams.stderr, Sink::Stderr(StdErrOutput::new()));
}

#[test]
fn cd_targets() {
    assert_eq!(cd_target(""), CdTarget::Home);
    assert_eq!(cd_target("~"), CdTarget::Home);
    assert_eq!(cd_target("~/"), CdTarget::HomeRelative("".to_string()));
    assert_eq!(cd_target("~/a/b"), CdTarget::HomeRelative("a/b".to_string()));
    assert_eq!(cd_target("/nonexistent"), CdTarget::Path("/nonexistent".to_string()));
    assert_eq!(cd_target("~x"), CdTarget::Path("~x".to_string()));
    assert_eq!(cd_target("a"), CdTarget::Path("a".to_string()));
    assert_eq!(cd_target("~~"), CdTarget::Path("~~".to_string()));
}

#[test]
fn messages() {
    assert_eq!(cd_failure("/nonexistent"), "cd: /nonexistent: No such file or directory");
    assert_eq!(type_builtin("echo"), "echo is a shell builtin");
    assert_eq!(type_found("ls", "/usr/bin/ls"), "ls is /usr/bin/ls");
    assert_eq!(type_missing("nope"), "nope: not found");
    assert_eq!(command_not_found("nope"), "nope: command not found");
}

#[test]
fn error_messages() {
    assert_eq!(ParseError::MissingRedirectTarget.message(), "redirect path missing");
    assert_eq!(ParseError::EmptyPipeline.message(), "empty pipeline");
    assert_eq!(ParseError::EmptyCommand.message(), "Empty command");
    assert_eq!(ParseError::InteriorRedirect.message(), "redirect before the last command");
}
