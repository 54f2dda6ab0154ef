use codecrafters_shell::parser::{contains_operator, parse_pipeline, parse_prompt, split_segments};
use codecrafters_shell::{Command, FileOutput, OutputStreams, ParseError, Sink};

fn words(items: &[&str]) -> Vec<String> {
    items.iter().map(|s| s.to_string()).collect()
}

fn exec(name: &str, args: &[&str]) -> Command {
    Command::Exec { command: name.to_string(), args: words(args) }
}

#[test]
fn segments_are_split_at_pipes() {
    assert_eq!(
        split_segments(&words(&["a", "b", "|", "c", "|", "d", "e"])),
        vec![words(&["a", "b"]), words(&["c"]), words(&["d", "e"])]
    );
}

#[test]
fn empty_segments_are_dropped() {
    assert_eq!(
        split_segments(&words(&["|", "a", "|", "|", "b", "|"])),
        vec![words(&["a"]), words(&["b"])]
    );
    assert_eq!(split_segments(&words(&["|", "|"])), Vec::<Vec<String>>::new());
    assert_eq!(split_segments(&[]), Vec::<Vec<String>>::new());
    assert_eq!(split_segments(&words(&["a"])), vec![words(&["a"])]);
}

#[test]
fn a_single_command_is_a_pipeline() {
    let (commands, streams) = parse_pipeline(parse_prompt("ls -l")).unwrap();
    assert_eq!(commands, vec![exec("ls", &["-l"])]);
    assert_eq!(streams, OutputStreams::default());
}

#[test]
fn each_segment_is_one_stage() {
    let (commands, streams) = parse_pipeline(parse_prompt("cat f | grep x | wc -l")).unwrap();
    assert_eq!(
        commands,
        vec![exec("cat", &["f"]), exec("grep", &["x"]), exec("wc", &["-l"])]
    );
    assert_eq!(streams, OutputStreams::default());
}

#[test]
fn builtins_can_be_stages() {
    let (commands, _) = parse_pipeline(parse_prompt("echo hi | type echo | pwd")).unwrap();
    assert_eq!(
        commands,
        vec![
            Command::Echo { text: "hi".to_string(), interpret_escapes: false },
            Command::Type("echo".to_string()),
            Command::Pwd,
        ]
    );
}

#[test]
fn the_sinks_are_those_of_the_last_stage() {
    let (commands, streams) = parse_pipeline(parse_prompt("ls | wc > out 2>> err")).unwrap();
    assert_eq!(commands, vec![exec("ls", &[]), exec("wc", &[])]);
    assert_eq!(
        streams,
        OutputStreams::new(
            Sink::File(FileOutput::new("out", false)),
            Sink::File(FileOutput::new("err", true))
        )
    );
}

#[test]
fn stray_pipes_are_tolerated() {
    let (commands, _) = parse_pipeline(parse_prompt("| ls || wc |")).unwrap();
    assert_eq!(commands, vec![exec("ls", &[]), exec("wc", &[])]);
}

#[test]
fn nothing_but_pipes_is_an_empty_pipeline() {
    assert_eq!(parse_pipeline(Vec::new()), Err(ParseError::EmptyPipeline));
    assert_eq!(parse_pipeline(parse_prompt("|")), Err(ParseError::EmptyPipeline));
    assert_eq!(parse_pipeline(parse_prompt(" | | ")), Err(ParseError::EmptyPipeline));
}

#[test]
fn a_redirect_before_the_last_stage_is_refused() {
    assert_eq!(parse_pipeline(parse_prompt("ls > out | wc")), Err(ParseError::InteriorRedirect));
    assert_eq!(parse_pipeline(parse_prompt("ls 2>> e | wc | cat")), Err(ParseError::InteriorRedirect));
    assert_eq!(parse_pipeline(parse_prompt("a | b > | c")), Err(ParseError::InteriorRedirect));
}

#[test]
fn an_operator_as_first_word_is_a_name() {
    let (commands, _) = parse_pipeline(parse_prompt("> | wc")).unwrap();
    assert_eq!(commands, vec![exec(">", &[]), exec("wc", &[])]);
}

#[test]
fn the_last_stage_needs_its_redirect_target() {
    assert_eq!(parse_pipeline(parse_prompt("ls | wc >")), Err(ParseError::MissingRedirectTarget));
    assert_eq!(parse_pipeline(parse_prompt("echo hi 2>")), Err(ParseError::MissingRedirectTarget));
}

#[test]
fn the_leftmost_error_is_reported() {
    assert_eq!(parse_pipeline(parse_prompt("a > f | b >")), Err(ParseError::InteriorRedirect));
}

#[test]
fn a_quoted_pipe_still_splits() {
    let (commands, _) = parse_pipeline(parse_prompt("echo a '|' b")).unwrap();
    assert_eq!(
        commands,
        vec![
            Command::Echo { text: "a".to_string(), interpret_escapes: false },
            exec("b", &[]),
        ]
    );
}

#[test]
fn operators_are_found_among_words() {
    assert!(contains_operator(&words(&["a", "2>", "b"])));
    assert!(contains_operator(&words(&[">>"])));
    assert!(!contains_operator(&words(&["a", "b", ">x"])));
    assert!(!contains_operator(&[]));
}
