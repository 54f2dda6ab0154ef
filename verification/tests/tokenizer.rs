use codecrafters_shell::parser::parse_prompt;
use codecrafters_shell::text::join_words;

fn words(items: &[&str]) -> Vec<String> {
    items.iter().map(|s| s.to_string()).collect()
}

#[test]
fn adjacent_double_quoted_runs_join() {
    assert_eq!(parse_prompt("echo \"a\"\"b\""), vec!["echo", "ab"]);
}

#[test]
fn pipe_without_blanks_is_its_own_token() {
    assert_eq!(parse_prompt("a|b"), vec!["a", "|", "b"]);
}

#[test]
fn pipe_in_single_quotes_is_literal() {
    assert_eq!(parse_prompt("echo 'a|b'"), vec!["echo", "a|b"]);
}

#[test]
fn pipe_in_double_quotes_is_literal() {
    assert_eq!(parse_prompt("echo \"a|b\""), vec!["echo", "a|b"]);
}

#[test]
fn escaped_pipe_is_literal() {
    assert_eq!(parse_prompt("a\\|b"), vec!["a|b"]);
}

#[test]
fn tabs_and_newlines_separate_words() {
    assert_eq!(parse_prompt("a\tb\nc"), vec!["a", "b", "c"]);
}

#[test]
fn blanks_only_give_no_token() {
    assert_eq!(parse_prompt(" \t \n "), Vec::<String>::new());
}

#[test]
fn empty_quotes_give_no_token() {
    assert_eq!(parse_prompt("echo '' \"\""), vec!["echo"]);
}

#[test]
fn unterminated_single_quote_is_closed_at_the_end() {
    assert_eq!(parse_prompt("echo 'a b"), vec!["echo", "a b"]);
}

#[test]
fn unterminated_double_quote_is_closed_at_the_end() {
    assert_eq!(parse_prompt("echo \"a b"), vec!["echo", "a b"]);
}

#[test]
fn trailing_backslash_outside_quotes_is_dropped() {
    assert_eq!(parse_prompt("echo a\\"), vec!["echo", "a"]);
}

#[test]
fn trailing_backslash_in_double_quotes_is_kept() {
    assert_eq!(parse_prompt("echo \"a\\"), vec!["echo", "a\\"]);
}

#[test]
fn backslash_in_single_quotes_is_literal() {
    assert_eq!(parse_prompt("echo 'a\\nb'"), vec!["echo", "a\\nb"]);
}

#[test]
fn double_quotes_escape_the_special_characters() {
    assert_eq!(
        parse_prompt("echo \"a\\\\b\\\"c\\$d\\`e\""),
        vec!["echo", "a\\b\"c$d`e"]
    );
}

#[test]
fn double_quotes_keep_the_backslash_before_other_characters() {
    assert_eq!(parse_prompt("echo \"a\\nb\""), vec!["echo", "a\\nb"]);
}

#[test]
fn escaped_newline_in_double_quotes_is_removed() {
    assert_eq!(parse_prompt("echo \"a\\\nb\""), vec!["echo", "ab"]);
}

#[test]
fn escaped_newline_outside_quotes_is_copied() {
    assert_eq!(parse_prompt("a\\\nb"), vec!["a\nb"]);
}

#[test]
fn escaped_quote_outside_quotes_is_copied() {
    assert_eq!(parse_prompt("it\\'s \\\"x\\\""), vec!["it's", "\"x\""]);
}

#[test]
fn quoted_and_unquoted_runs_join() {
    assert_eq!(parse_prompt("a'b c'\"d e\"f"), vec!["ab cd ef"]);
}

#[test]
fn stray_pipes_are_tokens() {
    assert_eq!(parse_prompt("| a || b |"), vec!["|", "a", "|", "|", "b", "|"]);
}

#[test]
fn non_ascii_text_is_kept() {
    assert_eq!(parse_prompt("echo héllo 'wörld ü'"), vec!["echo", "héllo", "wörld ü"]);
}

#[test]
fn unquoted_text_survives_rejoining() {
    for line in [
        "echo hello",
        "  ls   -la  |grep foo|  wc -l ",
        "a|b",
        "",
        "|",
        "cat\tfile\nnext",
        "x=1 2> err >> out",
    ] {
        let tokens = parse_prompt(line);
        let joined = join_words(&tokens);
        assert_eq!(parse_prompt(&joined), tokens);
    }
}

#[test]
fn plain_tokens_survive_joining() {
    let tokens = words(&["ls", "|", "grep", "a.b", "|", "|", "wc"]);
    assert_eq!(join_words(&tokens), "ls | grep a.b | | wc");
    assert_eq!(parse_prompt(&join_words(&tokens)), tokens);
}

#[test]
fn join_uses_single_spaces() {
    assert_eq!(join_words(&words(&[])), "");
    assert_eq!(join_words(&words(&["a"])), "a");
    assert_eq!(join_words(&words(&["a", "", "b c"])), "a  b c");
}
