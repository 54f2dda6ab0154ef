use codecrafters_shell::parser::extract_redirects;
use codecrafters_shell::redirect::{read_operator, RedirectOp};
use codecrafters_shell::{FileOutput, Output, ParseError, Sink, StdErrOutput, StdOutput, Stream};

fn words(items: &[&str]) -> Vec<String> {
    items.iter().map(|s| s.to_string()).collect()
}

fn file(path: &str, append: bool) -> Sink {
    Sink::File(FileOutput::new(path, append))
}

#[test]
fn stdout_redirect_truncates() {
    let (filtered, stdout, stderr) = extract_redirects(&words(&["hello", ">", "out.txt"])).unwrap();
    assert_eq!(filtered, vec!["hello"]);
    assert_eq!(stdout, file("out.txt", false));
    assert_eq!(stderr, Sink::Stderr(StdErrOutput::new()));
}

#[test]
fn every_operator_is_read() {
    let out = |append| Some(RedirectOp { stream: Stream::Stdout, append });
    let err = |append| Some(RedirectOp { stream: Stream::Stderr, append });
    assert_eq!(read_operator(">"), out(false));
    assert_eq!(read_operator("1>"), out(false));
    assert_eq!(read_operator(">>"), out(true));
    assert_eq!(read_operator("1>>"), out(true));
    assert_eq!(read_operator("2>"), err(false));
    assert_eq!(read_operator("2>>"), err(true));
    for word in ["", "<", "3>", ">>>", "1", "2", "> ", "1>>>", "&>"] {
        assert_eq!(read_operator(word), None);
    }
}

#[test]
fn each_operator_sets_its_sink() {
    for (op, append) in [(">", false), ("1>", false), (">>", true), ("1>>", true)] {
        let (filtered, stdout, stderr) = extract_redirects(&words(&["a", op, "f", "b"])).unwrap();
        assert_eq!(filtered, vec!["a", "b"]);
        assert_eq!(stdout, file("f", append));
        assert_eq!(stderr, Sink::Stderr(StdErrOutput::new()));
    }
    for (op, append) in [("2>", false), ("2>>", true)] {
        let (filtered, stdout, stderr) = extract_redirects(&words(&["a", op, "f", "b"])).unwrap();
        assert_eq!(filtered, vec!["a", "b"]);
        assert_eq!(stdout, Sink::Stdout(StdOutput::new()));
        assert_eq!(stderr, file("f", append));
    }
}

#[test]
fn words_without_operators_are_kept() {
    let (filtered, stdout, stderr) = extract_redirects(&words(&["a", "b", "c"])).unwrap();
    assert_eq!(filtered, vec!["a", "b", "c"]);
    assert!(!stdout.is_redirected());
    assert!(!stderr.is_redirected());
}

#[test]
fn no_words_give_no_words() {
    let (filtered, stdout, stderr) = extract_redirects(&[]).unwrap();
    assert!(filtered.is_empty());
    assert_eq!(stdout, Sink::Stdout(StdOutput::new()));
    assert_eq!(stderr, Sink::Stderr(StdErrOutput::new()));
}

#[test]
fn the_last_redirect_of_a_stream_wins() {
    let (filtered, stdout, stderr) = extract_redirects(&words(&[
        ">", "a", "x", ">>", "b", "2>>", "c", "2>", "d", "y",
    ]))
    .unwrap();
    assert_eq!(filtered, vec!["x", "y"]);
    assert_eq!(stdout, file("b", true));
    assert_eq!(stderr, file("d", false));
}

#[test]
fn trailing_operator_has_no_target() {
    for op in [">", "1>", ">>", "1>>", "2>", "2>>"] {
        assert_eq!(
            extract_redirects(&words(&["hello", op])),
            Err(ParseError::MissingRedirectTarget)
        );
        assert_eq!(
            extract_redirects(&words(&["a", ">", "f", op])),
            Err(ParseError::MissingRedirectTarget)
        );
    }
}

#[test]
fn an_operator_after_an_operator_is_a_path() {
    let (filtered, stdout, _) = extract_redirects(&words(&["a", ">", "2>"])).unwrap();
    assert_eq!(filtered, vec!["a"]);
    assert_eq!(stdout, file("2>", false));
}

#[test]
fn sinks_tell_whether_they_redirect() {
    assert!(!StdOutput::new().is_redirected());
    assert!(!StdErrOutput::new().is_redirected());
    assert!(FileOutput::new("f", true).is_redirected());
    assert!(file("f", false).is_redirected());
    assert!(!Sink::Stdout(StdOutput::new()).is_redirected());
    assert!(!Sink::Stderr(StdErrOutput::new()).is_redirected());
}

#[test]
fn file_sinks_describe_their_file() {
    let sink = FileOutput::new("out.txt", true);
    assert_eq!(sink.path, "out.txt");
    assert!(sink.append);
    assert_eq!(sink.try_clone(), sink);
    assert_eq!(file("a", false).try_clone(), file("a", false));
    assert_eq!(Sink::Stdout(StdOutput::new()).try_clone(), Sink::Stdout(StdOutput::new()));
}
