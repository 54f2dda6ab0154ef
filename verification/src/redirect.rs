//! The redirection extractor: the words of one stage to the words that remain
//! and the two sinks.
//!
//! The words are read from left to right. A redirection operator takes the
//! word after it as its path, whatever that word looks like, and neither of
//! the two stays among the words. When one stream is redirected more than
//! once, the last redirection counts.

use vstd::prelude::*;
use crate::error::ParseError;
use crate::output::{FileOutput, Sink, SinkView, StdErrOutput, StdOutput};
use crate::text::{lemma_deep_view_push, same_text};

verus! {

/// One of the two streams of a command that can be redirected.
#[derive(Clone, Copy, Debug, PartialEq, Eq, Structural)]
pub enum Stream {
    Stdout,
    Stderr,
}

/// A redirection operator: the stream it redirects, and whether it appends.
#[derive(Clone, Copy, Debug, PartialEq, Eq, Structural)]
pub struct RedirectOp {
    pub stream: Stream,
    pub append: bool,
}

/// The operator that a word is, if it is one: `>` and `1>` truncate standard
/// output, `>>` and `1>>` append to it, `2>` truncates standard error and
/// `2>>` appends to it.
pub open spec fn redirect_operator(word: Seq<char>) -> Option<RedirectOp> {
    if word == ">"@ || word == "1>"@ {
        Some(RedirectOp { stream: Stream::Stdout, append: false })
    } else if word == ">>"@ || word == "1>>"@ {
        Some(RedirectOp { stream: Stream::Stdout, append: true })
    } else if word == "2>"@ {
        Some(RedirectOp { stream: Stream::Stderr, append: false })
    } else if word == "2>>"@ {
        Some(RedirectOp { stream: Stream::Stderr, append: true })
    } else {
        None
    }
}

/// What the extractor has gathered: the words that are no part of a
/// redirection, and the sink of each stream.
pub struct Redirects {
    pub words: Seq<Seq<char>>,
    pub stdout: SinkView,
    pub stderr: SinkView,
}

/// Nothing gathered: no words, both streams on the terminal.
pub open spec fn no_redirects() -> Redirects {
    Redirects { words: Seq::empty(), stdout: SinkView::Stdout, stderr: SinkView::Stderr }
}

/// `found` after one more redirection, which replaces the sink of its stream.
pub open spec fn redirected(found: Redirects, op: RedirectOp, path: Seq<char>) -> Redirects {
    match op.stream {
        Stream::Stdout => Redirects {
            stdout: SinkView::File { path, append: op.append },
            ..found
        },
        Stream::Stderr => Redirects {
            stderr: SinkView::File { path, append: op.append },
            ..found
        },
    }
}

/// The result of reading the words from position `at` on, with `found`
/// gathered before.
pub open spec fn extract_from(args: Seq<Seq<char>>, at: int, found: Redirects) -> Result<
    Redirects,
    ParseError,
>
    decreases args.len() - at,
{
    if at < 0 || at >= args.len() {
        Ok(found)
    } else {
        match redirect_operator(args[at]) {
            None => extract_from(
                args,
                at + 1,
                Redirects { words: found.words.push(args[at]), ..found },
            ),
            Some(op) => {
                if at + 1 >= args.len() {
                    Err(ParseError::MissingRedirectTarget)
                } else {
                    extract_from(args, at + 2, redirected(found, op, args[at + 1]))
                }
            },
        }
    }
}

/// The result of reading all the words.
pub open spec fn extract(args: Seq<Seq<char>>) -> Result<Redirects, ParseError> {
    extract_from(args, 0, no_redirects())
}

/// Reads a word as a redirection operator.
pub fn read_operator(word: &str) -> (op: Option<RedirectOp>)
    ensures
        op == redirect_operator(word@),
{
    if same_text(word, ">") || same_text(word, "1>") {
        Some(RedirectOp { stream: Stream::Stdout, append: false })
    } else if same_text(word, ">>") || same_text(word, "1>>") {
        Some(RedirectOp { stream: Stream::Stdout, append: true })
    } else if same_text(word, "2>") {
        Some(RedirectOp { stream: Stream::Stderr, append: false })
    } else if same_text(word, "2>>") {
        Some(RedirectOp { stream: Stream::Stderr, append: true })
    } else {
        None
    }
}

/// Takes the redirections out of the words of one stage.
///
/// Returns the words that are no part of a redirection, in their order, with
/// the sink of standard output and the sink of standard error. Fails with
/// `MissingRedirectTarget` exactly when an operator is the last word.
pub fn extract_redirects(args: &[String]) -> (result: Result<(Vec<String>, Sink, Sink), ParseError>)
    ensures
        match extract(args.deep_view()) {
            Ok(found) => result matches Ok((words, stdout, stderr)) && words.deep_view()
                == found.words && stdout@ == found.stdout && stderr@ == found.stderr,
            Err(error) => result matches Err(e) && e == error,
        },
{
    let mut filtered: Vec<String> = Vec::new();
    let mut stdout = Sink::Stdout(StdOutput::new());
    let mut stderr = Sink::Stderr(StdErrOutput::new());
    let ghost all = args.deep_view();
    assert(filtered.deep_view() =~= Seq::<Seq<char>>::empty());

    let mut i: usize = 0;
    while i < args.len()
        invariant
            all == args.deep_view(),
            i <= args.len(),
            extract_from(
                all,
                i as int,
                Redirects { words: filtered.deep_view(), stdout: stdout@, stderr: stderr@ },
            ) == extract(all),
        decreases args.len() - i,
    {
        assert(all[i as int] == args[i as int]@);
        match read_operator(args[i].as_str()) {
            None => {
                let word = args[i].clone();
                proof {
                    lemma_deep_view_push(filtered@, filtered@.push(word), word);
                }
                filtered.push(word);
                i += 1;
            },
            Some(op) => {
                if i + 1 >= args.len() {
                    return Err(ParseError::MissingRedirectTarget);
                }
                assert(all[i + 1] == args[i + 1]@);
                let file = FileOutput::new(args[i + 1].as_str(), op.append);
                match op.stream {
                    Stream::Stdout => {
                        stdout = Sink::File(file);
                    },
                    Stream::Stderr => {
                        stderr = Sink::File(file);
                    },
                }
                i += 2;
            },
        }
    }
    Ok((filtered, stdout, stderr))
}

/// Whether some word is a redirection operator.
pub open spec fn has_operator(args: Seq<Seq<char>>) -> bool {
    exists|i: int| 0 <= i < args.len() && redirect_operator(#[trigger] args[i]) is Some
}

/// Words without an operator are all kept, and both streams stay on the
/// terminal.
pub proof fn lemma_extract_plain(args: Seq<Seq<char>>)
    requires
        !has_operator(args),
    ensures
        extract(args) == Ok::<Redirects, ParseError>(
            Redirects { words: args, ..no_redirects() },
        ),
{
    lemma_extract_plain_from(args, 0, no_redirects());
    assert(no_redirects().words + args.skip(0) =~= args);
}

proof fn lemma_extract_plain_from(args: Seq<Seq<char>>, at: int, found: Redirects)
    requires
        !has_operator(args),
        0 <= at <= args.len(),
    ensures
        extract_from(args, at, found) == Ok::<Redirects, ParseError>(
            Redirects { words: found.words + args.skip(at), ..found },
        ),
    decreases args.len() - at,
{
    if at == args.len() {
        assert(found.words + args.skip(at) =~= found.words);
    } else {
        assert(redirect_operator(args[at]) is None);
        let next = Redirects { words: found.words.push(args[at]), ..found };
        lemma_extract_plain_from(args, at + 1, next);
        assert(next.words + args.skip(at + 1) =~= found.words + args.skip(at));
    }
}

/// An operator in the last place, after words that can be read by themselves,
/// has no path and is refused.
pub proof fn lemma_trailing_operator(args: Seq<Seq<char>>)
    requires
        args.len() > 0,
        redirect_operator(args.last()) is Some,
        extract(args.drop_last()) is Ok,
    ensures
        extract(args) == Err::<Redirects, ParseError>(ParseError::MissingRedirectTarget),
{
    lemma_trailing_operator_from(args, 0, no_redirects());
}

proof fn lemma_trailing_operator_from(args: Seq<Seq<char>>, at: int, found: Redirects)
    requires
        0 <= at < args.len(),
        redirect_operator(args.last()) is Some,
        extract_from(args.drop_last(), at, found) is Ok,
    ensures
        extract_from(args, at, found) == Err::<Redirects, ParseError>(
            ParseError::MissingRedirectTarget,
        ),
    decreases args.len() - at,
{
    let front = args.drop_last();
    if at < args.len() - 1 {
        assert(front[at] == args[at]);
        match redirect_operator(args[at]) {
            None => {
                lemma_trailing_operator_from(
                    args,
                    at + 1,
                    Redirects { words: found.words.push(args[at]), ..found },
                );
            },
            Some(op) => {
                assert(at + 1 < front.len());
                assert(front[at + 1] == args[at + 1]);
                lemma_trailing_operator_from(args, at + 2, redirected(found, op, args[at + 1]));
            },
        }
    }
}

} // verus!
