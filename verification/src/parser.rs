//! The command resolver and the pipeline assembler: tokens to the commands of
//! a pipeline and the sinks of its last stage.

use vstd::prelude::*;
use vstd::slice::slice_subrange;
use crate::commands::{builtin_kind, Command, CommandKind, CommandView};
use crate::error::ParseError;
use crate::output::{OutputStreams, OutputStreamsView};
use crate::redirect::{extract, has_operator, read_operator, redirect_operator};
use crate::text::{copy_words, join, join_words, lemma_deep_view_push, same_text};
use crate::tokenizer::pipe_token;

pub use crate::redirect::extract_redirects;
pub use crate::tokenizer::{parse_prompt, PromptQuote};

verus! {

/// The command that a first word and the words after it stand for.
///
/// A first word that names a built-in selects it; the words after it are
/// joined by single spaces into its one argument. `echo` takes a leading `-e`
/// as the request to expand escape sequences in what follows. Any other first
/// word is the name of a program, and the words after it are its arguments.
pub open spec fn resolve(name: Seq<char>, args: Seq<Seq<char>>) -> CommandView {
    match builtin_kind(name) {
        Some(CommandKind::Exit) => CommandView::Exit,
        Some(CommandKind::Echo) => {
            if args.len() > 0 && args[0] == "-e"@ {
                CommandView::Echo { text: join(args.skip(1)), interpret_escapes: true }
            } else {
                CommandView::Echo { text: join(args), interpret_escapes: false }
            }
        },
        Some(CommandKind::Type) => CommandView::Type(join(args)),
        Some(CommandKind::Pwd) => CommandView::Pwd,
        Some(CommandKind::Cd) => CommandView::Cd(join(args)),
        Some(CommandKind::History) => CommandView::History(
            if args.len() == 0 {
                None
            } else {
                Some(join(args))
            },
        ),
        None => CommandView::Exec { command: name, args },
    }
}

/// The command and the sinks that the words of one stage stand for: the first
/// word is the name, and the redirections are taken out of the others.
pub open spec fn parse_stage(words: Seq<Seq<char>>) -> Result<
    (CommandView, OutputStreamsView),
    ParseError,
> {
    if words.len() == 0 {
        Err(ParseError::EmptyCommand)
    } else {
        match extract(words.skip(1)) {
            Err(error) => Err(error),
            Ok(found) => Ok(
                (
                    resolve(words[0], found.words),
                    OutputStreamsView { stdout: found.stdout, stderr: found.stderr },
                ),
            ),
        }
    }
}

/// Resolves a name and its arguments to a command.
pub fn resolve_command(name: &str, args: Vec<String>) -> (command: Command)
    ensures
        command@ == resolve(name@, args.deep_view()),
{
    match CommandKind::from_name(name) {
        Some(CommandKind::Exit) => Command::Exit,
        Some(CommandKind::Echo) => {
            if args.len() > 0 && same_text(args[0].as_str(), "-e") {
                let rest = slice_subrange(args.as_slice(), 1, args.len());
                assert(rest.deep_view() =~= args.deep_view().skip(1));
                Command::Echo { text: join_words(rest), interpret_escapes: true }
            } else {
                Command::Echo { text: join_words(args.as_slice()), interpret_escapes: false }
            }
        },
        Some(CommandKind::Type) => Command::Type(join_words(args.as_slice())),
        Some(CommandKind::Pwd) => Command::Pwd,
        Some(CommandKind::Cd) => Command::Cd(join_words(args.as_slice())),
        Some(CommandKind::History) => {
            if args.len() == 0 {
                Command::History(None)
            } else {
                Command::History(Some(join_words(args.as_slice())))
            }
        },
        None => Command::Exec { command: name.to_owned(), args },
    }
}

/// Reads the words of one stage as a command with its sinks.
///
/// Fails with `EmptyCommand` when there is no word at all, and with
/// `MissingRedirectTarget` when a redirection operator is the last word.
pub fn parse_command(args: Vec<String>) -> (result: Result<(Command, OutputStreams), ParseError>)
    ensures
        match parse_stage(args.deep_view()) {
            Ok((command, streams)) => result matches Ok((c, s)) && c@ == command && s@
                == streams,
            Err(error) => result matches Err(e) && e == error,
        },
{
    if args.len() == 0 {
        return Err(ParseError::EmptyCommand);
    }
    let rest = slice_subrange(args.as_slice(), 1, args.len());
    assert(rest.deep_view() =~= args.deep_view().skip(1));
    assert(args.deep_view()[0] == args[0]@);
    match extract_redirects(rest) {
        Err(error) => Err(error),
        Ok((words, stdout, stderr)) => {
            let command = resolve_command(args[0].as_str(), words);
            Ok((command, OutputStreams::new(stdout, stderr)))
        },
    }
}

/// Whether a token is the pipe boundary.
pub open spec fn is_pipe(token: Seq<char>) -> bool {
    token == pipe_token()
}

/// The segments once the one under construction is closed: an empty segment
/// is dropped.
pub open spec fn closed(
    segments: Seq<Seq<Seq<char>>>,
    current: Seq<Seq<char>>,
) -> Seq<Seq<Seq<char>>> {
    if current.len() == 0 {
        segments
    } else {
        segments.push(current)
    }
}

/// The segments finished within `tokens`, and the segment still open at its
/// end: a pipe boundary closes the open segment, any other token joins it.
pub open spec fn split_run(tokens: Seq<Seq<char>>) -> (Seq<Seq<Seq<char>>>, Seq<Seq<char>>)
    decreases tokens.len(),
{
    if tokens.len() == 0 {
        (Seq::empty(), Seq::empty())
    } else {
        let (segments, current) = split_run(tokens.drop_last());
        if is_pipe(tokens.last()) {
            (closed(segments, current), Seq::empty())
        } else {
            (segments, current.push(tokens.last()))
        }
    }
}

/// The tokens split at the pipe boundaries, without the empty segments.
pub open spec fn segments(tokens: Seq<Seq<char>>) -> Seq<Seq<Seq<char>>> {
    closed(split_run(tokens).0, split_run(tokens).1)
}

/// What segment `i` of a pipeline stands for. A segment before the last one
/// must not redirect: an operator among the words after its first one is
/// refused before anything else is read from it.
pub open spec fn stage_at(segments: Seq<Seq<Seq<char>>>, i: int) -> Result<
    (CommandView, OutputStreamsView),
    ParseError,
> {
    if i + 1 < segments.len() && segments[i].len() > 0 && has_operator(segments[i].skip(1)) {
        Err(ParseError::InteriorRedirect)
    } else {
        parse_stage(segments[i])
    }
}

/// The commands of the first `count` segments, or the error of the first
/// segment among them that has one.
pub open spec fn stages_upto(segments: Seq<Seq<Seq<char>>>, count: nat) -> Result<
    Seq<CommandView>,
    ParseError,
>
    decreases count,
{
    if count == 0 {
        Ok(Seq::empty())
    } else {
        match stages_upto(segments, (count - 1) as nat) {
            Err(error) => Err(error),
            Ok(commands) => match stage_at(segments, count - 1) {
                Err(error) => Err(error),
                Ok((command, _)) => Ok(commands.push(command)),
            },
        }
    }
}

/// The pipeline that a sequence of tokens stands for: one command for each
/// segment, and the sinks of the last segment.
pub open spec fn assemble(tokens: Seq<Seq<char>>) -> Result<
    (Seq<CommandView>, OutputStreamsView),
    ParseError,
> {
    let segments = segments(tokens);
    if segments.len() == 0 {
        Err(ParseError::EmptyPipeline)
    } else {
        match stages_upto(segments, segments.len()) {
            Err(error) => Err(error),
            Ok(commands) => Ok((commands, stage_at(segments, segments.len() - 1)->Ok_0.1)),
        }
    }
}

/// Closes the segment under construction and starts a new one.
fn close_segment(segments: &mut Vec<Vec<String>>, current: &mut Vec<String>)
    ensures
        final(segments).deep_view() == closed(old(segments).deep_view(), old(current).deep_view()),
        final(current).deep_view() == Seq::<Seq<char>>::empty(),
{
    let mut segment: Vec<String> = Vec::new();
    assert(segment.deep_view() =~= Seq::<Seq<char>>::empty());
    std::mem::swap(current, &mut segment);
    if segment.len() > 0 {
        proof {
            lemma_deep_view_push(segments@, segments@.push(segment), segment);
        }
        segments.push(segment);
    }
}

/// A segment that holds a token and no pipe boundary.
pub open spec fn is_segment(words: Seq<Seq<char>>) -> bool {
    words.len() > 0 && forall|j: int| 0 <= j < words.len() ==> !is_pipe(#[trigger] words[j])
}

/// Everything that splitting yields is a segment, and the segment still open
/// holds no pipe boundary.
proof fn lemma_split_run(tokens: Seq<Seq<char>>)
    ensures
        forall|k: int|
            0 <= k < split_run(tokens).0.len() ==> is_segment(#[trigger] split_run(tokens).0[k]),
        forall|j: int|
            0 <= j < split_run(tokens).1.len() ==> !is_pipe(#[trigger] split_run(tokens).1[j]),
    decreases tokens.len(),
{
    if tokens.len() > 0 {
        lemma_split_run(tokens.drop_last());
        let (done, current) = split_run(tokens.drop_last());
        if is_pipe(tokens.last()) {
            let next = closed(done, current);
            assert forall|k: int| 0 <= k < next.len() implies is_segment(#[trigger] next[k]) by {
                if k < done.len() {
                    assert(next[k] == done[k]);
                } else {
                    assert(next[k] == current);
                }
            }
        } else {
            let next = current.push(tokens.last());
            assert forall|j: int| 0 <= j < next.len() implies !is_pipe(#[trigger] next[j]) by {
                if j < current.len() {
                    assert(next[j] == current[j]);
                }
            }
        }
    }
}

/// No segment of a pipeline is empty, and none holds a pipe boundary.
pub proof fn lemma_segments(tokens: Seq<Seq<char>>)
    ensures
        forall|k: int|
            0 <= k < segments(tokens).len() ==> is_segment(#[trigger] segments(tokens)[k]),
{
    lemma_split_run(tokens);
    let (done, current) = split_run(tokens);
    let all = segments(tokens);
    assert forall|k: int| 0 <= k < all.len() implies is_segment(#[trigger] all[k]) by {
        if k < done.len() {
            assert(all[k] == done[k]);
        } else {
            assert(all[k] == current);
        }
    }
}

/// Splits the tokens at the pipe boundaries and drops the empty segments.
pub fn split_segments(tokens: &[String]) -> (result: Vec<Vec<String>>)
    ensures
        result.deep_view() == segments(tokens.deep_view()),
        forall|k: int| 0 <= k < result.len() ==> (#[trigger] result[k]).len() > 0,
{
    let mut done: Vec<Vec<String>> = Vec::new();
    let mut current: Vec<String> = Vec::new();
    let ghost all = tokens.deep_view();
    assert(done.deep_view() =~= Seq::<Seq<Seq<char>>>::empty());
    assert(current.deep_view() =~= Seq::<Seq<char>>::empty());

    let mut i: usize = 0;
    while i < tokens.len()
        invariant
            all == tokens.deep_view(),
            i <= tokens.len(),
            split_run(all.take(i as int)) == (done.deep_view(), current.deep_view()),
        decreases tokens.len() - i,
    {
        assert(all.take(i + 1).drop_last() =~= all.take(i as int));
        assert(all.take(i + 1).last() == tokens[i as int]@);
        if same_text(tokens[i].as_str(), "|") {
            assert(is_pipe(tokens[i as int]@)) by {
                reveal_strlit("|");
                assert("|"@ =~= pipe_token());
            }
            close_segment(&mut done, &mut current);
        } else {
            assert(!is_pipe(tokens[i as int]@)) by {
                reveal_strlit("|");
                assert("|"@ =~= pipe_token());
            }
            let token = tokens[i].clone();
            proof {
                lemma_deep_view_push(current@, current@.push(token), token);
            }
            current.push(token);
        }
        i += 1;
    }
    assert(all.take(i as int) =~= all);
    close_segment(&mut done, &mut current);
    proof {
        lemma_segments(all);
        assert forall|k: int| 0 <= k < done.len() implies (#[trigger] done[k]).len() > 0 by {
            assert(done.deep_view()[k] == done[k].deep_view());
            assert(is_segment(segments(all)[k]));
        }
    }
    done
}

/// Whether some word is a redirection operator.
pub fn contains_operator(words: &[String]) -> (found: bool)
    ensures
        found == has_operator(words.deep_view()),
{
    let ghost all = words.deep_view();
    let mut i: usize = 0;
    while i < words.len()
        invariant
            all == words.deep_view(),
            i <= words.len(),
            forall|k: int| 0 <= k < i ==> redirect_operator(#[trigger] all[k]) is None,
        decreases words.len() - i,
    {
        assert(all[i as int] == words[i as int]@);
        if read_operator(words[i].as_str()).is_some() {
            return true;
        }
        i += 1;
    }
    false
}

/// Assembles the pipeline that the tokens stand for.
///
/// The tokens are split at the pipe boundaries; empty segments, as stray
/// boundaries leave them, are dropped. Each segment is read as one command.
/// The sinks are those of the last segment. Fails with `EmptyPipeline` when no
/// segment is left, with `InteriorRedirect` when a segment before the last
/// holds a redirection operator, and with `MissingRedirectTarget` when the
/// last segment ends in one; of several errors, that of the leftmost segment
/// is returned.
pub fn parse_pipeline(tokens: Vec<String>) -> (result: Result<
    (Vec<Command>, OutputStreams),
    ParseError,
>)
    ensures
        match assemble(tokens.deep_view()) {
            Ok((commands, streams)) => result matches Ok((c, s)) && c.deep_view() == commands
                && s@ == streams,
            Err(error) => result matches Err(e) && e == error,
        },
{
    let parts = split_segments(tokens.as_slice());
    let ghost all = parts.deep_view();
    if parts.len() == 0 {
        return Err(ParseError::EmptyPipeline);
    }
    let mut commands: Vec<Command> = Vec::new();
    let mut streams = OutputStreams::default();
    assert(commands.deep_view() =~= Seq::<CommandView>::empty());

    let mut i: usize = 0;
    while i < parts.len()
        invariant
            all == parts.deep_view(),
            all == segments(tokens.deep_view()),
            all.len() > 0,
            i <= parts.len(),
            forall|k: int| 0 <= k < parts.len() ==> (#[trigger] parts[k]).len() > 0,
            stages_upto(all, i as nat) == Ok::<Seq<CommandView>, ParseError>(
                commands.deep_view(),
            ),
            i > 0 ==> (stage_at(all, i - 1) matches Ok((_, s)) && s == streams@),
        decreases parts.len() - i,
    {
        let words = copy_words(parts[i].as_slice());
        assert(all[i as int] == words.deep_view());
        assert(words.len() > 0) by {
            assert(parts[i as int].len() > 0);
            assert(words.deep_view().len() == parts[i as int].deep_view().len());
        }
        if i + 1 < parts.len() {
            let rest = slice_subrange(words.as_slice(), 1, words.len());
            assert(rest.deep_view() =~= words.deep_view().skip(1));
            if contains_operator(rest) {
                proof {
                    lemma_stages_fail(all, (i + 1) as nat, parts.len() as nat);
                }
                return Err(ParseError::InteriorRedirect);
            }
        }
        assert(stage_at(all, i as int) == parse_stage(all[i as int]));
        match parse_command(words) {
            Err(error) => {
                proof {
                    lemma_stages_fail(all, (i + 1) as nat, parts.len() as nat);
                }
                return Err(error);
            },
            Ok((command, sinks)) => {
                proof {
                    lemma_deep_view_push(commands@, commands@.push(command), command);
                }
                commands.push(command);
                streams = sinks;
            },
        }
        i += 1;
    }
    Ok((commands, streams))
}

/// Once the segments up to some count have failed, taking more segments
/// changes nothing.
proof fn lemma_stages_fail(segments: Seq<Seq<Seq<char>>>, count: nat, more: nat)
    requires
        stages_upto(segments, count) is Err,
        count <= more,
    ensures
        stages_upto(segments, more) == stages_upto(segments, count),
    decreases more,
{
    if count < more {
        lemma_stages_fail(segments, count, (more - 1) as nat);
    }
}

} // verus!
