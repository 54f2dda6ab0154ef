//! Output sinks: where the text of a command goes.
//!
//! A sink is the terminal's standard output, the terminal's standard error, or
//! a file that is either truncated or appended to. The types here describe a
//! sink; they hold no open handle and write nothing themselves.

use vstd::prelude::*;

verus! {

/// What every kind of sink can tell about itself.
pub trait Output {
    /// Whether text sent to this sink leaves the terminal.
    spec fn redirected(&self) -> bool;

    /// Reports whether text sent to this sink leaves the terminal.
    fn is_redirected(&self) -> (redirected: bool)
        ensures
            redirected == self.redirected(),
    ;
}

/// The terminal's standard output.
#[derive(Clone, Copy, Debug, PartialEq, Eq)]
pub struct StdOutput;

/// The terminal's standard error.
#[derive(Clone, Copy, Debug, PartialEq, Eq)]
pub struct StdErrOutput;

/// A file, named by its path, that receives text in place of the terminal.
#[derive(Debug, PartialEq, Eq)]
pub struct FileOutput {
    /// The path as it was written on the command line.
    pub path: String,
    /// Whether the text is added to the end of the file. Otherwise the file is
    /// emptied first.
    pub append: bool,
}

/// A sink of any kind.
#[derive(Debug, PartialEq, Eq)]
pub enum Sink {
    Stdout(StdOutput),
    Stderr(StdErrOutput),
    File(FileOutput),
}

/// The model of a sink.
pub enum SinkView {
    Stdout,
    Stderr,
    File { path: Seq<char>, append: bool },
}

/// The pair of sinks of one command line.
#[derive(Debug, PartialEq, Eq)]
pub struct OutputStreams {
    pub stdout: Sink,
    pub stderr: Sink,
}

/// The model of a pair of sinks.
pub struct OutputStreamsView {
    pub stdout: SinkView,
    pub stderr: SinkView,
}

/// The pair in which nothing is redirected.
pub open spec fn terminal_streams() -> OutputStreamsView {
    OutputStreamsView { stdout: SinkView::Stdout, stderr: SinkView::Stderr }
}

impl StdOutput {
    /// The terminal's standard output, which is no redirection.
    pub fn new() -> (sink: Self)
        ensures
            !sink.redirected(),
    {
        StdOutput
    }
}

impl StdErrOutput {
    /// The terminal's standard error, which is no redirection.
    pub fn new() -> (sink: Self)
        ensures
            !sink.redirected(),
    {
        StdErrOutput
    }
}

impl FileOutput {
    /// Describes the file at `path`, appended to if `append` is set and
    /// truncated otherwise.
    pub fn new(path: &str, append: bool) -> (sink: Self)
        ensures
            sink.path@ == path@,
            sink.append == append,
    {
        FileOutput { path: path.to_owned(), append }
    }

    /// A second description of the same file.
    pub fn try_clone(&self) -> (sink: Self)
        ensures
            sink.path@ == self.path@,
            sink.append == self.append,
    {
        FileOutput { path: self.path.clone(), append: self.append }
    }
}

impl Output for StdOutput {
    open spec fn redirected(&self) -> bool {
        false
    }

    fn is_redirected(&self) -> (redirected: bool) {
        false
    }
}

impl Output for StdErrOutput {
    open spec fn redirected(&self) -> bool {
        false
    }

    fn is_redirected(&self) -> (redirected: bool) {
        false
    }
}

impl Output for FileOutput {
    open spec fn redirected(&self) -> bool {
        true
    }

    fn is_redirected(&self) -> (redirected: bool) {
        true
    }
}

impl View for Sink {
    type V = SinkView;

    open spec fn view(&self) -> SinkView {
        match self {
            Sink::Stdout(_) => SinkView::Stdout,
            Sink::Stderr(_) => SinkView::Stderr,
            Sink::File(file) => SinkView::File { path: file.path@, append: file.append },
        }
    }
}

impl Output for Sink {
    open spec fn redirected(&self) -> bool {
        self@ is File
    }

    fn is_redirected(&self) -> (redirected: bool) {
        match self {
            Sink::Stdout(sink) => sink.is_redirected(),
            Sink::Stderr(sink) => sink.is_redirected(),
            Sink::File(sink) => sink.is_redirected(),
        }
    }
}

impl Sink {
    /// A second description of the same sink.
    pub fn try_clone(&self) -> (sink: Self)
        ensures
            sink@ == self@,
    {
        match self {
            Sink::Stdout(_) => Sink::Stdout(StdOutput),
            Sink::Stderr(_) => Sink::Stderr(StdErrOutput),
            Sink::File(file) => Sink::File(file.try_clone()),
        }
    }
}

impl View for OutputStreams {
    type V = OutputStreamsView;

    open spec fn view(&self) -> OutputStreamsView {
        OutputStreamsView { stdout: self.stdout@, stderr: self.stderr@ }
    }
}

impl OutputStreams {
    /// The pair of these two sinks.
    pub fn new(stdout: Sink, stderr: Sink) -> (streams: Self)
        ensures
            streams.stdout == stdout,
            streams.stderr == stderr,
    {
        OutputStreams { stdout, stderr }
    }

    /// Both sinks on the terminal.
    pub fn default() -> (streams: Self)
        ensures
            streams@ == terminal_streams(),
    {
        OutputStreams { stdout: Sink::Stdout(StdOutput::new()), stderr: Sink::Stderr(StdErrOutput::new()) }
    }
}

} // verus!
