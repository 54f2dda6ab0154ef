//! The pipeline executor.
//!
//! Running a pipeline means starting processes, opening pipes and touching the
//! working directory, none of which this crate does. The executor is therefore
//! a machine that decides and lets its host act: it holds the stages and their
//! sinks, says in a `Request` what has to happen next, and takes in a `Reply`
//! how that went. The host performs each request and hands back the reply
//! until the request is `Finished`.
//!
//! The stages run in order. A stage before the last one hands its output to
//! the next stage through a conduit; the last stage writes to the sinks. What
//! a stage needs to know from outside, where a program lies or what the
//! working directory is, it asks first. A stage that fails has its message
//! written to standard error, and the stages after it never start.

use vstd::prelude::*;
use crate::commands::{
    builtin_kind, cd_failure, cd_failure_text, cd_target, cd_target_of, command_not_found,
    command_not_found_text, interpret_escape_sequences, is_built_in, option_view, type_builtin,
    type_builtin_text, type_found, type_found_text, type_missing, type_missing_text, unescape,
    CdTarget, CdTargetView, Command, CommandView,
};
use crate::output::{Output, OutputStreams, OutputStreamsView};
use crate::redirect::Stream;
use crate::text::copy_words;

verus! {

/// Where a spawned program reads from.
#[derive(Clone, Copy, Debug, PartialEq, Eq, Structural)]
pub enum StdinSource {
    /// The shell's own standard input.
    Inherit,
    /// The conduit that the stage before left behind.
    Conduit,
}

/// Where the standard output of a spawned program goes.
#[derive(Clone, Copy, Debug, PartialEq, Eq, Structural)]
pub enum StdoutTarget {
    /// The shell's own standard output.
    Inherit,
    /// A new conduit, which the next stage reads.
    Conduit,
    /// A pipe from which the host forwards every line to the standard output
    /// sink.
    Relay,
}

/// Where the standard error of a spawned program goes.
#[derive(Clone, Copy, Debug, PartialEq, Eq, Structural)]
pub enum StderrTarget {
    /// The shell's own standard error.
    Inherit,
    /// A pipe from which the host forwards every line to the standard error
    /// sink.
    Relay,
}

/// How the three streams of a spawned program are connected.
#[derive(Clone, Copy, Debug, PartialEq, Eq, Structural)]
pub struct Wiring {
    pub stdin: StdinSource,
    pub stdout: StdoutTarget,
    pub stderr: StderrTarget,
}

/// The wiring of a program, given whether a conduit waits to be read, whether
/// the stage is the last one, and which sinks are files.
///
/// Input comes from the conduit if there is one. A stage before the last one
/// writes into a new conduit and leaves standard error alone. The last stage
/// writes straight to the terminal where a sink is the terminal, and is
/// relayed where a sink is a file.
pub open spec fn wiring_of(
    piped: bool,
    last: bool,
    stdout_redirected: bool,
    stderr_redirected: bool,
) -> Wiring {
    Wiring {
        stdin: if piped {
            StdinSource::Conduit
        } else {
            StdinSource::Inherit
        },
        stdout: if !last {
            StdoutTarget::Conduit
        } else if stdout_redirected {
            StdoutTarget::Relay
        } else {
            StdoutTarget::Inherit
        },
        stderr: if last && stderr_redirected {
            StderrTarget::Relay
        } else {
            StderrTarget::Inherit
        },
    }
}

/// Decides how the three streams of a program are connected.
pub fn plan_wiring(
    piped: bool,
    last: bool,
    stdout_redirected: bool,
    stderr_redirected: bool,
) -> (wiring: Wiring)
    ensures
        wiring == wiring_of(piped, last, stdout_redirected, stderr_redirected),
{
    Wiring {
        stdin: if piped {
            StdinSource::Conduit
        } else {
            StdinSource::Inherit
        },
        stdout: if !last {
            StdoutTarget::Conduit
        } else if stdout_redirected {
            StdoutTarget::Relay
        } else {
            StdoutTarget::Inherit
        },
        stderr: if last && stderr_redirected {
            StderrTarget::Relay
        } else {
            StderrTarget::Inherit
        },
    }
}

/// What the executor asks of its host.
#[derive(Clone, Debug, PartialEq, Eq)]
pub enum Request {
    /// End the shell at once, with status 0.
    Exit,
    /// Change the working directory.
    ChangeDirectory { target: CdTarget },
    /// Tell the working directory, as an absolute path.
    WorkingDirectory,
    /// Tell what the history has to say to this subcommand.
    History { subcommand: Option<String> },
    /// Search the path for a program of this name.
    Lookup { name: String },
    /// Write the text as one line to a sink of the pipeline.
    Write { stream: Stream, text: String },
    /// Open a conduit for the next stage that holds the text as one line.
    Feed { text: String },
    /// Start the program found at `location` under the name `program`, with
    /// these arguments and this wiring. If nothing follows the program, wait
    /// for it.
    Spawn { program: String, location: String, args: Vec<String>, wiring: Wiring },
    /// Nothing is left to do.
    Finished,
}

/// The model of a request.
pub enum RequestView {
    Exit,
    ChangeDirectory { target: CdTargetView },
    WorkingDirectory,
    History { subcommand: Option<Seq<char>> },
    Lookup { name: Seq<char> },
    Write { stream: Stream, text: Seq<char> },
    Feed { text: Seq<char> },
    Spawn { program: Seq<char>, location: Seq<char>, args: Seq<Seq<char>>, wiring: Wiring },
    Finished,
}

impl View for Request {
    type V = RequestView;

    open spec fn view(&self) -> RequestView {
        match self {
            Request::Exit => RequestView::Exit,
            Request::ChangeDirectory { target } => RequestView::ChangeDirectory {
                target: target@,
            },
            Request::WorkingDirectory => RequestView::WorkingDirectory,
            Request::History { subcommand } => RequestView::History {
                subcommand: option_view(*subcommand),
            },
            Request::Lookup { name } => RequestView::Lookup { name: name@ },
            Request::Write { stream, text } => RequestView::Write { stream: *stream, text: text@ },
            Request::Feed { text } => RequestView::Feed { text: text@ },
            Request::Spawn { program, location, args, wiring } => RequestView::Spawn {
                program: program@,
                location: location@,
                args: args.deep_view(),
                wiring: *wiring,
            },
            Request::Finished => RequestView::Finished,
        }
    }
}

/// What the host answers.
#[derive(Clone, Debug, PartialEq, Eq)]
pub enum Reply {
    /// The request was carried out.
    Done,
    /// The request could not be carried out, for the reason given.
    Failed(String),
    /// What was asked for: a path, or the text to print.
    Found(String),
    /// The search found nothing.
    Missing,
}

/// The model of a reply.
pub enum ReplyView {
    Done,
    Failed(Seq<char>),
    Found(Seq<char>),
    Missing,
}

impl View for Reply {
    type V = ReplyView;

    open spec fn view(&self) -> ReplyView {
        match self {
            Reply::Done => ReplyView::Done,
            Reply::Failed(message) => ReplyView::Failed(message@),
            Reply::Found(text) => ReplyView::Found(text@),
            Reply::Missing => ReplyView::Missing,
        }
    }
}

/// How far the current stage has come.
#[derive(Clone, Debug, PartialEq, Eq)]
pub enum Phase {
    /// It has asked for nothing yet, or waits for its first answer.
    Start,
    /// Its question was answered with this text.
    Answered(String),
    /// Its search found nothing, which it is about to say.
    Unresolved,
    /// It failed with this message, which is about to be reported.
    Failing(String),
    /// The pipeline is over.
    Finished,
}

/// The model of a phase.
pub enum PhaseView {
    Start,
    Answered(Seq<char>),
    Unresolved,
    Failing(Seq<char>),
    Finished,
}

impl View for Phase {
    type V = PhaseView;

    open spec fn view(&self) -> PhaseView {
        match self {
            Phase::Start => PhaseView::Start,
            Phase::Answered(text) => PhaseView::Answered(text@),
            Phase::Unresolved => PhaseView::Unresolved,
            Phase::Failing(message) => PhaseView::Failing(message@),
            Phase::Finished => PhaseView::Finished,
        }
    }
}

/// Whether a stage, when it is not the last one, leaves a conduit for the
/// next. `cd` prints nothing and is never piped, and `exit` ends everything.
pub open spec fn yields_conduit(command: CommandView) -> bool {
    !(command is Cd) && !(command is Exit)
}

/// The number of conduits that the first `count` stages leave behind when
/// they all run: one for each of them that yields one and is not the last
/// stage.
pub open spec fn conduits_before(stages: Seq<CommandView>, count: nat) -> nat
    decreases count,
{
    if count == 0 {
        0
    } else {
        let earlier = conduits_before(stages, (count - 1) as nat);
        if count < stages.len() && yields_conduit(stages[count - 1]) {
            earlier + 1
        } else {
            earlier
        }
    }
}

/// Whether carrying out the request opens a conduit between two stages.
pub open spec fn opens_conduit(request: RequestView) -> bool {
    request is Feed || (request matches RequestView::Spawn { wiring, .. } && wiring.stdout
        == StdoutTarget::Conduit)
}

/// The model of the executor.
pub struct ExecutorView {
    /// The commands of the pipeline, in order.
    pub stages: Seq<CommandView>,
    /// The sinks of the last stage.
    pub streams: OutputStreamsView,
    /// The number of the current stage, counted from 0.
    pub index: nat,
    /// How far the current stage has come.
    pub phase: PhaseView,
    /// Whether the stage before left a conduit to read from.
    pub piped: bool,
    /// The number of conduits opened so far.
    pub conduits: nat,
}

impl ExecutorView {
    /// The executor before anything has run.
    pub open spec fn start(stages: Seq<CommandView>, streams: OutputStreamsView) -> ExecutorView {
        ExecutorView {
            stages,
            streams,
            index: 0,
            phase: if stages.len() == 0 {
                PhaseView::Finished
            } else {
                PhaseView::Start
            },
            piped: false,
            conduits: 0,
        }
    }

    /// Whether the current stage is the last one.
    pub open spec fn at_last(self) -> bool {
        self.index + 1 == self.stages.len()
    }

    /// All stages have run.
    pub open spec fn completed(self) -> bool {
        self.index == self.stages.len()
    }

    /// The request by which a built-in delivers its line: written to the
    /// standard output sink by the last stage, fed to the next stage by any
    /// other.
    pub open spec fn emit(self, text: Seq<char>) -> RequestView {
        if self.at_last() {
            RequestView::Write { stream: Stream::Stdout, text }
        } else {
            RequestView::Feed { text }
        }
    }

    /// The wiring of a program spawned by the current stage.
    pub open spec fn wiring(self) -> Wiring {
        wiring_of(
            self.piped,
            self.at_last(),
            self.streams.stdout is File,
            self.streams.stderr is File,
        )
    }

    /// What the executor asks next.
    pub open spec fn request(self) -> RequestView {
        if self.phase is Finished || self.index >= self.stages.len() {
            RequestView::Finished
        } else {
            let stage = self.stages[self.index as int];
            match self.phase {
                PhaseView::Finished => RequestView::Finished,
                PhaseView::Failing(message) => RequestView::Write {
                    stream: Stream::Stderr,
                    text: message,
                },
                PhaseView::Start => match stage {
                    CommandView::Exit => RequestView::Exit,
                    CommandView::Cd(path) => RequestView::ChangeDirectory {
                        target: cd_target_of(path),
                    },
                    CommandView::Echo { text, interpret_escapes } => self.emit(
                        if interpret_escapes {
                            unescape(text)
                        } else {
                            text
                        },
                    ),
                    CommandView::Pwd => RequestView::WorkingDirectory,
                    CommandView::History(subcommand) => RequestView::History { subcommand },
                    CommandView::Type(name) => {
                        if builtin_kind(name) is Some {
                            self.emit(type_builtin_text(name))
                        } else {
                            RequestView::Lookup { name }
                        }
                    },
                    CommandView::Exec { command, args } => RequestView::Lookup { name: command },
                },
                PhaseView::Answered(answer) => match stage {
                    CommandView::Pwd => self.emit(answer),
                    CommandView::History(_) => self.emit(answer),
                    CommandView::Type(name) => self.emit(type_found_text(name, answer)),
                    CommandView::Exec { command, args } => RequestView::Spawn {
                        program: command,
                        location: answer,
                        args,
                        wiring: self.wiring(),
                    },
                    _ => RequestView::Finished,
                },
                PhaseView::Unresolved => match stage {
                    CommandView::Type(name) => self.emit(type_missing_text(name)),
                    _ => RequestView::Finished,
                },
            }
        }
    }

    /// The executor stopped where it is.
    pub open spec fn halted(self) -> ExecutorView {
        ExecutorView { phase: PhaseView::Finished, ..self }
    }

    /// The executor with the current stage failed.
    pub open spec fn failed(self, message: Seq<char>) -> ExecutorView {
        ExecutorView { phase: PhaseView::Failing(message), ..self }
    }

    /// The executor with the question of the current stage answered.
    pub open spec fn answered(self, answer: Seq<char>) -> ExecutorView {
        ExecutorView { phase: PhaseView::Answered(answer), ..self }
    }

    /// The executor at the next stage, after the current one has done its
    /// work and has or has not left a conduit.
    pub open spec fn advanced(self, conduit: bool) -> ExecutorView {
        ExecutorView {
            index: self.index + 1,
            phase: if self.index + 1 >= self.stages.len() {
                PhaseView::Finished
            } else {
                PhaseView::Start
            },
            piped: conduit,
            conduits: if conduit {
                self.conduits + 1
            } else {
                self.conduits
            },
            ..self
        }
    }

    /// The executor after the host has answered its request.
    ///
    /// A reply that is no answer to the request changes nothing. A question
    /// is answered by `Found`, `Missing` or `Failed`; anything to be done, by
    /// `Done` or `Failed`. A failure makes the current stage fail; so does a
    /// program that is to run and cannot be found. Once the failure has been
    /// reported, or `exit` has been asked for, the pipeline is over.
    pub open spec fn resume(self, reply: ReplyView) -> ExecutorView {
        match self.request() {
            RequestView::Finished => self,
            RequestView::Exit => self.halted(),
            RequestView::WorkingDirectory | RequestView::History { .. } => match reply {
                ReplyView::Found(answer) => self.answered(answer),
                ReplyView::Failed(message) => self.failed(message),
                _ => self,
            },
            RequestView::Lookup { name } => match reply {
                ReplyView::Found(answer) => self.answered(answer),
                ReplyView::Failed(message) => self.failed(message),
                ReplyView::Missing => {
                    if self.stages[self.index as int] is Type {
                        ExecutorView { phase: PhaseView::Unresolved, ..self }
                    } else {
                        self.failed(command_not_found_text(name))
                    }
                },
                ReplyView::Done => self,
            },
            RequestView::Write { stream: Stream::Stderr, .. } => match reply {
                ReplyView::Done | ReplyView::Failed(_) => self.halted(),
                _ => self,
            },
            RequestView::ChangeDirectory { .. } => match reply {
                ReplyView::Done => self.advanced(false),
                ReplyView::Failed(_) => self.failed(
                    cd_failure_text(self.stages[self.index as int]->Cd_0),
                ),
                _ => self,
            },
            RequestView::Write { stream: Stream::Stdout, .. }
            | RequestView::Feed { .. }
            | RequestView::Spawn { .. } => match reply {
                ReplyView::Done => self.advanced(opens_conduit(self.request())),
                ReplyView::Failed(message) => self.failed(message),
                _ => self,
            },
        }
    }

    /// The executor after a sequence of replies, each given to the request
    /// that was pending when it came.
    pub open spec fn run(self, replies: Seq<ReplyView>) -> ExecutorView
        decreases replies.len(),
    {
        if replies.len() == 0 {
            self
        } else {
            self.run(replies.drop_last()).resume(replies.last())
        }
    }

    /// The states that an executor can be in.
    pub open spec fn wf(self) -> bool {
        &&& self.index <= self.stages.len()
        &&& self.completed() ==> self.phase is Finished
        &&& self.phase is Answered ==> !self.completed() && ({
            let stage = self.stages[self.index as int];
            stage is Pwd || stage is History || stage is Exec || (stage matches CommandView::Type(
                name,
            ) && builtin_kind(name) is None)
        })
        &&& self.phase is Unresolved ==> !self.completed() && (self.stages[self.index as int]
            matches CommandView::Type(name) && builtin_kind(name) is None)
        &&& self.conduits == conduits_before(self.stages, self.index)
        &&& !self.completed() ==> self.piped == (self.index > 0 && yields_conduit(
            self.stages[self.index - 1],
        ))
    }
}

/// The executor of one pipeline.
pub struct Executor {
    stages: Vec<Command>,
    streams: OutputStreams,
    index: usize,
    phase: Phase,
    piped: bool,
    conduits: usize,
}

impl View for Executor {
    type V = ExecutorView;

    closed spec fn view(&self) -> ExecutorView {
        ExecutorView {
            stages: self.stages.deep_view(),
            streams: self.streams@,
            index: self.index as nat,
            phase: self.phase@,
            piped: self.piped,
            conduits: self.conduits as nat,
        }
    }
}

/// A copy of an optional string.
fn copy_option(text: &Option<String>) -> (copy: Option<String>)
    ensures
        option_view(copy) == option_view(*text),
{
    match text {
        Some(text) => Some(text.clone()),
        None => None,
    }
}

impl Executor {
    /// The executor of the pipeline with these stages and sinks, before
    /// anything has run.
    pub fn new(stages: Vec<Command>, streams: OutputStreams) -> (executor: Executor)
        ensures
            executor@ == ExecutorView::start(stages.deep_view(), streams@),
            executor@.wf(),
    {
        let phase = if stages.len() == 0 {
            Phase::Finished
        } else {
            Phase::Start
        };
        Executor { stages, streams, index: 0, phase, piped: false, conduits: 0 }
    }

    /// The number of conduits opened so far.
    pub fn conduits(&self) -> (count: usize)
        ensures
            count == self@.conduits,
    {
        self.conduits
    }

    /// The number of the current stage, counted from 0; the number of stages
    /// once all have run.
    pub fn stage(&self) -> (index: usize)
        ensures
            index == self@.index,
    {
        self.index
    }

    /// Whether nothing is left to do.
    pub fn is_finished(&self) -> (finished: bool)
        ensures
            finished == (self@.request() is Finished),
    {
        match self.request() {
            Request::Finished => true,
            _ => false,
        }
    }

    /// The sinks of the pipeline.
    pub fn streams(&self) -> (streams: &OutputStreams)
        ensures
            streams@ == self@.streams,
    {
        &self.streams
    }

    /// The request by which a built-in delivers its line.
    fn emit(&self, text: String) -> (request: Request)
        requires
            self.index < self.stages.len(),
        ensures
            request@ == self@.emit(text@),
    {
        if self.index + 1 == self.stages.len() {
            Request::Write { stream: Stream::Stdout, text }
        } else {
            Request::Feed { text }
        }
    }

    /// What has to happen next.
    pub fn request(&self) -> (request: Request)
        ensures
            request@ == self@.request(),
    {
        if self.index >= self.stages.len() {
            return Request::Finished;
        }
        let stage = &self.stages[self.index];
        assert(self@.stages[self.index as int] == stage@);
        match &self.phase {
            Phase::Finished => Request::Finished,
            Phase::Failing(message) => Request::Write {
                stream: Stream::Stderr,
                text: message.clone(),
            },
            Phase::Start => match stage {
                Command::Exit => Request::Exit,
                Command::Cd(path) => Request::ChangeDirectory { target: cd_target(path.as_str()) },
                Command::Echo { text, interpret_escapes } => {
                    if *interpret_escapes {
                        self.emit(interpret_escape_sequences(text.as_str()))
                    } else {
                        self.emit(text.clone())
                    }
                },
                Command::Pwd => Request::WorkingDirectory,
                Command::History(subcommand) => Request::History {
                    subcommand: copy_option(subcommand),
                },
                Command::Type(name) => {
                    if is_built_in(name.as_str()) {
                        self.emit(type_builtin(name.as_str()))
                    } else {
                        Request::Lookup { name: name.clone() }
                    }
                },
                Command::Exec { command, args } => Request::Lookup { name: command.clone() },
            },
            Phase::Answered(answer) => match stage {
                Command::Pwd => self.emit(answer.clone()),
                Command::History(_) => self.emit(answer.clone()),
                Command::Type(name) => self.emit(type_found(name.as_str(), answer.as_str())),
                Command::Exec { command, args } => Request::Spawn {
                    program: command.clone(),
                    location: answer.clone(),
                    args: copy_words(args.as_slice()),
                    wiring: plan_wiring(
                        self.piped,
                        self.index + 1 == self.stages.len(),
                        self.streams.stdout.is_redirected(),
                        self.streams.stderr.is_redirected(),
                    ),
                },
                _ => Request::Finished,
            },
            Phase::Unresolved => match stage {
                Command::Type(name) => self.emit(type_missing(name.as_str())),
                _ => Request::Finished,
            },
        }
    }

    /// Moves to the next stage.
    fn advance(&mut self, conduit: bool)
        requires
            old(self).index < old(self).stages.len(),
            old(self).conduits <= old(self).index,
        ensures
            final(self)@ == old(self)@.advanced(conduit),
    {
        self.index = self.index + 1;
        self.phase = if self.index >= self.stages.len() {
            Phase::Finished
        } else {
            Phase::Start
        };
        self.piped = conduit;
        if conduit {
            self.conduits = self.conduits + 1;
        }
    }

    /// Takes the host's answer to the pending request.
    pub fn resume(&mut self, reply: Reply)
        requires
            old(self)@.wf(),
        ensures
            final(self)@ == old(self)@.resume(reply@),
            final(self)@.wf(),
    {
        proof {
            lemma_resume_wf(self@, reply@);
            lemma_conduits_bound(self@.stages, self@.index);
        }
        let request = self.request();
        match request {
            Request::Finished => {},
            Request::Exit => {
                self.phase = Phase::Finished;
            },
            Request::WorkingDirectory | Request::History { .. } => match reply {
                Reply::Found(answer) => {
                    self.phase = Phase::Answered(answer);
                },
                Reply::Failed(message) => {
                    self.phase = Phase::Failing(message);
                },
                _ => {},
            },
            Request::Lookup { name } => match reply {
                Reply::Found(answer) => {
                    self.phase = Phase::Answered(answer);
                },
                Reply::Failed(message) => {
                    self.phase = Phase::Failing(message);
                },
                Reply::Missing => {
                    let is_type = match &self.stages[self.index] {
                        Command::Type(_) => true,
                        _ => false,
                    };
                    if is_type {
                        self.phase = Phase::Unresolved;
                    } else {
                        self.phase = Phase::Failing(command_not_found(name.as_str()));
                    }
                },
                Reply::Done => {},
            },
            Request::Write { stream: Stream::Stderr, .. } => match reply {
                Reply::Done | Reply::Failed(_) => {
                    self.phase = Phase::Finished;
                },
                _ => {},
            },
            Request::ChangeDirectory { .. } => match reply {
                Reply::Done => {
                    self.advance(false);
                },
                Reply::Failed(_) => {
                    let message = match &self.stages[self.index] {
                        Command::Cd(path) => cd_failure(path.as_str()),
                        _ => String::new(),
                    };
                    self.phase = Phase::Failing(message);
                },
                _ => {},
            },
            Request::Write { stream: Stream::Stdout, .. } | Request::Feed { .. } => match reply {
                Reply::Done => {
                    let conduit = match request {
                        Request::Feed { .. } => true,
                        _ => false,
                    };
                    self.advance(conduit);
                },
                Reply::Failed(message) => {
                    self.phase = Phase::Failing(message);
                },
                _ => {},
            },
            Request::Spawn { wiring, .. } => match reply {
                Reply::Done => {
                    let conduit = match wiring.stdout {
                        StdoutTarget::Conduit => true,
                        _ => false,
                    };
                    self.advance(conduit);
                },
                Reply::Failed(message) => {
                    self.phase = Phase::Failing(message);
                },
                _ => {},
            },
        }
    }
}

/// The first stages of a pipeline leave at most one conduit each.
pub proof fn lemma_conduits_bound(stages: Seq<CommandView>, count: nat)
    ensures
        conduits_before(stages, count) <= count,
        stages.len() > 0 ==> conduits_before(stages, count) <= stages.len() - 1,
    decreases count,
{
    if count > 0 {
        lemma_conduits_bound(stages, (count - 1) as nat);
    }
}

/// Answering a request leads from one state that an executor can be in to
/// another.
pub proof fn lemma_resume_wf(executor: ExecutorView, reply: ReplyView)
    requires
        executor.wf(),
    ensures
        executor.resume(reply).wf(),
{
    let next = executor.resume(reply);
    if next.index == executor.index + 1 {
        // The stage has done its work: it left a conduit exactly if it yields
        // one and another stage follows.
        let stage = executor.stages[executor.index as int];
        assert(next == executor.advanced(next.piped));
        assert(next.piped == (executor.index + 1 < executor.stages.len() && yields_conduit(
            stage,
        )));
    }
}

/// Any sequence of replies leads the executor from its start to a state that
/// it can be in.
pub proof fn lemma_run_wf(
    stages: Seq<CommandView>,
    streams: OutputStreamsView,
    replies: Seq<ReplyView>,
)
    ensures
        ExecutorView::start(stages, streams).run(replies).wf(),
    decreases replies.len(),
{
    let start = ExecutorView::start(stages, streams);
    if replies.len() == 0 {
        assert(start.wf());
    } else {
        lemma_run_wf(stages, streams, replies.drop_last());
        lemma_resume_wf(start.run(replies.drop_last()), replies.last());
    }
}

/// When every stage before the last one yields a conduit, the first `count`
/// stages leave `count` conduits, as long as the last stage is not among
/// them.
proof fn lemma_conduits_all(stages: Seq<CommandView>, count: nat)
    requires
        count < stages.len(),
        forall|j: int| 0 <= j < stages.len() - 1 ==> yields_conduit(#[trigger] stages[j]),
    ensures
        conduits_before(stages, count) == count,
    decreases count,
{
    if count > 0 {
        lemma_conduits_all(stages, (count - 1) as nat);
    }
}

/// A pipeline of N stages that has run to its end has opened N - 1 conduits,
/// provided that each stage before the last one yields a conduit.
pub proof fn lemma_conduits_completed(executor: ExecutorView)
    requires
        executor.wf(),
        executor.completed(),
        executor.stages.len() >= 1,
        forall|j: int|
            0 <= j < executor.stages.len() - 1 ==> yields_conduit(#[trigger] executor.stages[j]),
    ensures
        executor.conduits == executor.stages.len() - 1,
{
    lemma_conduits_all(executor.stages, (executor.stages.len() - 1) as nat);
}

/// However the host answers, a pipeline of N stages never has more than N - 1
/// conduits opened; and when all its stages have run, and each stage before
/// the last one yields a conduit, exactly N - 1.
pub proof fn lemma_pipeline_conduits(
    stages: Seq<CommandView>,
    streams: OutputStreamsView,
    replies: Seq<ReplyView>,
)
    requires
        stages.len() >= 1,
    ensures
        ({
            let end = ExecutorView::start(stages, streams).run(replies);
            &&& end.stages == stages
            &&& end.conduits <= stages.len() - 1
            &&& end.completed() && (forall|j: int|
                0 <= j < stages.len() - 1 ==> yields_conduit(#[trigger] stages[j]))
                ==> end.conduits == stages.len() - 1
        }),
{
    let end = ExecutorView::start(stages, streams).run(replies);
    lemma_run_wf(stages, streams, replies);
    lemma_run_stages(ExecutorView::start(stages, streams), replies);
    lemma_conduits_bound(stages, end.index);
    if end.completed() && (forall|j: int|
        0 <= j < stages.len() - 1 ==> yields_conduit(#[trigger] stages[j])) {
        lemma_conduits_completed(end);
    }
}

/// The stages and the sinks of an executor never change.
pub proof fn lemma_run_stages(executor: ExecutorView, replies: Seq<ReplyView>)
    ensures
        executor.run(replies).stages == executor.stages,
        executor.run(replies).streams == executor.streams,
    decreases replies.len(),
{
    if replies.len() > 0 {
        lemma_run_stages(executor, replies.drop_last());
    }
}

/// Only the last stage writes to the standard output sink, and only a stage
/// before the last one opens a conduit.
pub proof fn lemma_output_goes_forward(executor: ExecutorView)
    ensures
        executor.request() matches RequestView::Write { stream: Stream::Stdout, .. }
            ==> executor.at_last(),
        opens_conduit(executor.request()) ==> executor.index + 1 < executor.stages.len(),
{
}

/// Once nothing is left to do, no reply changes that.
pub proof fn lemma_finished_stays(executor: ExecutorView, replies: Seq<ReplyView>)
    requires
        executor.request() is Finished,
    ensures
        executor.run(replies) == executor,
    decreases replies.len(),
{
    if replies.len() > 0 {
        lemma_finished_stays(executor, replies.drop_last());
    }
}

/// A stage whose program cannot be found halts the pipeline: the search is
/// the first thing the stage asks for; when it finds nothing, the one line
/// `<name>: command not found` goes to standard error; and after that nothing
/// is left to do, whatever the host says. The stage has spawned nothing and
/// opened no conduit, and no later stage has started.
pub proof fn lemma_unresolved_program_halts(executor: ExecutorView, replies: Seq<ReplyView>)
    requires
        executor.index < executor.stages.len(),
        executor.phase is Start,
        executor.stages[executor.index as int] is Exec,
    ensures
        ({
            let name = executor.stages[executor.index as int]->Exec_command;
            let missing = executor.resume(ReplyView::Missing);
            let reported = missing.resume(ReplyView::Done);
            &&& executor.request() == RequestView::Lookup { name }
            &&& missing.request() == RequestView::Write {
                stream: Stream::Stderr,
                text: command_not_found_text(name),
            }
            &&& reported.request() is Finished
            &&& reported.run(replies) == reported
            &&& reported.index == executor.index
            &&& reported.conduits == executor.conduits
        }),
{
    let reported = executor.resume(ReplyView::Missing).resume(ReplyView::Done);
    lemma_finished_stays(reported, replies);
}

/// A `cd` that fails halts the pipeline: the one line `cd: <path>: No such
/// file or directory` goes to standard error, whatever reason the host gave,
/// and after that nothing is left to do. No conduit was opened and no later
/// stage has started.
pub proof fn lemma_failed_cd_halts(
    executor: ExecutorView,
    reason: Seq<char>,
    replies: Seq<ReplyView>,
)
    requires
        executor.index < executor.stages.len(),
        executor.phase is Start,
        executor.stages[executor.index as int] is Cd,
    ensures
        ({
            let path = executor.stages[executor.index as int]->Cd_0;
            let failed = executor.resume(ReplyView::Failed(reason));
            let reported = failed.resume(ReplyView::Done);
            &&& executor.request() == RequestView::ChangeDirectory { target: cd_target_of(path) }
            &&& failed.request() == RequestView::Write {
                stream: Stream::Stderr,
                text: cd_failure_text(path),
            }
            &&& reported.request() is Finished
            &&& reported.run(replies) == reported
            &&& reported.index == executor.index
            &&& reported.conduits == executor.conduits
        }),
{
    let reported = executor.resume(ReplyView::Failed(reason)).resume(ReplyView::Done);
    lemma_finished_stays(reported, replies);
}

} // verus!
