//! The engine of an interactive command shell.
//!
//! One line of input becomes tokens, the tokens become the commands of a
//! pipeline with the sinks of its last stage, and an executor decides, step by
//! step, what has to happen for the pipeline to run. The crate reads no input,
//! starts no process and opens no file: its host does, as the executor asks.

pub mod commands;
pub mod completer;
pub mod error;
pub mod executor;
pub mod finder;
pub mod history;
pub mod output;
pub mod parser;
pub mod redirect;
pub mod text;
pub mod tokenizer;

pub use crate::commands::{
    builtin_commands, cd_target, interpret_escape_sequences, is_built_in, CdTarget, Command,
    CommandKind,
};
pub use crate::error::ParseError;
pub use crate::executor::{
    plan_wiring, Executor, Reply, Request, StderrTarget, StdinSource, StdoutTarget, Wiring,
};
pub use crate::history::History;
pub use crate::output::{FileOutput, Output, OutputStreams, Sink, StdErrOutput, StdOutput};
pub use crate::redirect::Stream;
