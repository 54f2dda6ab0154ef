//! Commands: the closed set of built-ins and the meaning of one stage.

use vstd::prelude::*;
use vstd::string::StringExecFns;
use crate::text::{chars_of, same_text, text_from};

verus! {

/// The built-in commands.
#[derive(Clone, Copy, Debug, PartialEq, Eq, Structural)]
pub enum CommandKind {
    Exit,
    Echo,
    Type,
    Pwd,
    Cd,
    History,
}

/// The meaning of one stage of a pipeline.
#[derive(Clone, Debug, PartialEq, Eq)]
pub enum Command {
    /// Leave the shell.
    Exit,
    /// Print the text, with its escape sequences expanded if the flag is set.
    Echo { text: String, interpret_escapes: bool },
    /// Say what the name stands for.
    Type(String),
    /// Run the program of that name with these arguments.
    Exec { command: String, args: Vec<String> },
    /// Print the working directory.
    Pwd,
    /// Change the working directory.
    Cd(String),
    /// Consult the history, with the words that followed, if any.
    History(Option<String>),
}

/// The model of a command.
pub enum CommandView {
    Exit,
    Echo { text: Seq<char>, interpret_escapes: bool },
    Type(Seq<char>),
    Exec { command: Seq<char>, args: Seq<Seq<char>> },
    Pwd,
    Cd(Seq<char>),
    History(Option<Seq<char>>),
}

/// The model of an optional string.
pub open spec fn option_view(text: Option<String>) -> Option<Seq<char>> {
    match text {
        Some(text) => Some(text@),
        None => None,
    }
}

impl View for Command {
    type V = CommandView;

    open spec fn view(&self) -> CommandView {
        match self {
            Command::Exit => CommandView::Exit,
            Command::Echo { text, interpret_escapes } => CommandView::Echo {
                text: text@,
                interpret_escapes: *interpret_escapes,
            },
            Command::Type(name) => CommandView::Type(name@),
            Command::Exec { command, args } => CommandView::Exec {
                command: command@,
                args: args.deep_view(),
            },
            Command::Pwd => CommandView::Pwd,
            Command::Cd(path) => CommandView::Cd(path@),
            Command::History(subcommand) => CommandView::History(option_view(*subcommand)),
        }
    }
}

impl DeepView for Command {
    type V = CommandView;

    open spec fn deep_view(&self) -> CommandView {
        self@
    }
}

/// The name by which a built-in is called.
pub open spec fn builtin_name(kind: CommandKind) -> Seq<char> {
    match kind {
        CommandKind::Exit => "exit"@,
        CommandKind::Echo => "echo"@,
        CommandKind::Type => "type"@,
        CommandKind::Pwd => "pwd"@,
        CommandKind::Cd => "cd"@,
        CommandKind::History => "history"@,
    }
}

/// The built-in that a word names, if it names one. The match is exact and
/// distinguishes upper and lower case.
pub open spec fn builtin_kind(name: Seq<char>) -> Option<CommandKind> {
    if name == "exit"@ {
        Some(CommandKind::Exit)
    } else if name == "echo"@ {
        Some(CommandKind::Echo)
    } else if name == "type"@ {
        Some(CommandKind::Type)
    } else if name == "pwd"@ {
        Some(CommandKind::Pwd)
    } else if name == "cd"@ {
        Some(CommandKind::Cd)
    } else if name == "history"@ {
        Some(CommandKind::History)
    } else {
        None
    }
}

/// The names of the built-ins, in the order of their declaration.
pub open spec fn builtin_names() -> Seq<Seq<char>> {
    seq!["exit"@, "echo"@, "type"@, "pwd"@, "cd"@, "history"@]
}

/// The listed names are exactly the words that name a built-in.
pub proof fn lemma_builtin_names(name: Seq<char>)
    ensures
        builtin_names().contains(name) <==> builtin_kind(name) is Some,
{
    let names = builtin_names();
    if builtin_kind(name) is Some {
        let i: int = match builtin_kind(name)->0 {
            CommandKind::Exit => 0,
            CommandKind::Echo => 1,
            CommandKind::Type => 2,
            CommandKind::Pwd => 3,
            CommandKind::Cd => 4,
            CommandKind::History => 5,
        };
        assert(names[i] == name);
    }
}

/// Each built-in is found again under its own name.
pub proof fn lemma_builtin_name_kind(kind: CommandKind)
    ensures
        builtin_kind(builtin_name(kind)) == Some(kind),
{
    reveal_strlit("exit");
    reveal_strlit("echo");
    reveal_strlit("type");
    reveal_strlit("pwd");
    reveal_strlit("cd");
    reveal_strlit("history");
    let name = builtin_name(kind);
    match kind {
        CommandKind::Exit => {},
        CommandKind::Echo => {
            assert(name[1] != "exit"@[1]);
        },
        CommandKind::Type => {
            assert(name[0] != "exit"@[0]);
            assert(name[0] != "echo"@[0]);
        },
        CommandKind::Pwd => {
            assert(name.len() != "exit"@.len());
        },
        CommandKind::Cd => {
            assert(name.len() != "exit"@.len());
            assert(name.len() != "pwd"@.len());
        },
        CommandKind::History => {
            assert(name.len() != "exit"@.len());
            assert(name.len() != "pwd"@.len());
            assert(name.len() != "cd"@.len());
        },
    }
}

impl CommandKind {
    /// The built-in that `name` names, if it names one.
    pub fn from_name(name: &str) -> (kind: Option<CommandKind>)
        ensures
            kind == builtin_kind(name@),
    {
        if same_text(name, "exit") {
            Some(CommandKind::Exit)
        } else if same_text(name, "echo") {
            Some(CommandKind::Echo)
        } else if same_text(name, "type") {
            Some(CommandKind::Type)
        } else if same_text(name, "pwd") {
            Some(CommandKind::Pwd)
        } else if same_text(name, "cd") {
            Some(CommandKind::Cd)
        } else if same_text(name, "history") {
            Some(CommandKind::History)
        } else {
            None
        }
    }

    /// The name by which this built-in is called.
    pub fn name(&self) -> (name: String)
        ensures
            name@ == builtin_name(*self),
    {
        match self {
            CommandKind::Exit => "exit".to_owned(),
            CommandKind::Echo => "echo".to_owned(),
            CommandKind::Type => "type".to_owned(),
            CommandKind::Pwd => "pwd".to_owned(),
            CommandKind::Cd => "cd".to_owned(),
            CommandKind::History => "history".to_owned(),
        }
    }
}

/// Whether the word names a built-in.
pub fn is_built_in(command: &str) -> (built_in: bool)
    ensures
        built_in == (builtin_kind(command@) is Some),
{
    CommandKind::from_name(command).is_some()
}

/// The names of all built-ins.
pub fn builtin_commands() -> (names: Vec<String>)
    ensures
        names.deep_view() == builtin_names(),
        forall|name: Seq<char>|
            #[trigger] names.deep_view().contains(name) <==> builtin_kind(name) is Some,
{
    let mut names: Vec<String> = Vec::new();
    names.push(CommandKind::Exit.name());
    names.push(CommandKind::Echo.name());
    names.push(CommandKind::Type.name());
    names.push(CommandKind::Pwd.name());
    names.push(CommandKind::Cd.name());
    names.push(CommandKind::History.name());
    assert(names.deep_view() =~= builtin_names());
    assert forall|name: Seq<char>| #[trigger]
        names.deep_view().contains(name) <==> builtin_kind(name) is Some by {
        lemma_builtin_names(name);
    }
    names
}

/// What a backslash followed by `c` stands for: a control character for the
/// letters that name one, a backslash for a second backslash, and otherwise
/// the two characters as they are.
pub open spec fn escape_value(c: char) -> Seq<char> {
    if c == 'n' {
        seq!['\n']
    } else if c == 't' {
        seq!['\t']
    } else if c == 'r' {
        seq!['\r']
    } else if c == '\\' {
        seq!['\\']
    } else if c == 'a' {
        seq!['\x07']
    } else if c == 'b' {
        seq!['\x08']
    } else if c == 'f' {
        seq!['\x0C']
    } else if c == 'v' {
        seq!['\x0B']
    } else if c == 'e' {
        seq!['\x1B']
    } else {
        seq!['\\', c]
    }
}

/// The text with its escape sequences expanded. A backslash at the very end
/// stays.
pub open spec fn unescape(text: Seq<char>) -> Seq<char>
    decreases text.len(),
{
    if text.len() == 0 {
        Seq::empty()
    } else if text[0] != '\\' {
        seq![text[0]] + unescape(text.skip(1))
    } else if text.len() == 1 {
        seq!['\\']
    } else {
        escape_value(text[1]) + unescape(text.skip(2))
    }
}

/// Expands the escape sequences of `echo -e`.
pub fn interpret_escape_sequences(s: &str) -> (result: String)
    ensures
        result@ == unescape(s@),
{
    broadcast use vstd::string::group_string_axioms;

    let mut result = String::new();
    let mut pending = false;
    assert(s@.skip(0) =~= s@);
    for c in iter: s.chars()
        invariant
            iter.seq() == s@,
            !pending ==> result@ + unescape(s@.skip(iter.index() as int)) == unescape(s@),
            pending ==> iter.index() >= 1 && s@[iter.index() - 1] == '\\' && result@ + unescape(
                s@.skip(iter.index() - 1),
            ) == unescape(s@),
    {
        let ghost at = iter.index() as int;
        let ghost before = result@;
        if pending {
            let ghost rest = s@.skip(at - 1);
            assert(rest[0] == '\\' && rest[1] == c);
            assert(rest.skip(2) =~= s@.skip(at + 1));
            if c == 'n' {
                result.push('\n');
            } else if c == 't' {
                result.push('\t');
            } else if c == 'r' {
                result.push('\r');
            } else if c == '\\' {
                result.push('\\');
            } else if c == 'a' {
                result.push('\x07');
            } else if c == 'b' {
                result.push('\x08');
            } else if c == 'f' {
                result.push('\x0C');
            } else if c == 'v' {
                result.push('\x0B');
            } else if c == 'e' {
                result.push('\x1B');
            } else {
                result.push('\\');
                result.push(c);
            }
            assert(result@ =~= before + escape_value(c));
            assert(result@ + unescape(s@.skip(at + 1)) =~= before + unescape(rest));
            pending = false;
        } else if c == '\\' {
            pending = true;
        } else {
            let ghost rest = s@.skip(at);
            assert(rest[0] == c);
            assert(rest.skip(1) =~= s@.skip(at + 1));
            result.push(c);
            assert(result@ + unescape(s@.skip(at + 1)) =~= before + unescape(rest));
        }
    }
    if pending {
        let ghost rest = s@.skip(s@.len() - 1);
        assert(rest.len() == 1 && rest[0] == '\\');
        let ghost before = result@;
        result.push('\\');
        assert(result@ =~= before + unescape(rest));
    } else {
        assert(result@ + unescape(s@.skip(s@.len() as int)) =~= result@);
    }
    result
}

/// Where `cd` is asked to go.
#[derive(Clone, Debug, PartialEq, Eq)]
pub enum CdTarget {
    /// The home directory.
    Home,
    /// The path that follows `~/`, taken from the home directory.
    HomeRelative(String),
    /// The path as written.
    Path(String),
}

/// The model of a `cd` target.
pub enum CdTargetView {
    Home,
    HomeRelative(Seq<char>),
    Path(Seq<char>),
}

impl View for CdTarget {
    type V = CdTargetView;

    open spec fn view(&self) -> CdTargetView {
        match self {
            CdTarget::Home => CdTargetView::Home,
            CdTarget::HomeRelative(rest) => CdTargetView::HomeRelative(rest@),
            CdTarget::Path(path) => CdTargetView::Path(path@),
        }
    }
}

/// The target that the argument of `cd` names: home for no argument and for
/// `~`, a path under home for an argument that starts with `~/`, and the
/// argument itself otherwise.
pub open spec fn cd_target_of(path: Seq<char>) -> CdTargetView {
    if path.len() == 0 || path == seq!['~'] {
        CdTargetView::Home
    } else if path.len() >= 2 && path[0] == '~' && path[1] == '/' {
        CdTargetView::HomeRelative(path.skip(2))
    } else {
        CdTargetView::Path(path)
    }
}

/// Reads the argument of `cd`.
pub fn cd_target(path: &str) -> (target: CdTarget)
    ensures
        target@ == cd_target_of(path@),
{
    let chars = chars_of(path);
    if chars.len() == 0 {
        CdTarget::Home
    } else if chars.len() == 1 && chars[0] == '~' {
        assert(path@ =~= seq!['~']);
        CdTarget::Home
    } else if chars.len() >= 2 && chars[0] == '~' && chars[1] == '/' {
        CdTarget::HomeRelative(text_from(&chars, 2))
    } else {
        assert(path@ != seq!['~']) by {
            if path@ == seq!['~'] {
                assert(path@.len() == 1 && path@[0] == '~');
            }
        }
        CdTarget::Path(path.to_owned())
    }
}

/// The line that reports a failed `cd`.
pub open spec fn cd_failure_text(path: Seq<char>) -> Seq<char> {
    "cd: "@ + path + ": No such file or directory"@
}

/// The line by which `type` describes a built-in.
pub open spec fn type_builtin_text(name: Seq<char>) -> Seq<char> {
    name + " is a shell builtin"@
}

/// The line by which `type` describes a program found at `location`.
pub open spec fn type_found_text(name: Seq<char>, location: Seq<char>) -> Seq<char> {
    name + " is "@ + location
}

/// The line by which `type` describes a name that stands for nothing.
pub open spec fn type_missing_text(name: Seq<char>) -> Seq<char> {
    name + ": not found"@
}

/// The line that reports a program that could not be found.
pub open spec fn command_not_found_text(name: Seq<char>) -> Seq<char> {
    name + ": command not found"@
}

/// Writes the line that reports a failed `cd`.
pub fn cd_failure(path: &str) -> (line: String)
    ensures
        line@ == cd_failure_text(path@),
{
    let mut line = "cd: ".to_owned();
    line.append(path);
    line.append(": No such file or directory");
    line
}

/// Writes the line by which `type` describes a built-in.
pub fn type_builtin(name: &str) -> (line: String)
    ensures
        line@ == type_builtin_text(name@),
{
    let mut line = name.to_owned();
    line.append(" is a shell builtin");
    line
}

/// Writes the line by which `type` describes a program found at `location`.
pub fn type_found(name: &str, location: &str) -> (line: String)
    ensures
        line@ == type_found_text(name@, location@),
{
    let mut line = name.to_owned();
    line.append(" is ");
    line.append(location);
    line
}

/// Writes the line by which `type` describes a name that stands for nothing.
pub fn type_missing(name: &str) -> (line: String)
    ensures
        line@ == type_missing_text(name@),
{
    let mut line = name.to_owned();
    line.append(": not found");
    line
}

/// Writes the line that reports a program that could not be found.
pub fn command_not_found(name: &str) -> (line: String)
    ensures
        line@ == command_not_found_text(name@),
{
    let mut line = name.to_owned();
    line.append(": command not found");
    line
}

} // verus!
