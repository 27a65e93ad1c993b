//! What a run asks of the machine, and what the machine answers.

use vstd::prelude::*;
use vstd::string::*;
use crate::homebrew::{install, ls, remove, BrewSource};

verus! {

/// One thing to be done on the machine by whoever drives a run.
#[derive(Debug, PartialEq, Eq)]
pub enum Operation {
    /// Ask the package store whether it holds a version of `name`.
    List { source: BrewSource, name: String },
    /// Have the package store install `name`.
    Install { source: BrewSource, name: String },
    /// Have the package store remove `name`.
    Remove { source: BrewSource, name: String },
    /// Ask whether anything stands at `path`.
    Exists { path: String },
    /// Create the directories above `path` that are missing.
    MakeParents { path: String },
    /// Create at `to` a symbolic link to the file `from`.
    Link { from: String, to: String },
    /// Remove the symbolic link at `path`.
    Unlink { path: String },
    /// Hand `line` to the shell.
    Shell { line: String },
}

/// An `Operation` with its texts as sequences of characters.
pub enum OperationView {
    List { source: BrewSource, name: Seq<char> },
    Install { source: BrewSource, name: Seq<char> },
    Remove { source: BrewSource, name: Seq<char> },
    Exists { path: Seq<char> },
    MakeParents { path: Seq<char> },
    Link { from: Seq<char>, to: Seq<char> },
    Unlink { path: Seq<char> },
    Shell { line: Seq<char> },
}

impl View for Operation {
    type V = OperationView;

    open spec fn view(&self) -> OperationView {
        match *self {
            Operation::List { source, name } => OperationView::List { source, name: name@ },
            Operation::Install { source, name } => OperationView::Install { source, name: name@ },
            Operation::Remove { source, name } => OperationView::Remove { source, name: name@ },
            Operation::Exists { path } => OperationView::Exists { path: path@ },
            Operation::MakeParents { path } => OperationView::MakeParents { path: path@ },
            Operation::Link { from, to } => OperationView::Link { from: from@, to: to@ },
            Operation::Unlink { path } => OperationView::Unlink { path: path@ },
            Operation::Shell { line } => OperationView::Shell { line: line@ },
        }
    }
}

impl DeepView for Operation {
    type V = OperationView;

    open spec fn deep_view(&self) -> OperationView {
        self@
    }
}

impl Clone for Operation {
    fn clone(&self) -> (copy: Self)
        ensures
            copy == *self,
    {
        match self {
            Operation::List { source, name } => Operation::List {
                source: *source,
                name: name.clone(),
            },
            Operation::Install { source, name } => Operation::Install {
                source: *source,
                name: name.clone(),
            },
            Operation::Remove { source, name } => Operation::Remove {
                source: *source,
                name: name.clone(),
            },
            Operation::Exists { path } => Operation::Exists { path: path.clone() },
            Operation::MakeParents { path } => Operation::MakeParents { path: path.clone() },
            Operation::Link { from, to } => Operation::Link { from: from.clone(), to: to.clone() },
            Operation::Unlink { path } => Operation::Unlink { path: path.clone() },
            Operation::Shell { line } => Operation::Shell { line: line.clone() },
        }
    }
}

impl OperationView {
    /// Whether carrying the operation out may change the machine. The two
    /// questions, `List` and `Exists`, only look.
    pub open spec fn mutates(self) -> bool {
        !(self is List || self is Exists)
    }

    /// The words of the process that carries the operation out, the program
    /// first; `None` for an operation on the file system, which needs no
    /// process.
    pub open spec fn command_line(self) -> Option<Seq<Seq<char>>> {
        match self {
            OperationView::List { source, name } => Some(crate::homebrew::ls_command(name, source)),
            OperationView::Install { source, name } => Some(
                crate::homebrew::install_command(name, source),
            ),
            OperationView::Remove { source, name } => Some(
                crate::homebrew::remove_command(name, source),
            ),
            OperationView::Shell { line } => Some(seq!["sh"@, "-c"@, line]),
            _ => None,
        }
    }
}

impl Operation {
    /// Whether carrying the operation out may change the machine.
    pub fn mutates(&self) -> (b: bool)
        ensures
            b == self@.mutates(),
    {
        match self {
            Operation::List { .. } => false,
            Operation::Exists { .. } => false,
            _ => true,
        }
    }

    /// The words of the process that carries the operation out, the program
    /// first; `None` for an operation on the file system.
    pub fn command_line(&self) -> (words: Option<Vec<String>>)
        ensures
            words.deep_view() == self@.command_line(),
    {
        match self {
            Operation::List { source, name } => Some(ls(name.as_str(), *source)),
            Operation::Install { source, name } => Some(install(name.as_str(), *source)),
            Operation::Remove { source, name } => Some(remove(name.as_str(), *source)),
            Operation::Shell { line } => {
                let mut words: Vec<String> = Vec::new();
                words.push("sh".to_owned());
                words.push("-c".to_owned());
                words.push(line.clone());
                assert(words.deep_view() =~= seq!["sh"@, "-c"@, line@]);
                Some(words)
            },
            _ => None,
        }
    }
}

/// What the machine answered to an operation.
#[derive(Debug, PartialEq, Eq)]
pub enum Reply {
    /// To a question: it is there. To any other operation: it was carried
    /// out.
    Yes,
    /// To a question: it is not there. To any other operation: it was
    /// attempted and the machine reported failure.
    No,
    /// The operation could not be attempted; the text is the system's own
    /// account of why.
    Failed(String),
}

/// A `Reply` with its text as a sequence of characters.
pub enum ReplyView {
    Yes,
    No,
    Failed(Seq<char>),
}

impl View for Reply {
    type V = ReplyView;

    open spec fn view(&self) -> ReplyView {
        match *self {
            Reply::Yes => ReplyView::Yes,
            Reply::No => ReplyView::No,
            Reply::Failed(cause) => ReplyView::Failed(cause@),
        }
    }
}

} // verus!
