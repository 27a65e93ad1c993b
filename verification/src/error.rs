//! What can go wrong.

use vstd::prelude::*;
use vstd::string::*;
use crate::operation::{Operation, OperationView};

verus! {

/// Why an invocation came to nothing, or stopped half way.
#[derive(Debug, PartialEq, Eq)]
pub enum Error {
    /// The word for the direction was neither `run` nor `rollback`.
    DirectionParse,
    /// The inventory has no group of this name.
    Lookup(String),
    /// The machine failed at `operation`. `cause` is the system's account
    /// where the operation could not be attempted, and `None` where it was
    /// attempted and reported failure itself.
    Action { operation: Operation, cause: Option<String> },
}

/// An `Error` with its texts as sequences of characters.
pub enum ErrorView {
    DirectionParse,
    Lookup(Seq<char>),
    Action { operation: OperationView, cause: Option<Seq<char>> },
}

impl View for Error {
    type V = ErrorView;

    open spec fn view(&self) -> ErrorView {
        match *self {
            Error::DirectionParse => ErrorView::DirectionParse,
            Error::Lookup(name) => ErrorView::Lookup(name@),
            Error::Action { operation, cause } => ErrorView::Action {
                operation: operation@,
                cause: match cause {
                    Some(text) => Some(text@),
                    None => None,
                },
            },
        }
    }
}

impl ErrorView {
    /// The error in words.
    pub open spec fn message(self) -> Seq<char> {
        match self {
            ErrorView::DirectionParse =>
                "Error occured: Did not match either 'run' or 'rollback'"@,
            ErrorView::Lookup(name) => "did not find group: "@ + name,
            ErrorView::Action { operation, cause } => match cause {
                Some(text) => text,
                None => "the machine reported failure"@,
            },
        }
    }
}

impl Error {
    /// The error in words.
    pub fn message(&self) -> (words: String)
        ensures
            words@ == self@.message(),
    {
        match self {
            Error::DirectionParse => {
                "Error occured: Did not match either 'run' or 'rollback'".to_owned()
            },
            Error::Lookup(name) => {
                let mut words = "did not find group: ".to_owned();
                words.append(name.as_str());
                words
            },
            Error::Action { operation, cause } => match cause {
                Some(text) => text.clone(),
                None => "the machine reported failure".to_owned(),
            },
        }
    }
}

} // verus!
