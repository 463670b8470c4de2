use vstd::prelude::*;

verus! {

/// What can go wrong when commands are registered or invoked.
#[derive(Debug, PartialEq, Eq)]
pub enum CommandError {
    /// The UI asked for a command that no handler is registered under.
    UnknownCommand,
    /// Two handlers were registered under one name.
    DuplicateCommand,
    /// A handler reported a failure of its own, with its description.
    HandlerFailure(String),
}

/// The text by which an error is reported across the UI boundary.
pub open spec fn error_text(e: CommandError) -> Seq<char> {
    match e {
        CommandError::UnknownCommand => "UnknownCommand"@,
        CommandError::DuplicateCommand => "DuplicateCommand"@,
        CommandError::HandlerFailure(msg) => msg@,
    }
}

impl CommandError {
    /// Describes the error as the UI layer's caller sees it.
    pub fn description(&self) -> (r: String)
        ensures
            r@ == error_text(*self),
    {
        match self {
            CommandError::UnknownCommand => "UnknownCommand".to_owned(),
            CommandError::DuplicateCommand => "DuplicateCommand".to_owned(),
            CommandError::HandlerFailure(msg) => msg.clone(),
        }
    }
}

} // verus!
