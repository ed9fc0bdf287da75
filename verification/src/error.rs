//! What can go wrong when commits are staged.

use vstd::prelude::*;

verus! {

/// A failure that ends the command at hand.
#[derive(Debug)]
pub enum StageError {
    /// The current directory is not inside a Git repository.
    NotARepository,
    /// The repository has no working directory.
    NoWorkingDirectory,
    /// The revision specification cannot be resolved; it is carried along.
    InvalidRevisionSpec(String),
    /// An end of the revision specification is no commit.
    NotACommit,
    /// The repository reported a failure; its message is carried along.
    Repository(String),
}

impl StageError {
    /// The text of the message for this failure.
    pub open spec fn text(self) -> Seq<char> {
        match self {
            StageError::NotARepository => "Current working directory does not seem to be within a Git repository."@,
            StageError::NoWorkingDirectory => "Could not find Git working directory."@,
            StageError::InvalidRevisionSpec(spec) => "Could not parse given revision specification: "@
                + spec@,
            StageError::NotACommit => "None"@,
            StageError::Repository(message) => message@,
        }
    }

    /// The message shown to the user.
    pub fn message(&self) -> (text: String)
        ensures
            text@ == self.text(),
    {
        match self {
            StageError::NotARepository => String::from_str(
                "Current working directory does not seem to be within a Git repository.",
            ),
            StageError::NoWorkingDirectory => String::from_str("Could not find Git working directory."),
            StageError::InvalidRevisionSpec(spec) => {
                let mut text = String::from_str("Could not parse given revision specification: ");
                text.append(spec.as_str());
                text
            },
            StageError::NotACommit => String::from_str("None"),
            StageError::Repository(message) => message.clone(),
        }
    }
}

} // verus!
