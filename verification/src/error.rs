use vstd::prelude::*;

verus! {

/// The errors of the task store and of the argument parsing.
#[derive(Debug)]
pub enum Error {
    /// An update named a task that does not exist.
    InvalidTask,
    /// A task that does not exist was asked for.
    TaskNotFound,
    /// A task was to be created under an identifier that is already taken.
    TaskExists,
    /// The text is not a task identifier; the message is uuid's account of why.
    InvalidTaskId(String),
    /// The named environment variable holds text that is not valid Unicode.
    InvalidEnvironmentVariable(String),
}

impl Error {
    /// The human-readable message of the error.
    pub open spec fn spec_message(&self) -> Seq<char> {
        match self {
            Error::InvalidTask => "invalid task"@,
            Error::TaskNotFound => "task not found"@,
            Error::TaskExists => "task already exists"@,
            Error::InvalidTaskId(message) => message@,
            Error::InvalidEnvironmentVariable(name) => "Environment variable "@ + name@
                + " contains invalid characters"@,
        }
    }

    /// Returns the human-readable message of the error.
    pub fn message(&self) -> (text: String)
        ensures
            text@ == self.spec_message(),
    {
        match self {
            Error::InvalidTask => "invalid task".to_owned(),
            Error::TaskNotFound => "task not found".to_owned(),
            Error::TaskExists => "task already exists".to_owned(),
            Error::InvalidTaskId(message) => message.clone(),
            Error::InvalidEnvironmentVariable(name) => {
                let text = "Environment variable ".to_owned();
                let text = text.concat(name.as_str());
                text.concat(" contains invalid characters")
            },
        }
    }
}

} // verus!
