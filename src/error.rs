//! The errors that loading and dispatching commands can report.
use vstd::prelude::*;
use vstd::string::StringExecFns;

verus! {

/// Represents all possible errors that can occur within the extension.
#[derive(Debug, PartialEq, Eq)]
pub enum CommandError {
    /// A requested slash command was not found in the loaded definitions.
    /// Contains the name of the command that was not found.
    CommandNotFound(String),
    /// A command requiring user input was run without any.
    /// Contains the name of the command that was missing an argument.
    MissingArgument(String),
    /// A file required by a command does not exist.
    /// Contains the path to the file that was not found.
    PrerequisiteFileNotFound(String),
    /// A command's TOML definition is malformed.
    /// Contains a detailed error message.
    TomlParseError(String),
    /// A generic I/O error. Contains a detailed error message.
    IoError(String),
}

/// The text that the user sees for an error.
pub open spec fn error_text(e: CommandError) -> Seq<char> {
    match e {
        CommandError::CommandNotFound(c) => "Command not found: /"@ + c@,
        CommandError::MissingArgument(c) => "Missing argument for command: /"@ + c@,
        CommandError::PrerequisiteFileNotFound(p) => "Prerequisite file not found: "@ + p@,
        CommandError::TomlParseError(d) => "Failed to parse TOML file: "@ + d@,
        CommandError::IoError(d) => "I/O Error: "@ + d@,
    }
}

impl CommandError {
    /// Renders the error as the message shown to the user.
    pub fn message(&self) -> (r: String)
        ensures
            r@ == error_text(*self),
    {
        let (prefix, detail) = match self {
            CommandError::CommandNotFound(c) => ("Command not found: /", c),
            CommandError::MissingArgument(c) => ("Missing argument for command: /", c),
            CommandError::PrerequisiteFileNotFound(p) => ("Prerequisite file not found: ", p),
            CommandError::TomlParseError(d) => ("Failed to parse TOML file: ", d),
            CommandError::IoError(d) => ("I/O Error: ", d),
        };
        let mut r = String::from_str(prefix);
        r.append(detail.as_str());
        r
    }
}

} // verus!
