//! A slash-command dispatcher for an editor's assistant panel.
//!
//! Command definitions (a description and a prompt template) are loaded from
//! TOML documents; a dispatch looks a command up by name, enforces the
//! argument policy and substitutes the `$ARGUMENTS` and `$PROJECT_ROOT`
//! placeholders.
use vstd::prelude::*;
use vstd::string::StringExecFns;

pub mod command;
pub mod document;
pub mod error;
pub mod handler;
pub mod text;

pub use command::{load_commands, Command, CommandMap};
pub use error::CommandError;
pub use handler::handle_command;

use command::{load_outcome, source_names};
use handler::{dispatch_succeeds, expand};
use text::{join_args, joined, string_views};

verus! {

/// The extension's state: the commands loaded at startup.
pub struct SpecKitExtension {
    commands: CommandMap,
}

impl SpecKitExtension {
    /// The loaded commands.
    pub closed spec fn definitions(&self) -> CommandMap {
        self.commands
    }

    /// Loads the extension's commands from named definition texts. Without
    /// all of its commands the extension cannot work, so one malformed text
    /// fails the whole load.
    pub fn new(command_files: Vec<(String, String)>) -> (r: Result<SpecKitExtension, CommandError>)
        requires
            source_names(command_files@).no_duplicates(),
        ensures
            match r {
                Ok(ext) => load_outcome(command_files@, Ok(ext.definitions())),
                Err(e) => load_outcome(command_files@, Err(e)),
            },
    {
        match load_commands(command_files) {
            Ok(commands) => Ok(SpecKitExtension { commands }),
            Err(e) => Err(e),
        }
    }

    /// Runs a slash command invoked with argument tokens, in a project whose
    /// root is `project_root`, if there is one. The tokens are joined with
    /// single spaces; an error comes back as the message shown to the user.
    pub fn run_slash_command(&self, command: &str, args: &Vec<String>, project_root: Option<&str>) -> (r: Result<String, String>)
        requires
            self.definitions().wf(),
        ensures
            match project_root {
                None => r matches Err(m) && m@ == "This command requires an active worktree."@,
                Some(root) => {
                    let defs = self.definitions()@;
                    let a = joined(string_views(args@));
                    match r {
                        Ok(s) => dispatch_succeeds(defs, command@, a)
                            && s@ == expand(defs[command@].prompt, a, root@),
                        Err(m) => !dispatch_succeeds(defs, command@, a) && m@ == if !defs.contains_key(command@) {
                            "Command not found: /"@ + command@
                        } else {
                            "Missing argument for command: /"@ + command@
                        },
                    }
                },
            },
    {
        let args_str = join_args(args);
        let root = match project_root {
            Some(root) => root,
            None => return Err(String::from_str("This command requires an active worktree.")),
        };
        match handle_command(command, args_str.as_str(), &self.commands, root) {
            Ok(prompt) => Ok(prompt),
            Err(e) => Err(e.message()),
        }
    }
}

} // verus!
