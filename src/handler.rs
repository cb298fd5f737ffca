//! Dispatch of a single slash command: lookup, argument policy, substitution.
use vstd::prelude::*;
use vstd::string::StringExecFns;
use crate::command::{CommandMap, CommandModel};
use crate::error::{error_text, CommandError};
use crate::text::{lemma_replaced_absent, lemma_replaced_whole, occurs_in, replace_text, replaced};

verus! {

/// The commands that must be given a non-empty argument string.
pub open spec fn requires_argument(name: Seq<char>) -> bool {
    name == "specify"@ || name == "constitution"@
}

/// A prompt template with both placeholders substituted: first the
/// arguments, then, in that result, the project root.
pub open spec fn expand(template: Seq<char>, args: Seq<char>, root: Seq<char>) -> Seq<char> {
    replaced(replaced(template, "$ARGUMENTS"@, args), "$PROJECT_ROOT"@, root)
}

/// `e` reports that no command is named `name`.
pub open spec fn is_not_found(e: CommandError, name: Seq<char>) -> bool {
    match e {
        CommandError::CommandNotFound(n) => n@ == name,
        _ => false,
    }
}

/// `e` reports that the command `name` was given no argument.
pub open spec fn is_missing_argument(e: CommandError, name: Seq<char>) -> bool {
    match e {
        CommandError::MissingArgument(n) => n@ == name,
        _ => false,
    }
}

/// A dispatch of `name` with `args` succeeds: the command exists and, where
/// the policy asks for an argument, one was given.
pub open spec fn dispatch_succeeds(commands: Map<Seq<char>, CommandModel>, name: Seq<char>, args: Seq<char>) -> bool {
    commands.contains_key(name) && !(requires_argument(name) && args.len() == 0)
}

/// What dispatching `name` with `args` and the project root `root` yields.
pub open spec fn dispatch_outcome(
    commands: Map<Seq<char>, CommandModel>,
    name: Seq<char>,
    args: Seq<char>,
    root: Seq<char>,
    r: Result<String, CommandError>,
) -> bool {
    match r {
        Ok(s) => dispatch_succeeds(commands, name, args) && s@ == expand(commands[name].prompt, args, root),
        Err(e) => !dispatch_succeeds(commands, name, args) && if !commands.contains_key(name) {
            is_not_found(e, name)
        } else {
            is_missing_argument(e, name)
        },
    }
}

fn is_argument_required(name: &str) -> (r: bool)
    ensures
        r == requires_argument(name@),
{
    let n = String::from_str(name);
    n == String::from_str("specify") || n == String::from_str("constitution")
}

/// Handles the dispatch of a single slash command.
///
/// Looks `name` up exactly, refuses an empty argument string for the
/// commands that need one, then replaces every `$ARGUMENTS` in the prompt
/// template by `args` and every `$PROJECT_ROOT` in the result by
/// `project_root`.
pub fn handle_command(name: &str, args: &str, commands: &CommandMap, project_root: &str) -> (r: Result<String, CommandError>)
    requires
        commands.wf(),
    ensures
        dispatch_outcome(commands@, name@, args@, project_root@, r),
{
    let command = match commands.get(name) {
        Some(c) => c,
        None => return Err(CommandError::CommandNotFound(String::from_str(name))),
    };
    if is_argument_required(name) && args.is_empty() {
        return Err(CommandError::MissingArgument(String::from_str(name)));
    }
    proof {
        reveal_strlit("$ARGUMENTS");
        reveal_strlit("$PROJECT_ROOT");
    }
    let with_args = replace_text(command.prompt.as_str(), "$ARGUMENTS", args);
    let processed = replace_text(with_args.as_str(), "$PROJECT_ROOT", project_root);
    Ok(processed)
}

/// Two dispatch outcomes carry the same text: the same prompt, or errors
/// with the same message.
pub open spec fn same_outcome(a: Result<String, CommandError>, b: Result<String, CommandError>) -> bool {
    match (a, b) {
        (Ok(x), Ok(y)) => x@ == y@,
        (Err(x), Err(y)) => error_text(x) == error_text(y),
        _ => false,
    }
}

/// A template that is exactly the argument placeholder expands to the
/// argument string itself, when that string holds no project-root
/// placeholder; and the dispatch succeeds for a non-empty argument.
pub proof fn lemma_argument_round_trip(commands: Map<Seq<char>, CommandModel>, name: Seq<char>, a: Seq<char>, root: Seq<char>)
    requires
        commands.contains_key(name),
        commands[name].prompt == "$ARGUMENTS"@,
        a.len() > 0,
        !occurs_in("$PROJECT_ROOT"@, a),
    ensures
        dispatch_succeeds(commands, name, a),
        expand(commands[name].prompt, a, root) == a,
{
    reveal_strlit("$ARGUMENTS");
    lemma_replaced_whole("$ARGUMENTS"@, a);
    lemma_replaced_absent(a, "$PROJECT_ROOT"@, root);
}

/// Dispatching the same name and arguments twice against the same commands
/// gives the same outcome.
pub proof fn lemma_dispatch_repeatable(
    commands: Map<Seq<char>, CommandModel>,
    name: Seq<char>,
    args: Seq<char>,
    root: Seq<char>,
    first: Result<String, CommandError>,
    second: Result<String, CommandError>,
)
    requires
        dispatch_outcome(commands, name, args, root, first),
        dispatch_outcome(commands, name, args, root, second),
    ensures
        same_outcome(first, second),
{
}

/// For a command of the argument-required set that exists, an empty
/// argument string always gives a missing-argument error, and any non-empty
/// one succeeds.
pub proof fn lemma_required_argument_gate(
    commands: Map<Seq<char>, CommandModel>,
    name: Seq<char>,
    args: Seq<char>,
    root: Seq<char>,
    r: Result<String, CommandError>,
)
    requires
        requires_argument(name),
        commands.contains_key(name),
        dispatch_outcome(commands, name, args, root, r),
    ensures
        args.len() == 0 ==> (r matches Err(e) && is_missing_argument(e, name)),
        args.len() > 0 ==> r is Ok,
{
}

/// A name that no command has always gives a not-found error, whatever the
/// arguments.
pub proof fn lemma_unknown_command(
    commands: Map<Seq<char>, CommandModel>,
    name: Seq<char>,
    args: Seq<char>,
    root: Seq<char>,
    r: Result<String, CommandError>,
)
    requires
        !commands.contains_key(name),
        dispatch_outcome(commands, name, args, root, r),
    ensures
        r matches Err(e) && is_not_found(e, name),
{
}

} // verus!
