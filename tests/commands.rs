use spec_kit::command::load_commands;
use spec_kit::error::CommandError;
use spec_kit::handler::handle_command;
use spec_kit::text::join_args;
use spec_kit::SpecKitExtension;

fn bundled() -> Vec<(String, String)> {
    vec![
        (
            "specify".to_string(),
            "description = \"Create a new feature specification.\"\nprompt = \"Generate a spec for: $ARGUMENTS\"\n".to_string(),
        ),
        (
            "clarify".to_string(),
            "description = \"Clarify the spec.\"\nprompt = \"Identify underspecified areas in $PROJECT_ROOT\"\n".to_string(),
        ),
        (
            "constitution".to_string(),
            "description = \"Set principles.\"\nprompt = \"Principles: $ARGUMENTS\"\n".to_string(),
        ),
        (
            "echo".to_string(),
            "description = \"Echo.\"\nprompt = \"$ARGUMENTS\"\n".to_string(),
        ),
        (
            "both".to_string(),
            "description = \"Both.\"\nprompt = \"[$ARGUMENTS] at $PROJECT_ROOT, again [$ARGUMENTS] at $PROJECT_ROOT\"\n".to_string(),
        ),
    ]
}

fn extension() -> SpecKitExtension {
    SpecKitExtension::new(bundled()).expect("the definitions load")
}

fn tokens(s: &str) -> Vec<String> {
    s.split_whitespace().map(String::from).collect()
}

#[test]
fn test_specify_command_with_argument() {
    let extension = extension();
    let user_input = "a new login feature";
    let args = tokens(user_input);

    let output = extension
        .run_slash_command("specify", &args, Some("/tmp"))
        .expect("Command execution should succeed");

    assert!(
        output.contains(user_input),
        "The output prompt for /specify did not contain the user's arguments."
    );
    assert_eq!(output, "Generate a spec for: a new login feature");
}

#[test]
fn test_command_without_argument() {
    let extension = extension();
    let args = Vec::new();

    let output = extension
        .run_slash_command("clarify", &args, Some("/repo"))
        .expect("Command execution should succeed");

    assert!(
        output.contains("Identify underspecified areas"),
        "The output prompt for /clarify seems incorrect."
    );
    assert_eq!(output, "Identify underspecified areas in /repo");
}

#[test]
fn test_command_missing_required_argument() {
    let extension = extension();
    let args = Vec::new();

    let result = extension.run_slash_command("specify", &args, Some("/repo"));

    assert!(
        result.is_err(),
        "Expected command to fail, but it succeeded."
    );
    let error_message = result.unwrap_err();
    assert!(
        error_message.contains("Missing argument for command: /specify"),
        "The error message for missing argument is incorrect."
    );
}

#[test]
fn test_unknown_command() {
    let extension = extension();
    let args = Vec::new();

    let result = extension.run_slash_command("nonexistent", &args, Some("/repo"));

    assert!(
        result.is_err(),
        "Expected command to fail, but it succeeded."
    );
    let error_message = result.unwrap_err();
    assert!(
        error_message.contains("Command not found: /nonexistent"),
        "The error message for an unknown command is incorrect."
    );
}

#[test]
fn no_worktree_is_refused() {
    let extension = extension();
    let result = extension.run_slash_command("clarify", &Vec::new(), None);
    assert_eq!(result, Err("This command requires an active worktree.".to_string()));
}

#[test]
fn dispatch_literal_examples() {
    let commands = load_commands(bundled()).unwrap();
    assert_eq!(
        handle_command("specify", "a new login feature", &commands, "/tmp"),
        Ok("Generate a spec for: a new login feature".to_string())
    );
    assert_eq!(
        handle_command("clarify", "", &commands, "/repo"),
        Ok("Identify underspecified areas in /repo".to_string())
    );
    assert_eq!(
        handle_command("specify", "", &commands, "/repo"),
        Err(CommandError::MissingArgument("specify".to_string()))
    );
    assert_eq!(
        handle_command("nonexistent", "", &commands, "/repo"),
        Err(CommandError::CommandNotFound("nonexistent".to_string()))
    );
}

#[test]
fn argument_placeholder_round_trip() {
    let commands = load_commands(bundled()).unwrap();
    for a in ["x", "a new login feature", "$ARGUMENTS", "  spaced  ", "ünïcødé ✓"] {
        assert_eq!(handle_command("echo", a, &commands, "/root"), Ok(a.to_string()));
    }
}

#[test]
fn root_placeholder_inside_argument_is_substituted_too() {
    let commands = load_commands(bundled()).unwrap();
    assert_eq!(
        handle_command("echo", "$PROJECT_ROOT", &commands, "/x"),
        Ok("/x".to_string())
    );
}

#[test]
fn repeated_dispatch_gives_the_same_result() {
    let commands = load_commands(bundled()).unwrap();
    let first = handle_command("both", "go", &commands, "/w");
    let second = handle_command("both", "go", &commands, "/w");
    assert_eq!(first, second);
    let e1 = handle_command("nope", "go", &commands, "/w");
    let e2 = handle_command("nope", "go", &commands, "/w");
    assert_eq!(e1, e2);
}

#[test]
fn every_occurrence_is_replaced() {
    let commands = load_commands(bundled()).unwrap();
    assert_eq!(
        handle_command("both", "go", &commands, "/w"),
        Ok("[go] at /w, again [go] at /w".to_string())
    );
}

#[test]
fn empty_argument_for_optional_command_becomes_empty_text() {
    let commands = load_commands(bundled()).unwrap();
    assert_eq!(
        handle_command("both", "", &commands, "/w"),
        Ok("[] at /w, again [] at /w".to_string())
    );
}

#[test]
fn required_argument_gate_for_constitution() {
    let commands = load_commands(bundled()).unwrap();
    assert_eq!(
        handle_command("constitution", "", &commands, "/w"),
        Err(CommandError::MissingArgument("constitution".to_string()))
    );
    assert_eq!(
        handle_command("constitution", "be kind", &commands, "/w"),
        Ok("Principles: be kind".to_string())
    );
    assert_eq!(
        handle_command("constitution", " ", &commands, "/w"),
        Ok("Principles:  ".to_string())
    );
}

#[test]
fn unknown_command_whatever_the_arguments() {
    let commands = load_commands(bundled()).unwrap();
    for a in ["", "x", "$ARGUMENTS"] {
        assert_eq!(
            handle_command("Specify", a, &commands, "/w"),
            Err(CommandError::CommandNotFound("Specify".to_string()))
        );
    }
}

#[test]
fn required_name_absent_from_the_map_is_not_found() {
    let commands = load_commands(vec![(
        "plan".to_string(),
        "description = \"d\"\nprompt = \"p\"\n".to_string(),
    )])
    .unwrap();
    assert_eq!(
        handle_command("specify", "", &commands, "/w"),
        Err(CommandError::CommandNotFound("specify".to_string()))
    );
}

#[test]
fn error_messages() {
    assert_eq!(CommandError::CommandNotFound("x".to_string()).message(), "Command not found: /x");
    assert_eq!(CommandError::MissingArgument("x".to_string()).message(), "Missing argument for command: /x");
    assert_eq!(CommandError::PrerequisiteFileNotFound("p".to_string()).message(), "Prerequisite file not found: p");
    assert_eq!(CommandError::TomlParseError("d".to_string()).message(), "Failed to parse TOML file: d");
    assert_eq!(CommandError::IoError("d".to_string()).message(), "I/O Error: d");
}

#[test]
fn arguments_are_joined_with_single_spaces() {
    assert_eq!(join_args(&Vec::new()), "");
    assert_eq!(join_args(&vec!["one".to_string()]), "one");
    assert_eq!(join_args(&tokens("a new  login feature")), "a new login feature");
}

#[test]
fn extension_load_fails_on_a_bad_definition() {
    let mut files = bundled();
    files.push(("invalid".to_string(), "description = \"This command is incomplete.\"\n".to_string()));
    assert!(matches!(SpecKitExtension::new(files), Err(CommandError::TomlParseError(_))));
}
