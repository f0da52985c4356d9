use jeopardytool::{run, show, Command, ToolError, ToolResult};

fn message_of(result: &ToolResult<()>) -> String {
    match result {
        ToolResult::Failure(ToolError::Other(message)) => message.clone(),
        ToolResult::Success(()) => panic!("the command did not fail"),
    }
}

#[test]
fn error_line_leads_with_its_kind() {
    assert_eq!(ToolError::Other("boom".to_string()).message(), "Some other error: boom");
    assert_eq!(ToolError::Other(String::new()).message(), "Some other error: ");
}

#[test]
fn success_reports_nothing() {
    assert_eq!(ToolResult::Success(7u8).failure(), None);
    assert_eq!(ToolResult::Success(()).failure(), None);
}

#[test]
fn failure_reports_the_error_line() {
    let result: ToolResult<()> = ToolResult::Failure(ToolError::Other("no such file".to_string()));
    assert_eq!(result.failure(), Some("Some other error: no such file".to_string()));
}

#[test]
fn show_fails_whatever_the_prefix() {
    assert_eq!(message_of(&show(None)), "Some error");
    assert_eq!(message_of(&show(Some(String::new()))), "Some error");
    assert_eq!(message_of(&show(Some("history".to_string()))), "Some error");
    assert_eq!(show(None).failure(), Some("Some other error: Some error".to_string()));
}

#[test]
fn run_show_ends_as_show() {
    assert_eq!(message_of(&run(Command::Show { prefix: None })), "Some error");
    assert_eq!(message_of(&run(Command::Show { prefix: Some("a".to_string()) })), "Some error");
}

#[test]
fn run_reports_the_commands_that_are_not_there_yet() {
    assert_eq!(message_of(&run(Command::Create)), "not yet implemented: subcommand create");
    assert_eq!(message_of(&run(Command::Convert)), "not yet implemented: subcommand convert");
}
