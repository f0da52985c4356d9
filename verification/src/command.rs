//! The commands of the tool and how they end.

use crate::game::JeopardyGame;
use vstd::prelude::*;

verus! {

/// `String::push_str`: appends the given string slice onto the end of the
/// string.
pub assume_specification[ String::push_str ](text: &mut String, tail: &str)
    ensures
        final(text)@ == old(text)@ + tail@,
;

/// The one kind of failure a command reports: a message.
#[derive(Debug)]
pub enum ToolError {
    Other(String),
}

impl ToolError {
    /// The line that reports the error.
    pub open spec fn text(self) -> Seq<char> {
        match self {
            ToolError::Other(message) => "Some other error: "@ + message@,
        }
    }

    /// The line that reports the error: a fixed lead, then the message.
    pub fn message(&self) -> (line: String)
        ensures
            line@ == self.text(),
    {
        match self {
            ToolError::Other(message) => {
                let mut line = "Some other error: ".to_owned();
                line.push_str(message.as_str());
                line
            },
        }
    }
}

/// What a command hands back: a value, or the error it failed with.
pub enum ToolResult<T> {
    Success(T),
    Failure(ToolError),
}

impl<T> ToolResult<T> {
    /// What is to be reported when the command ends: nothing after a
    /// success, the error's line after a failure.
    pub open spec fn failure_text(self) -> Option<Seq<char>> {
        match self {
            ToolResult::Success(_) => None,
            ToolResult::Failure(error) => Some(error.text()),
        }
    }

    /// The line to report when the command ends. `None` stands for success;
    /// after a failure the line of the error is handed out.
    pub fn failure(&self) -> (line: Option<String>)
        ensures
            line is Some <==> self is Failure,
            line matches Some(text) ==> self.failure_text() == Some(text@),
    {
        match self {
            ToolResult::Success(_) => None,
            ToolResult::Failure(error) => Some(error.message()),
        }
    }
}

/// Show the available categories. So far it sets up an empty game, checks
/// it and draws its Double Jeopardy answers, and then fails, whatever the
/// prefix: the error is `Other` with the message "Some error".
#[allow(unused_variables)]
pub fn show(prefix: Option<String>) -> (result: ToolResult<()>)
    ensures
        result matches ToolResult::Failure(ToolError::Other(message)) && message@ == "Some error"@,
{
    let mut jeopardy_game = JeopardyGame::new();
    let _valid = jeopardy_game.is_valid();
    jeopardy_game.double_jeopardy();
    ToolResult::Failure(ToolError::Other("Some error".to_owned()))
}

/// A command of the tool, with what was given to it.
#[derive(Debug)]
pub enum Command {
    /// Show the available categories; the prefix selects a subset of the
    /// games.
    Show { prefix: Option<String> },
    /// Create a new game.
    Create,
    /// Convert a category of the old format to the new one.
    Convert,
}

/// Run a command. `Show` ends as [`show`] does. `Create` and `Convert` are
/// not there yet and fail with a message that says so.
pub fn run(command: Command) -> (result: ToolResult<()>)
    ensures
        result matches ToolResult::Failure(ToolError::Other(message)) && message@ == (match command {
            Command::Show { .. } => "Some error"@,
            Command::Create => "not yet implemented: subcommand create"@,
            Command::Convert => "not yet implemented: subcommand convert"@,
        }),
{
    match command {
        Command::Show { prefix } => show(prefix),
        Command::Create => ToolResult::Failure(
            ToolError::Other("not yet implemented: subcommand create".to_owned()),
        ),
        Command::Convert => ToolResult::Failure(
            ToolError::Other("not yet implemented: subcommand convert".to_owned()),
        ),
    }
}

} // verus!
