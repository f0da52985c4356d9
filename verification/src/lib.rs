//! Authoring and validation of trivia game boards: a game is five categories
//! of five answers each, and two answers in each of two categories can be
//! drawn at random as Double Jeopardy.

pub mod answer;
pub mod category;
pub mod command;
pub mod draw;
pub mod game;

pub use answer::JeopardyAnswer;
pub use category::JeopardyCategory;
pub use command::{run, show, Command, ToolError, ToolResult};
pub use game::JeopardyGame;
