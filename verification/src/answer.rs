//! A single answer on the board.

use std::path::PathBuf;
use vstd::prelude::*;

verus! {

/// `std::path::PathBuf`, carried through as an opaque value: the library
/// stores and moves asset paths and never looks inside one.
#[verifier::external_type_specification]
#[verifier::external_body]
pub struct ExPathBuf(PathBuf);

/// `<PathBuf as Clone>::clone`, which the derived `Clone` of an answer calls
/// for its asset path: the copy is the same path.
pub assume_specification[ <PathBuf as Clone>::clone ](path: &PathBuf) -> (copy: PathBuf)
    ensures
        copy == *path,
;

/// One answer of a category. Every kind carries the question that is looked
/// for and the Double Jeopardy marker; the kinds differ in what is shown to
/// the players.
#[derive(Debug, Clone)]
pub enum JeopardyAnswer {
    Text { answer: String, question: String, double_jeopardy: bool },
    Image { question: String, image: PathBuf, double_jeopardy: bool },
    Audio { question: String, audio: PathBuf, double_jeopardy: bool },
    Video { question: String, video: PathBuf, double_jeopardy: bool },
}

impl JeopardyAnswer {
    /// Whether the answer is marked as a Double Jeopardy.
    pub open spec fn flagged(self) -> bool {
        match self {
            JeopardyAnswer::Text { double_jeopardy, .. } => double_jeopardy,
            JeopardyAnswer::Image { double_jeopardy, .. } => double_jeopardy,
            JeopardyAnswer::Audio { double_jeopardy, .. } => double_jeopardy,
            JeopardyAnswer::Video { double_jeopardy, .. } => double_jeopardy,
        }
    }

    /// The same answer, marked as a Double Jeopardy: kind, question and
    /// payload are kept.
    pub open spec fn with_flag(self) -> JeopardyAnswer {
        match self {
            JeopardyAnswer::Text { answer, question, .. } => JeopardyAnswer::Text {
                answer,
                question,
                double_jeopardy: true,
            },
            JeopardyAnswer::Image { question, image, .. } => JeopardyAnswer::Image {
                question,
                image,
                double_jeopardy: true,
            },
            JeopardyAnswer::Audio { question, audio, .. } => JeopardyAnswer::Audio {
                question,
                audio,
                double_jeopardy: true,
            },
            JeopardyAnswer::Video { question, video, .. } => JeopardyAnswer::Video {
                question,
                video,
                double_jeopardy: true,
            },
        }
    }

    /// Validity of an answer. No kind constrains its content.
    pub open spec fn valid(self) -> bool {
        match self {
            JeopardyAnswer::Text { .. } => true,
            JeopardyAnswer::Image { .. } => true,
            JeopardyAnswer::Audio { .. } => true,
            JeopardyAnswer::Video { .. } => true,
        }
    }

    /// Check whether an answer is valid.
    pub fn is_valid(&self) -> (ok: bool)
        ensures
            ok == self.valid(),
    {
        match self {
            JeopardyAnswer::Text { .. } => true,
            JeopardyAnswer::Image { .. } => true,
            JeopardyAnswer::Audio { .. } => true,
            JeopardyAnswer::Video { .. } => true,
        }
    }

    /// Whether the answer is a Double Jeopardy.
    pub fn is_double_jeopardy(&self) -> (flag: bool)
        ensures
            flag == self.flagged(),
    {
        match self {
            JeopardyAnswer::Text { double_jeopardy, .. } => *double_jeopardy,
            JeopardyAnswer::Image { double_jeopardy, .. } => *double_jeopardy,
            JeopardyAnswer::Audio { double_jeopardy, .. } => *double_jeopardy,
            JeopardyAnswer::Video { double_jeopardy, .. } => *double_jeopardy,
        }
    }

    /// Make the answer a Double Jeopardy, whatever its kind.
    pub fn mark(&mut self)
        ensures
            *final(self) == old(self).with_flag(),
    {
        match self {
            JeopardyAnswer::Text { double_jeopardy, .. } => *double_jeopardy = true,
            JeopardyAnswer::Image { double_jeopardy, .. } => *double_jeopardy = true,
            JeopardyAnswer::Audio { double_jeopardy, .. } => *double_jeopardy = true,
            JeopardyAnswer::Video { double_jeopardy, .. } => *double_jeopardy = true,
        }
    }
}

/// Every answer is valid, whatever its kind, its content and its flag.
pub proof fn lemma_answer_is_always_valid(answer: JeopardyAnswer)
    ensures
        answer.valid(),
        answer.with_flag().valid(),
{
}

} // verus!
