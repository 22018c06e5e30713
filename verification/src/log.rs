//! What the program tells the person who runs it.
use vstd::prelude::*;

verus! {

/// A line for the person who runs the program: on the error output or on the
/// ordinary one.
#[derive(Debug, PartialEq)]
pub struct LogLine {
    pub text: String,
    pub is_error: bool,
}

/// A line and where it goes.
pub struct LineView {
    pub text: Seq<char>,
    pub is_error: bool,
}

impl View for LogLine {
    type V = LineView;

    open spec fn view(&self) -> LineView {
        LineView { text: self.text@, is_error: self.is_error }
    }
}

/// A line that starts with the name of the part of the program that it is about.
pub open spec fn line(part: Seq<char>, text: Seq<char>, is_error: bool) -> LineView {
    LineView { text: part + ": "@ + text, is_error }
}

impl LogLine {
    /// A line about a part of the program.
    pub fn about(part: &str, text: &str, is_error: bool) -> (result: LogLine)
        ensures
            result@ == line(part@, text@, is_error),
    {
        let mut whole = part.to_owned();
        whole.append(": ");
        whole.append(text);
        LogLine { text: whole, is_error }
    }

    /// A line about a part of the program that ends with some detail.
    pub fn with_detail(part: &str, text: &str, detail: &str, is_error: bool) -> (result: LogLine)
        ensures
            result@ == line(part@, text@ + detail@, is_error),
    {
        let mut whole = text.to_owned();
        whole.append(detail);
        LogLine::about(part, whole.as_str(), is_error)
    }
}

/// How much the program traces.
#[derive(Clone, Copy, Debug, PartialEq, Eq, Structural)]
pub enum LogLevel {
    Info,
    Debug,
}

/// How much to trace, by how often the user asked for more.
pub open spec fn level_for(verbosity: u64) -> Option<LogLevel> {
    if verbosity == 0 {
        None
    } else if verbosity == 1 {
        Some(LogLevel::Info)
    } else {
        Some(LogLevel::Debug)
    }
}

/// How much to trace, by how often the user asked for more: never, and nothing is
/// traced; once, and the main events are; more often, and everything is.
pub fn log_level(verbosity: u64) -> (level: Option<LogLevel>)
    ensures
        level == level_for(verbosity),
        level == (if verbosity == 0 {
            None
        } else if verbosity == 1 {
            Some(LogLevel::Info)
        } else {
            Some(LogLevel::Debug)
        }),
{
    if verbosity > 0 {
        if verbosity > 1 {
            Some(LogLevel::Debug)
        } else {
            Some(LogLevel::Info)
        }
    } else {
        None
    }
}

/// A line tells the part of the program, and behind it the text as it is; it goes
/// where it is meant to go.
pub proof fn law_line_tells_part_and_text(part: Seq<char>, text: Seq<char>, is_error: bool)
    ensures
        line(part, text, is_error).text == part + ": "@ + text,
        line(part, text, is_error).is_error == is_error,
{
}

/// Nothing is traced exactly if the user did not ask for it, and everything exactly if
/// the user asked more than once.
pub proof fn law_asking_again_traces_more(verbosity: u64)
    ensures
        level_for(verbosity) is None <==> verbosity == 0,
        level_for(verbosity) == Some(LogLevel::Debug) <==> verbosity >= 2,
{
}

} // verus!
