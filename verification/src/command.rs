//! Commands, and how a line of input is read as one.

use vstd::prelude::*;
use vstd::slice::slice_subrange;
use crate::number::{parse_index, parsed_index};
use crate::text::{join_with_spaces, joined, split_whitespace, text_equals, tokens};

verus! {

/// What the user asks for.
#[derive(Debug, Clone, PartialEq, Eq)]
pub enum Command {
    /// Append an item with this description.
    Add(String),
    /// Delete the item at this zero-based position.
    Remove(usize),
    /// List all items.
    Show,
    /// Explain the commands.
    Help,
    /// Leave.
    Quit,
    /// The line was not understood; there is nothing to do.
    Invalid,
}

/// A [`Command`] as a mathematical value.
pub enum CommandView {
    Add(Seq<char>),
    Remove(usize),
    Show,
    Help,
    Quit,
    Invalid,
}

impl View for Command {
    type V = CommandView;

    open spec fn view(&self) -> CommandView {
        match self {
            Command::Add(description) => CommandView::Add(description@),
            Command::Remove(index) => CommandView::Remove(*index),
            Command::Show => CommandView::Show,
            Command::Help => CommandView::Help,
            Command::Quit => CommandView::Quit,
            Command::Invalid => CommandView::Invalid,
        }
    }
}

/// The outcome of reading one line: the command, and the complaint to show
/// the user when the line was malformed.
#[derive(Debug, Clone, PartialEq, Eq)]
pub struct Parsed {
    pub command: Command,
    pub diagnostic: Option<String>,
}

/// A [`Parsed`] as a mathematical value.
pub struct ParsedView {
    pub command: CommandView,
    pub diagnostic: Option<Seq<char>>,
}

impl View for Parsed {
    type V = ParsedView;

    open spec fn view(&self) -> ParsedView {
        ParsedView {
            command: self.command@,
            diagnostic: match self.diagnostic {
                Some(message) => Some(message@),
                None => None,
            },
        }
    }
}

/// The complaint about a line without any word.
pub const BLANK_LINE: &'static str = "Error parsing command from args";

/// The complaint about an argument of `remove` that is no index.
pub open spec fn bad_index_message(argument: Seq<char>) -> Seq<char> {
    "Problem parsing \""@ + argument + "\" as number"@
}

/// The complaint about a keyword that names no command.
pub open spec fn unknown_command_message(keyword: Seq<char>) -> Seq<char> {
    "No such command "@ + keyword
}

/// The keyword of a line: its first word, if it has one.
pub open spec fn keyword(line: Seq<char>) -> Option<Seq<char>> {
    if tokens(line).len() == 0 {
        None
    } else {
        Some(tokens(line)[0])
    }
}

/// The argument of a line: the words after the keyword, one space apart.
pub open spec fn argument(line: Seq<char>) -> Seq<char>
    recommends
        keyword(line) is Some,
{
    joined(tokens(line).skip(1))
}

/// A malformed line: no command, and the reason why.
pub open spec fn rejected(message: Seq<char>) -> ParsedView {
    ParsedView { command: CommandView::Invalid, diagnostic: Some(message) }
}

/// A well-formed line.
pub open spec fn accepted(command: CommandView) -> ParsedView {
    ParsedView { command, diagnostic: None }
}

/// How a line of input is read.
///
/// The keyword is matched exactly and in lower case.  `help`, `show` and
/// `quit` ignore their argument, `add` takes it as it is, and `remove` wants
/// an index.
pub open spec fn parsed_line(line: Seq<char>) -> ParsedView {
    match keyword(line) {
        None => rejected(BLANK_LINE@),
        Some(word) => {
            if word == "help"@ {
                accepted(CommandView::Help)
            } else if word == "show"@ {
                accepted(CommandView::Show)
            } else if word == "quit"@ {
                accepted(CommandView::Quit)
            } else if word == "add"@ {
                accepted(CommandView::Add(argument(line)))
            } else if word == "remove"@ {
                match parsed_index(argument(line)) {
                    Some(index) => accepted(CommandView::Remove(index)),
                    None => rejected(bad_index_message(argument(line))),
                }
            } else {
                rejected(unknown_command_message(word))
            }
        },
    }
}

/// Turns a line down with the given complaint.
fn reject(message: String) -> (parsed: Parsed)
    ensures
        parsed@ == rejected(message@),
{
    Parsed { command: Command::Invalid, diagnostic: Some(message) }
}

/// Takes a line as the given command.
fn accept(command: Command) -> (parsed: Parsed)
    ensures
        parsed@ == accepted(command@),
{
    Parsed { command, diagnostic: None }
}

/// Reads one line of input.
///
/// Every line gives a command; a malformed one gives [`Command::Invalid`]
/// together with a diagnostic.
pub fn parse_command(line: &str) -> (parsed: Parsed)
    ensures
        parsed@ == parsed_line(line@),
{
    let words = split_whitespace(line);
    if words.len() == 0 {
        return reject(BLANK_LINE.to_owned());
    }
    let name = words[0].as_str();
    let behind = slice_subrange(words.as_slice(), 1, words.len());
    assert(behind.deep_view() == words.deep_view().skip(1));
    let rest = join_with_spaces(behind);
    if text_equals(name, "help") {
        accept(Command::Help)
    } else if text_equals(name, "show") {
        accept(Command::Show)
    } else if text_equals(name, "quit") {
        accept(Command::Quit)
    } else if text_equals(name, "add") {
        accept(Command::Add(rest))
    } else if text_equals(name, "remove") {
        match parse_index(rest.as_str()) {
            Some(index) => accept(Command::Remove(index)),
            None => {
                let mut message = "Problem parsing \"".to_owned();
                message.append(rest.as_str());
                message.append("\" as number");
                reject(message)
            },
        }
    } else {
        let mut message = "No such command ".to_owned();
        message.append(name);
        reject(message)
    }
}

} // verus!
