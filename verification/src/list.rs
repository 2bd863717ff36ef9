//! The to-do list, and what each command does to it.

use vstd::prelude::*;
use crate::command::{parse_command, parsed_line, Command, CommandView};
use crate::number::{decimal, decimal_string};

verus! {

/// One entry of the list.  It has no identity beyond its position.
#[derive(Debug, Clone, PartialEq, Eq)]
pub struct Item {
    pub description: String,
}

impl View for Item {
    type V = Seq<char>;

    open spec fn view(&self) -> Seq<char> {
        self.description@
    }
}

/// The items in the order in which they were added.
///
/// Its view is the sequence of the descriptions.
#[derive(Debug, Clone, PartialEq, Eq)]
pub struct TodoList {
    items: Vec<Item>,
}

impl View for TodoList {
    type V = Seq<Seq<char>>;

    closed spec fn view(&self) -> Seq<Seq<char>> {
        Seq::new(self.items@.len(), |i: int| self.items@[i]@)
    }
}

/// What the front end does after a command: the pieces of text to print,
/// each followed by a line break, and whether to stop.
#[derive(Debug, Clone, PartialEq, Eq)]
pub struct Reply {
    pub output: Vec<String>,
    pub quit: bool,
}

/// A [`Reply`] as a mathematical value.
pub struct ReplyView {
    pub output: Seq<Seq<char>>,
    pub quit: bool,
}

impl View for Reply {
    type V = ReplyView;

    open spec fn view(&self) -> ReplyView {
        ReplyView { output: self.output.deep_view(), quit: self.quit }
    }
}

/// A list after a command, with the reply to that command.
pub struct Step {
    pub list: Seq<Seq<char>>,
    pub reply: ReplyView,
}

/// The greeting shown once at start.
pub const WELCOME: &'static str = "Welcome to the Todo List! Type \"help\" to get started...";

/// The prompt shown before each line is read.
pub const PROMPT: &'static str = "Enter Command > ";

/// The explanation of the commands.
pub const HELP_TEXT: &'static str = "+---------------------------+
List of commands and syntax:
    add <list item>
        (adds a new item to the todo list)
    remove <# index>
        (removes the item at # index)
    show
        (prints contents of list)
    help
        (prints this list of commands and syntax)
    quit
        (exits the program)
+---------------------------+";

/// The first line of a listing.
pub const LISTING_HEADER: &'static str = "Todo List:";

/// The complaint about a position that holds no item.
pub const OUT_OF_BOUNDS: &'static str = "Removal index out of bounds!";

/// The remark that follows every line that was not understood.
pub const NOT_VALID: &'static str = "Not a valid command!";

/// The line that shows the item at `index`.
pub open spec fn entry(index: nat, description: Seq<char>) -> Seq<char> {
    decimal(index) + "> "@ + description
}

/// The lines that show a list: the header, then one entry per item in
/// ascending position.
pub open spec fn listing(list: Seq<Seq<char>>) -> Seq<Seq<char>> {
    seq![LISTING_HEADER@] + Seq::new(list.len(), |i: int| entry(i as nat, list[i]))
}

/// A reply that prints `output` and goes on.
pub open spec fn say(output: Seq<Seq<char>>) -> ReplyView {
    ReplyView { output, quit: false }
}

/// What a command does to a list, and the reply to it.
pub open spec fn step(list: Seq<Seq<char>>, command: CommandView) -> Step {
    match command {
        CommandView::Add(description) => Step {
            list: list.push(description),
            reply: say(Seq::empty()),
        },
        CommandView::Remove(index) => if index < list.len() {
            Step { list: list.remove(index as int), reply: say(Seq::empty()) }
        } else {
            Step { list, reply: say(seq![OUT_OF_BOUNDS@]) }
        },
        CommandView::Show => Step { list, reply: say(listing(list)) },
        CommandView::Help => Step { list, reply: say(seq![HELP_TEXT@]) },
        CommandView::Quit => Step { list, reply: ReplyView { output: Seq::empty(), quit: true } },
        CommandView::Invalid => Step { list, reply: say(seq![NOT_VALID@]) },
    }
}

/// What a line of input does to a list: the line is read as a command, the
/// command is applied, and a complaint of the reader comes before the lines
/// of the command.
pub open spec fn step_line(list: Seq<Seq<char>>, line: Seq<char>) -> Step {
    let parsed = parsed_line(line);
    let after = step(list, parsed.command);
    let complaint = match parsed.diagnostic {
        Some(message) => seq![message],
        None => Seq::empty(),
    };
    Step {
        list: after.list,
        reply: ReplyView { output: complaint + after.reply.output, quit: after.reply.quit },
    }
}

/// Output of a single piece of text.
fn one_line(text: &str) -> (lines: Vec<String>)
    ensures
        lines.deep_view() == seq![text@],
{
    let mut lines: Vec<String> = Vec::new();
    lines.push(text.to_owned());
    lines
}

/// No output.
fn no_lines() -> (lines: Vec<String>)
    ensures
        lines.deep_view() == Seq::<Seq<char>>::empty(),
{
    let lines: Vec<String> = Vec::new();
    lines
}

impl Default for TodoList {
    /// The empty list.
    fn default() -> (list: TodoList)
        ensures
            list@ == Seq::<Seq<char>>::empty(),
    {
        TodoList::new()
    }
}

impl TodoList {
    /// The empty list.
    pub fn new() -> (list: TodoList)
        ensures
            list@ == Seq::<Seq<char>>::empty(),
    {
        let list = TodoList { items: Vec::new() };
        list
    }

    /// The number of items.
    pub fn len(&self) -> (n: usize)
        ensures
            n == self@.len(),
    {
        self.items.len()
    }

    /// Tells whether the list holds no item.
    pub fn is_empty(&self) -> (b: bool)
        ensures
            b == (self@.len() == 0),
    {
        self.items.len() == 0
    }

    /// The item at `index`, if there is one.
    pub fn get(&self, index: usize) -> (item: Option<&Item>)
        ensures
            index < self@.len() ==> item is Some && item->0@ == self@[index as int],
            index >= self@.len() ==> item is None,
    {
        if index < self.items.len() {
            Some(&self.items[index])
        } else {
            None
        }
    }

    /// Appends an item with the given description.
    pub fn add(&mut self, description: String)
        ensures
            final(self)@ == old(self)@.push(description@),
    {
        self.items.push(Item { description });
    }

    /// Deletes the item at `index` and hands it back; the items behind it
    /// move down by one.  A position past the end leaves the list alone.
    pub fn remove(&mut self, index: usize) -> (removed: Option<Item>)
        ensures
            index < old(self)@.len() ==> removed is Some && removed->0@ == old(self)@[index as int]
                && final(self)@ == old(self)@.remove(index as int),
            index >= old(self)@.len() ==> removed is None && final(self)@ == old(self)@,
    {
        if index < self.items.len() {
            let item = self.items.remove(index);
            Some(item)
        } else {
            None
        }
    }

    /// The lines that show the list.
    pub fn show(&self) -> (lines: Vec<String>)
        ensures
            lines.deep_view() == listing(self@),
    {
        let mut lines = one_line(LISTING_HEADER);
        let mut i: usize = 0;
        while i < self.items.len()
            invariant
                i <= self.items.len(),
                lines.deep_view() == seq![LISTING_HEADER@] + Seq::new(
                    i as nat,
                    |k: int| entry(k as nat, self@[k]),
                ),
            decreases self.items.len() - i,
        {
            let mut line = decimal_string(i);
            line.append("> ");
            line.append(self.items[i].description.as_str());
            let ghost before = lines.deep_view();
            lines.push(line);
            assert(lines.deep_view() == before.push(line@));
            i += 1;
        }
        lines
    }

    /// Carries out a command.
    pub fn apply(&mut self, command: Command) -> (reply: Reply)
        ensures
            final(self)@ == step(old(self)@, command@).list,
            reply@ == step(old(self)@, command@).reply,
    {
        match command {
            Command::Add(description) => {
                self.add(description);
                Reply { output: no_lines(), quit: false }
            },
            Command::Remove(index) => {
                match self.remove(index) {
                    Some(_) => Reply { output: no_lines(), quit: false },
                    None => Reply { output: one_line(OUT_OF_BOUNDS), quit: false },
                }
            },
            Command::Show => Reply { output: self.show(), quit: false },
            Command::Help => Reply { output: one_line(HELP_TEXT), quit: false },
            Command::Quit => Reply { output: no_lines(), quit: true },
            Command::Invalid => Reply { output: one_line(NOT_VALID), quit: false },
        }
    }

    /// Reads a line of input and carries out its command.
    pub fn execute(&mut self, line: &str) -> (reply: Reply)
        ensures
            final(self)@ == step_line(old(self)@, line@).list,
            reply@ == step_line(old(self)@, line@).reply,
    {
        let parsed = parse_command(line);
        let mut output = no_lines();
        match parsed.diagnostic {
            Some(message) => {
                output.push(message);
                assert(output.deep_view() == seq![message@]);
            },
            None => {},
        }
        let mut reply = self.apply(parsed.command);
        let ghost complaint = output.deep_view();
        let ghost rest = reply.output.deep_view();
        output.append(&mut reply.output);
        assert(output.deep_view() == complaint + rest);
        Reply { output, quit: reply.quit }
    }
}

} // verus!
