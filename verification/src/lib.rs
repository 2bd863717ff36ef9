//! An in-memory to-do list driven by one-line text commands.
//!
//! A line of input is split into words ([`text`]), read as a
//! [`command::Command`] ([`command`], with [`number`] for the index of
//! `remove`) and carried out on a [`list::TodoList`] ([`list`]).  [`session`]
//! states what holds of every list and every line.
//!
//! Nothing here reads or prints: every function hands back the text that a
//! front end is expected to show.

pub mod command;
pub mod list;
pub mod number;
pub mod session;
pub mod text;
