use todo_list::command::Command;
use todo_list::list::{
    Item, Reply, TodoList, HELP_TEXT, LISTING_HEADER, NOT_VALID, OUT_OF_BOUNDS, PROMPT, WELCOME,
};

const HELP: &str = "+---------------------------+
List of commands and syntax:
    add <list item>
        (adds a new item to the todo list)
    remove <# index>
        (removes the item at # index)
    show
        (prints contents of list)
    help
        (prints this list of commands and syntax)
    quit
        (exits the program)
+---------------------------+";

fn list_of(descriptions: &[&str]) -> TodoList {
    let mut list = TodoList::new();
    for description in descriptions {
        list.add(description.to_string());
    }
    list
}

fn descriptions(list: &TodoList) -> Vec<String> {
    let mut found: Vec<String> = Vec::new();
    let mut index: usize = 0;
    while let Some(item) = list.get(index) {
        found.push(item.description.clone());
        index += 1;
    }
    found
}

fn says(output: &[&str]) -> Reply {
    Reply { output: output.iter().map(|text| text.to_string()).collect(), quit: false }
}

#[test]
fn a_new_list_is_empty() {
    let list = TodoList::new();
    assert_eq!(list.len(), 0);
    assert!(list.is_empty());
    assert_eq!(list.get(0), None);
    assert_eq!(list.show(), vec!["Todo List:".to_string()]);
}

#[test]
fn add_appends_at_the_end() {
    let mut list = TodoList::new();
    list.add("first".to_string());
    assert_eq!(list.len(), 1);
    assert!(!list.is_empty());
    list.add("second".to_string());
    list.add("third".to_string());
    assert_eq!(list.len(), 3);
    assert_eq!(descriptions(&list), vec!["first", "second", "third"]);
}

#[test]
fn add_keeps_duplicates_and_empty_descriptions() {
    let list = list_of(&["same", "", "same", ""]);
    assert_eq!(list.len(), 4);
    assert_eq!(descriptions(&list), vec!["same", "", "same", ""]);
}

#[test]
fn get_finds_items_by_position() {
    let list = list_of(&["a", "b"]);
    assert_eq!(list.get(0), Some(&Item { description: "a".to_string() }));
    assert_eq!(list.get(1), Some(&Item { description: "b".to_string() }));
    assert_eq!(list.get(2), None);
    assert_eq!(list.get(usize::MAX), None);
}

#[test]
fn remove_deletes_one_item_and_shifts_the_rest_down() {
    let mut list = list_of(&["a", "b", "c", "d"]);
    assert_eq!(list.remove(1), Some(Item { description: "b".to_string() }));
    assert_eq!(descriptions(&list), vec!["a", "c", "d"]);
    assert_eq!(list.remove(0), Some(Item { description: "a".to_string() }));
    assert_eq!(descriptions(&list), vec!["c", "d"]);
    assert_eq!(list.remove(1), Some(Item { description: "d".to_string() }));
    assert_eq!(descriptions(&list), vec!["c"]);
    assert_eq!(list.remove(0), Some(Item { description: "c".to_string() }));
    assert!(list.is_empty());
}

#[test]
fn remove_past_the_end_changes_nothing() {
    let mut list = list_of(&["a", "b"]);
    assert_eq!(list.remove(2), None);
    assert_eq!(list.remove(3), None);
    assert_eq!(list.remove(usize::MAX), None);
    assert_eq!(descriptions(&list), vec!["a", "b"]);
}

#[test]
fn remove_from_an_empty_list_changes_nothing() {
    let mut list = TodoList::new();
    assert_eq!(list.remove(0), None);
    assert_eq!(list.len(), 0);
}

#[test]
fn show_numbers_the_items_from_zero() {
    let list = list_of(&["buy milk", "write spec", "sleep"]);
    assert_eq!(list.show(), vec!["Todo List:", "0> buy milk", "1> write spec", "2> sleep"]);
}

#[test]
fn show_lists_an_empty_description() {
    let list = list_of(&["", "x"]);
    assert_eq!(list.show(), vec!["Todo List:", "0> ", "1> x"]);
}

#[test]
fn show_counts_past_nine() {
    let mut list = TodoList::new();
    let mut n: usize = 0;
    while n < 12 {
        list.add(format!("item {}", n));
        n += 1;
    }
    let shown = list.show();
    assert_eq!(shown.len(), 13);
    assert_eq!(shown[0], "Todo List:");
    assert_eq!(shown[1], "0> item 0");
    assert_eq!(shown[10], "9> item 9");
    assert_eq!(shown[11], "10> item 10");
    assert_eq!(shown[12], "11> item 11");
}

#[test]
fn show_leaves_the_list_alone() {
    let list = list_of(&["a", "b"]);
    let before = list.clone();
    let _ = list.show();
    assert_eq!(list, before);
}

#[test]
fn the_fixed_texts() {
    assert_eq!(WELCOME, "Welcome to the Todo List! Type \"help\" to get started...");
    assert_eq!(PROMPT, "Enter Command > ");
    assert_eq!(HELP_TEXT, HELP);
    assert_eq!(LISTING_HEADER, "Todo List:");
    assert_eq!(OUT_OF_BOUNDS, "Removal index out of bounds!");
    assert_eq!(NOT_VALID, "Not a valid command!");
}

#[test]
fn apply_add_appends_and_prints_nothing() {
    let mut list = list_of(&["a"]);
    assert_eq!(list.apply(Command::Add("b".to_string())), says(&[]));
    assert_eq!(descriptions(&list), vec!["a", "b"]);
}

#[test]
fn apply_remove_in_bounds_deletes_and_prints_nothing() {
    let mut list = list_of(&["a", "b", "c"]);
    assert_eq!(list.apply(Command::Remove(1)), says(&[]));
    assert_eq!(descriptions(&list), vec!["a", "c"]);
}

#[test]
fn apply_remove_out_of_bounds_complains() {
    let mut list = list_of(&["a", "b", "c"]);
    assert_eq!(list.apply(Command::Remove(3)), says(&["Removal index out of bounds!"]));
    assert_eq!(descriptions(&list), vec!["a", "b", "c"]);
    let mut empty = TodoList::new();
    assert_eq!(empty.apply(Command::Remove(0)), says(&["Removal index out of bounds!"]));
    assert!(empty.is_empty());
}

#[test]
fn apply_show_prints_the_listing() {
    let mut list = list_of(&["a", "b"]);
    assert_eq!(list.apply(Command::Show), says(&["Todo List:", "0> a", "1> b"]));
    assert_eq!(descriptions(&list), vec!["a", "b"]);
    let mut empty = TodoList::new();
    assert_eq!(empty.apply(Command::Show), says(&["Todo List:"]));
}

#[test]
fn apply_help_prints_the_help_text() {
    let mut list = list_of(&["a"]);
    assert_eq!(list.apply(Command::Help), says(&[HELP]));
    assert_eq!(descriptions(&list), vec!["a"]);
}

#[test]
fn apply_invalid_prints_the_remark() {
    let mut list = list_of(&["a"]);
    assert_eq!(list.apply(Command::Invalid), says(&["Not a valid command!"]));
    assert_eq!(descriptions(&list), vec!["a"]);
}

#[test]
fn apply_quit_stops_and_prints_nothing() {
    let mut list = list_of(&["a"]);
    assert_eq!(list.apply(Command::Quit), Reply { output: Vec::new(), quit: true });
    assert_eq!(descriptions(&list), vec!["a"]);
}

#[test]
fn only_quit_stops() {
    let commands = [
        Command::Add("x".to_string()),
        Command::Remove(0),
        Command::Remove(9),
        Command::Show,
        Command::Help,
        Command::Invalid,
    ];
    let mut list = list_of(&["a", "b"]);
    for command in commands {
        assert!(!list.apply(command).quit);
    }
    assert!(list.apply(Command::Quit).quit);
}

#[test]
fn the_default_list_is_empty() {
    let list = TodoList::default();
    assert!(list.is_empty());
    assert_eq!(list, TodoList::new());
}
