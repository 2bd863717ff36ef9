use todo_list::list::{Reply, TodoList, HELP_TEXT};

fn says(output: &[&str]) -> Reply {
    Reply { output: output.iter().map(|text| text.to_string()).collect(), quit: false }
}

fn descriptions(list: &TodoList) -> Vec<String> {
    let mut found: Vec<String> = Vec::new();
    let mut index: usize = 0;
    while let Some(item) = list.get(index) {
        found.push(item.description.clone());
        index += 1;
    }
    found
}

#[test]
fn add_add_show_remove_show() {
    let mut list = TodoList::new();
    assert_eq!(list.execute("add buy milk\n"), says(&[]));
    assert_eq!(list.execute("add write spec\n"), says(&[]));
    assert_eq!(list.execute("show\n"), says(&["Todo List:", "0> buy milk", "1> write spec"]));
    assert_eq!(list.execute("remove 0\n"), says(&[]));
    assert_eq!(list.execute("show\n"), says(&["Todo List:", "0> write spec"]));
}

#[test]
fn items_are_shown_in_the_order_added() {
    let mut list = TodoList::new();
    let texts = ["delta", "alpha", "charlie", "bravo", "alpha"];
    for text in texts {
        assert_eq!(list.execute(&format!("add {}", text)), says(&[]));
    }
    assert_eq!(
        list.execute("show"),
        says(&["Todo List:", "0> delta", "1> alpha", "2> charlie", "3> bravo", "4> alpha"])
    );
}

#[test]
fn many_items_keep_their_order_and_numbers() {
    let mut list = TodoList::new();
    let mut n: usize = 0;
    while n < 250 {
        list.execute(&format!("add task number {}", n));
        n += 1;
    }
    let shown = list.execute("show").output;
    assert_eq!(shown.len(), 251);
    assert_eq!(shown[0], "Todo List:");
    let mut k: usize = 0;
    while k < 250 {
        assert_eq!(shown[k + 1], format!("{}> task number {}", k, k));
        k += 1;
    }
}

#[test]
fn add_without_text_is_listed() {
    let mut list = TodoList::new();
    assert_eq!(list.execute("add"), says(&[]));
    assert_eq!(list.len(), 1);
    assert_eq!(descriptions(&list), vec![""]);
    assert_eq!(list.execute("show"), says(&["Todo List:", "0> "]));
    assert_eq!(list.execute("add after"), says(&[]));
    assert_eq!(list.execute("add   \n"), says(&[]));
    assert_eq!(list.execute("show"), says(&["Todo List:", "0> ", "1> after", "2> "]));
}

#[test]
fn remove_of_a_shown_index_deletes_that_item() {
    let mut list = TodoList::new();
    for text in ["a", "b", "c", "d", "e"] {
        list.execute(&format!("add {}", text));
    }
    assert_eq!(
        list.execute("show"),
        says(&["Todo List:", "0> a", "1> b", "2> c", "3> d", "4> e"])
    );
    assert_eq!(list.execute("remove 2"), says(&[]));
    assert_eq!(list.execute("show"), says(&["Todo List:", "0> a", "1> b", "2> d", "3> e"]));
    assert_eq!(list.execute("remove 3"), says(&[]));
    assert_eq!(list.execute("show"), says(&["Todo List:", "0> a", "1> b", "2> d"]));
    assert_eq!(list.execute("remove 0"), says(&[]));
    assert_eq!(list.execute("show"), says(&["Todo List:", "0> b", "1> d"]));
}

#[test]
fn remove_at_the_length_is_out_of_bounds() {
    let mut list = TodoList::new();
    list.execute("add a");
    list.execute("add b");
    assert_eq!(list.execute("remove 2"), says(&["Removal index out of bounds!"]));
    assert_eq!(list.execute("remove 100"), says(&["Removal index out of bounds!"]));
    assert_eq!(
        list.execute(&format!("remove {}", usize::MAX)),
        says(&["Removal index out of bounds!"])
    );
    assert_eq!(descriptions(&list), vec!["a", "b"]);
}

#[test]
fn remove_on_an_empty_list_is_out_of_bounds() {
    let mut list = TodoList::new();
    assert_eq!(list.execute("remove 0"), says(&["Removal index out of bounds!"]));
    assert!(list.is_empty());
}

#[test]
fn remove_with_a_word_changes_nothing() {
    let mut list = TodoList::new();
    list.execute("add a");
    list.execute("add b");
    assert_eq!(
        list.execute("remove abc"),
        says(&["Problem parsing \"abc\" as number", "Not a valid command!"])
    );
    assert_eq!(
        list.execute("remove"),
        says(&["Problem parsing \"\" as number", "Not a valid command!"])
    );
    assert_eq!(
        list.execute("remove -1"),
        says(&["Problem parsing \"-1\" as number", "Not a valid command!"])
    );
    assert_eq!(
        list.execute("remove 0 1"),
        says(&["Problem parsing \"0 1\" as number", "Not a valid command!"])
    );
    assert_eq!(descriptions(&list), vec!["a", "b"]);
}

#[test]
fn unknown_keywords_change_nothing() {
    let mut list = TodoList::new();
    list.execute("add a");
    assert_eq!(list.execute("delete 0"), says(&["No such command delete", "Not a valid command!"]));
    assert_eq!(list.execute("ADD b"), says(&["No such command ADD", "Not a valid command!"]));
    assert_eq!(list.execute("clear"), says(&["No such command clear", "Not a valid command!"]));
    assert_eq!(descriptions(&list), vec!["a"]);
}

#[test]
fn blank_lines_change_nothing() {
    let mut list = TodoList::new();
    list.execute("add a");
    assert_eq!(
        list.execute("\n"),
        says(&["Error parsing command from args", "Not a valid command!"])
    );
    assert_eq!(list.execute(""), says(&["Error parsing command from args", "Not a valid command!"]));
    assert_eq!(descriptions(&list), vec!["a"]);
}

#[test]
fn help_is_the_same_every_time() {
    let mut list = TodoList::new();
    let first = list.execute("help");
    list.execute("add something");
    list.execute("add something else");
    let second = list.execute("help\n");
    list.execute("remove 0");
    let third = list.execute("  help  now ");
    assert_eq!(first, says(&[HELP_TEXT]));
    assert_eq!(first, second);
    assert_eq!(second, third);
    assert_eq!(first.output[0].as_bytes(), second.output[0].as_bytes());
    assert_eq!(descriptions(&list), vec!["something else"]);
}

#[test]
fn quit_stops_the_session() {
    let mut list = TodoList::new();
    list.execute("add a");
    assert_eq!(list.execute("quit"), Reply { output: Vec::new(), quit: true });
    assert_eq!(list.execute("quit\n"), Reply { output: Vec::new(), quit: true });
    assert_eq!(descriptions(&list), vec!["a"]);
}

#[test]
fn nothing_but_quit_stops_the_session() {
    let mut list = TodoList::new();
    let lines = ["add a", "show", "help", "remove 0", "remove 0", "remove x", "what", "", "Quit"];
    for line in lines {
        assert!(!list.execute(line).quit, "{:?}", line);
    }
    assert!(list.execute("quit").quit);
}
