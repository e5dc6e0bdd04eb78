use todo_app::format::{file_contents, parse_items};
use todo_app::TodoList;

fn strings(items: &[&str]) -> Vec<String> {
    items.iter().map(|s| s.to_string()).collect()
}

fn list_with(pending: &[&str], done: &[&str]) -> TodoList {
    let text = file_contents(&strings(pending), &strings(done));
    TodoList::new("./todo", &text)
}

#[test]
fn new_without_file_is_empty() {
    let list = TodoList::new("./todo", "");
    assert!(list.todo.is_empty());
    assert!(list.done.is_empty());
    assert_eq!(list.filepath(), "./todo");
    assert_eq!(list.file_contents(), "");
}

#[test]
fn add_to_empty_list() {
    let mut list = TodoList::new("./todo", "");
    list.add_todo("buy milk");
    assert_eq!(list.todo, strings(&["buy milk"]));
    assert!(list.done.is_empty());
    assert_eq!(list.file_contents(), "TODO: buy milk\n");
}

#[test]
fn tick_moves_item_to_end_of_done() {
    let mut list = list_with(&["a", "b", "c"], &["z"]);
    list.tick_todo(1);
    assert_eq!(list.todo, strings(&["a", "c"]));
    assert_eq!(list.done, strings(&["z", "b"]));
}

#[test]
fn tick_on_fresh_done_list() {
    let mut list = list_with(&["a", "b", "c"], &[]);
    list.tick_todo(1);
    assert_eq!(list.todo, strings(&["a", "c"]));
    assert_eq!(list.done, strings(&["b"]));
}

#[test]
fn remove_keeps_order_of_rest() {
    let mut list = list_with(&["a", "b", "c"], &["x"]);
    list.remove_todo(0);
    assert_eq!(list.todo, strings(&["b", "c"]));
    assert_eq!(list.done, strings(&["x"]));
}

#[test]
fn out_of_range_changes_nothing() {
    let mut list = list_with(&["a"], &["d"]);
    let before = list.file_contents();
    list.tick_todo(5);
    list.remove_todo(5);
    list.tick_todo(1);
    list.remove_todo(1);
    assert_eq!(list.todo, strings(&["a"]));
    assert_eq!(list.done, strings(&["d"]));
    assert_eq!(list.file_contents(), before);
}

#[test]
fn clear_done_keeps_pending() {
    let mut list = list_with(&["p"], &["x", "y"]);
    list.clear_done();
    assert!(list.done.is_empty());
    assert_eq!(list.todo, strings(&["p"]));
    assert_eq!(list.file_contents(), "TODO: p\n");
}

#[test]
fn clear_done_on_empty_list() {
    let mut list = TodoList::new("./todo", "");
    list.clear_done();
    assert!(list.done.is_empty());
    assert!(list.todo.is_empty());
}

#[test]
fn file_lists_pending_before_done() {
    let list = list_with(&["a", "b"], &["c"]);
    assert_eq!(list.file_contents(), "TODO: a\nTODO: b\nDONE: c\n");
}

#[test]
fn save_then_load_round_trips() {
    let pending = strings(&["one", "", "TODO: inner", "tab\there", "ünïcödé"]);
    let done = strings(&["DONE: twice", "x"]);
    let text = file_contents(&pending, &done);
    let (p, d) = parse_items(&text);
    assert_eq!(p, pending);
    assert_eq!(d, done);
}

#[test]
fn load_skips_other_lines() {
    let text = "TODO: a\n\ngarbage\nTODO:b\nTODO\nDONE: c\nDONE: \nTODO: d";
    let list = TodoList::new("./todo", text);
    assert_eq!(list.todo, strings(&["a", "d"]));
    assert_eq!(list.done, strings(&["c", ""]));
}

#[test]
fn load_keeps_interleaved_order() {
    let text = "DONE: 1\nTODO: 2\nDONE: 3\nTODO: 4\n";
    let list = TodoList::new("f", text);
    assert_eq!(list.todo, strings(&["2", "4"]));
    assert_eq!(list.done, strings(&["1", "3"]));
    assert_eq!(list.filepath(), "f");
}

#[test]
fn load_then_save_then_add() {
    let mut list = TodoList::new("./todo", "TODO: a\nDONE: b\n");
    list.add_todo("c");
    assert_eq!(list.file_contents(), "TODO: a\nTODO: c\nDONE: b\n");
}

#[test]
fn load_drops_cr_of_crlf() {
    let list = TodoList::new("./todo", "TODO: a\r\nDONE: b\r\nTODO: c\r");
    assert_eq!(list.todo, strings(&["a", "c\r"]));
    assert_eq!(list.done, strings(&["b"]));
}

#[test]
fn load_drops_only_one_cr() {
    let list = TodoList::new("./todo", "TODO: a\r\r\n\r\n");
    assert_eq!(list.todo, strings(&["a\r"]));
    assert!(list.done.is_empty());
}
