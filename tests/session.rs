use todo_app::editor::{edit_line, EditKey};
use todo_app::format::file_contents;
use todo_app::frame::FrameLine;
use todo_app::screen::Screen;
use todo_app::session::{Action, Session};
use todo_app::TodoList;

fn strings(items: &[&str]) -> Vec<String> {
    items.iter().map(|s| s.to_string()).collect()
}

fn session_with(pending: &[&str], done: &[&str]) -> Session {
    let text = file_contents(&strings(pending), &strings(done));
    Session::new(TodoList::new("./todo", &text))
}

#[test]
fn new_session_selects_first() {
    let s = session_with(&["a"], &[]);
    assert_eq!(s.selected, 0);
}

#[test]
fn move_down_stops_at_last() {
    let mut s = session_with(&["a", "b"], &[]);
    assert_eq!(s.handle_key('j'), Action::Redraw);
    assert_eq!(s.selected, 1);
    assert_eq!(s.handle_key('j'), Action::Redraw);
    assert_eq!(s.selected, 1);
}

#[test]
fn move_down_on_empty_list() {
    let mut s = session_with(&[], &[]);
    assert_eq!(s.handle_key('j'), Action::Redraw);
    assert_eq!(s.selected, 0);
}

#[test]
fn move_up_stops_at_first() {
    let mut s = session_with(&["a", "b"], &[]);
    s.handle_key('j');
    assert_eq!(s.handle_key('k'), Action::Redraw);
    assert_eq!(s.selected, 0);
    assert_eq!(s.handle_key('k'), Action::Redraw);
    assert_eq!(s.selected, 0);
}

#[test]
fn remove_last_selected_clamps() {
    let mut s = session_with(&["a", "b", "c"], &[]);
    s.handle_key('j');
    s.handle_key('j');
    assert_eq!(s.selected, 2);
    assert_eq!(s.handle_key('r'), Action::Save);
    assert_eq!(s.list.todo, strings(&["a", "b"]));
    assert_eq!(s.selected, 1);
}

#[test]
fn remove_only_item_empties_selection() {
    let mut s = session_with(&["a"], &[]);
    assert_eq!(s.handle_key('r'), Action::Save);
    assert!(s.list.todo.is_empty());
    assert_eq!(s.selected, 0);
    assert_eq!(s.handle_key('r'), Action::Redraw);
    assert_eq!(s.handle_key('t'), Action::Redraw);
}

#[test]
fn tick_selected_item() {
    let mut s = session_with(&["a", "b", "c"], &[]);
    s.handle_key('j');
    assert_eq!(s.handle_key('t'), Action::Save);
    assert_eq!(s.list.todo, strings(&["a", "c"]));
    assert_eq!(s.list.done, strings(&["b"]));
    assert_eq!(s.selected, 1);
}

#[test]
fn clear_key_clears_done() {
    let mut s = session_with(&["a"], &["x", "y"]);
    assert_eq!(s.handle_key('c'), Action::Save);
    assert!(s.list.done.is_empty());
    assert_eq!(s.list.todo, strings(&["a"]));
}

#[test]
fn add_quit_and_other_keys() {
    let mut s = session_with(&["a"], &[]);
    assert_eq!(s.handle_key('a'), Action::ReadLine);
    assert_eq!(s.handle_key('q'), Action::Quit);
    assert_eq!(s.handle_key('x'), Action::Redraw);
    assert_eq!(s.handle_key('J'), Action::Redraw);
    assert_eq!(s.list.todo, strings(&["a"]));
}

#[test]
fn submit_adds_non_empty_line() {
    let mut s = session_with(&[], &[]);
    assert_eq!(s.submit_line(""), Action::Redraw);
    assert!(s.list.todo.is_empty());
    assert_eq!(s.submit_line("buy milk"), Action::Save);
    assert_eq!(s.list.todo, strings(&["buy milk"]));
    assert_eq!(s.list.file_contents(), "TODO: buy milk\n");
}

fn rows(frame: &[FrameLine]) -> Vec<(String, bool)> {
    frame.iter().map(|l| (l.text.clone(), l.highlighted)).collect()
}

#[test]
fn frame_layout() {
    let mut s = session_with(&["a", "b"], &["c"]);
    s.handle_key('j');
    let got = rows(&s.frame());
    let title = "TUI TODO APP BY MICHAEL".to_string();
    let help1 = "Keybindings: 'j' to move down, 'k' to move up, 'a' to add a todo,".to_string();
    let help2 =
        "             't' to tick a todo, 'r' to remove a todo, 'c' to clear done list".to_string();
    let want = vec![
        (title, false),
        (help1, false),
        (help2, false),
        (String::new(), false),
        ("TODO".to_string(), false),
        ("- [ ]  a".to_string(), false),
        ("- [ ]  b".to_string(), true),
        (String::new(), false),
        ("DONE".to_string(), false),
        ("- [X]\tc".to_string(), false),
        (String::new(), false),
        (">".to_string(), false),
    ];
    assert_eq!(got, want);
}

#[test]
fn frame_of_empty_list_highlights_nothing() {
    let s = session_with(&[], &[]);
    let frame = s.frame();
    assert_eq!(frame.len(), 9);
    assert!(frame.iter().all(|l| !l.highlighted));
}

#[test]
fn editing_a_line() {
    let mut line: Vec<char> = Vec::new();
    assert!(!edit_line(&mut line, EditKey::Backspace));
    assert!(line.is_empty());
    assert!(!edit_line(&mut line, EditKey::Char('h')));
    assert!(!edit_line(&mut line, EditKey::Char('x')));
    assert!(!edit_line(&mut line, EditKey::Backspace));
    assert!(!edit_line(&mut line, EditKey::Char('i')));
    assert!(!edit_line(&mut line, EditKey::Other));
    assert!(edit_line(&mut line, EditKey::Enter));
    assert_eq!(line, vec!['h', 'i']);
}

#[test]
fn screen_moves_and_resets() {
    let mut screen = Screen::new(3, 4);
    assert_eq!((screen.row, screen.col), (3, 4));
    screen.skip_line();
    assert_eq!((screen.row, screen.col), (4, 4));
    screen.reset();
    assert_eq!((screen.row, screen.col), (0, 0));
}

#[test]
fn tick_and_remove_after_emptying_do_nothing() {
    let mut s = session_with(&["a"], &["d"]);
    assert_eq!(s.handle_key('t'), Action::Save);
    assert!(s.list.todo.is_empty());
    assert_eq!(s.selected, 0);
    assert!(s.frame().iter().all(|l| !l.highlighted));
    assert_eq!(s.handle_key('t'), Action::Redraw);
    assert_eq!(s.handle_key('r'), Action::Redraw);
    assert_eq!(s.list.done, strings(&["d", "a"]));
}
