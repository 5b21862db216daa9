use term_todo::app::{App, InputMode, Key};
use term_todo::codec::persist;
use term_todo::task::Task;

fn task(desc: &str, done: bool) -> Task {
    Task { desc: desc.to_string(), done }
}

fn type_text(app: &mut App, text: &str) {
    for c in text.chars() {
        let persist_needed = app.handle_key(Key::Char(c));
        assert!(!persist_needed);
    }
}

#[test]
fn scenario_empty_store_commit_buy_milk() {
    // Empty store: nothing selected.
    let mut app = App::new(Vec::new());
    assert_eq!(app.selection.selected(), None);
    // Enter insert mode, type the description, commit.
    assert!(!app.handle_key(Key::Char('i')));
    assert_eq!(app.input_mode, InputMode::Insert);
    type_text(&mut app, "Buy milk");
    assert_eq!(app.input.value(), "Buy milk");
    let persist_needed = app.handle_key(Key::Enter);
    assert!(persist_needed);
    // One task, not done, selected; the durable content holds that record.
    assert_eq!(app.todos.len(), 1);
    assert_eq!(app.todos[0].desc, "Buy milk");
    assert!(!app.todos[0].done);
    assert_eq!(app.selection.selected(), Some(0));
    assert_eq!(app.input.value(), "");
    assert_eq!(persist(&app.todos), "[{\"desc\":\"Buy milk\",\"done\":false}]");
}

#[test]
fn scenario_toggle_then_delete() {
    let mut app = App::new(vec![task("A", false), task("B", false)]);
    assert_eq!(app.selection.selected(), Some(0));
    // Toggle the selected task.
    assert!(app.handle_key(Key::Enter));
    assert_eq!(app.todos[0].desc, "A");
    assert!(app.todos[0].done);
    assert_eq!(app.todos[1].desc, "B");
    assert!(!app.todos[1].done);
    // Delete it; the selection reconciles to 0.
    assert!(app.handle_key(Key::Char('d')));
    assert_eq!(app.todos.len(), 1);
    assert_eq!(app.todos[0].desc, "B");
    assert!(!app.todos[0].done);
    assert_eq!(app.selection.selected(), Some(0));
}

#[test]
fn scenario_commit_empty_buffer_is_a_no_op() {
    let mut app = App::new(vec![task("keep", false)]);
    assert!(!app.handle_key(Key::Char('i')));
    assert_eq!(app.input_mode, InputMode::Insert);
    let persist_needed = app.handle_key(Key::Enter);
    assert!(!persist_needed);
    assert_eq!(app.input_mode, InputMode::Normal);
    assert_eq!(app.todos.len(), 1);
    assert_eq!(app.todos[0].desc, "keep");
}

#[test]
fn scenario_next_at_last_index_stays() {
    let mut app = App::new(vec![task("a", false), task("b", false), task("c", false)]);
    assert!(!app.handle_key(Key::Char('j')));
    assert!(!app.handle_key(Key::Char('j')));
    assert_eq!(app.selection.selected(), Some(2));
    assert!(!app.handle_key(Key::Char('j')));
    assert_eq!(app.selection.selected(), Some(2));
    assert!(!app.handle_key(Key::Down));
    assert_eq!(app.selection.selected(), Some(2));
}

#[test]
fn previous_at_zero_stays() {
    let mut app = App::new(vec![task("a", false), task("b", false)]);
    assert_eq!(app.selection.selected(), Some(0));
    assert!(!app.handle_key(Key::Char('k')));
    assert_eq!(app.selection.selected(), Some(0));
    assert!(!app.handle_key(Key::Up));
    assert_eq!(app.selection.selected(), Some(0));
}

#[test]
fn toggle_and_delete_on_empty_list_are_no_ops() {
    let mut app = App::new(Vec::new());
    assert!(!app.handle_key(Key::Enter));
    assert!(!app.handle_key(Key::Char('d')));
    assert!(app.todos.is_empty());
    assert_eq!(app.selection.selected(), None);
}

#[test]
fn delete_last_task_clears_selection() {
    let mut app = App::new(vec![task("only", false)]);
    assert!(app.handle_key(Key::Char('d')));
    assert!(app.todos.is_empty());
    assert_eq!(app.selection.selected(), None);
}

#[test]
fn delete_at_end_reconciles_to_new_last() {
    let mut app = App::new(vec![task("a", false), task("b", false), task("c", false)]);
    app.handle_key(Key::Char('j'));
    app.handle_key(Key::Char('j'));
    assert_eq!(app.selection.selected(), Some(2));
    assert!(app.handle_key(Key::Char('d')));
    assert_eq!(app.todos.len(), 2);
    assert_eq!(app.selection.selected(), Some(1));
}

#[test]
fn cancel_discards_buffer() {
    let mut app = App::new(Vec::new());
    app.handle_key(Key::Char('i'));
    type_text(&mut app, "abandoned");
    assert!(!app.handle_key(Key::Esc));
    assert_eq!(app.input_mode, InputMode::Normal);
    assert_eq!(app.input.value(), "");
    assert!(app.todos.is_empty());
}

#[test]
fn quit_key_sets_exit() {
    let mut app = App::new(Vec::new());
    assert!(!app.exit);
    assert!(!app.handle_key(Key::Char('q')));
    assert!(app.exit);
}

#[test]
fn unmapped_keys_are_ignored() {
    let mut app = App::new(vec![task("a", true)]);
    assert!(!app.handle_key(Key::Char('z')));
    assert!(!app.handle_key(Key::Other));
    assert_eq!(app.todos.len(), 1);
    assert!(app.todos[0].done);
    assert_eq!(app.input_mode, InputMode::Normal);
    assert_eq!(app.selection.selected(), Some(0));
}

#[test]
fn insert_mode_edits_buffer() {
    let mut app = App::new(Vec::new());
    app.handle_key(Key::Char('i'));
    type_text(&mut app, "abd");
    app.handle_key(Key::Left);
    app.handle_key(Key::Char('c'));
    assert_eq!(app.input.value(), "abcd");
    app.handle_key(Key::Backspace);
    assert_eq!(app.input.value(), "abd");
    app.handle_key(Key::Delete);
    assert_eq!(app.input.value(), "ab");
    app.handle_key(Key::Right);
    app.handle_key(Key::Char('!'));
    assert_eq!(app.input.value(), "ab!");
    assert_eq!(app.input.visual_cursor(), 3);
}
