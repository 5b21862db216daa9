use term_todo::app::{App, Key};
use term_todo::buffer::EntryBuffer;
use term_todo::codec::persist;
use term_todo::render::{footer_lines, get_items, project};
use term_todo::selection::Selection;
use term_todo::task::Task;

fn task(desc: &str, done: bool) -> Task {
    Task { desc: desc.to_string(), done }
}

#[test]
fn get_items_renders_glyphs() {
    let items = vec![task("done thing", true), task("open thing", false)];
    let lines = get_items(items);
    assert_eq!(lines.len(), 2);
    assert_eq!(lines[0], "done thing \u{2713}");
    assert_eq!(lines[1], "open thing  ");
}

#[test]
fn project_describes_the_frame() {
    let mut app = App::new(vec![task("a", false), task("b", true)]);
    let frame = project(&app);
    assert_eq!(frame.lines.len(), 2);
    assert_eq!(frame.lines[1], "b \u{2713}");
    assert_eq!(frame.selected, Some(0));
    assert!(!frame.insert_mode);
    assert_eq!(frame.input_text, "");
    app.handle_key(Key::Char('i'));
    app.handle_key(Key::Char('x'));
    let frame = project(&app);
    assert!(frame.insert_mode);
    assert_eq!(frame.input_text, "x");
    assert_eq!(frame.input_column, 1);
}

#[test]
fn footer_has_six_lines() {
    let footer = footer_lines();
    assert_eq!(footer.len(), 6);
    assert_eq!(footer[5], "Press 'q' to quit.");
}

#[test]
fn selection_reconcile_clamps() {
    let mut sel = Selection::new();
    sel.select_first(4);
    assert_eq!(sel.selected(), Some(0));
    sel.select_last(4);
    assert_eq!(sel.selected(), Some(3));
    sel.reconcile(2);
    assert_eq!(sel.selected(), Some(1));
    sel.reconcile(0);
    assert_eq!(sel.selected(), None);
}

#[test]
fn selection_navigation_clamps() {
    let mut sel = Selection::new();
    sel.select_first(3);
    sel.previous();
    assert_eq!(sel.selected(), Some(0));
    sel.next(3);
    sel.next(3);
    sel.next(3);
    assert_eq!(sel.selected(), Some(2));
}

#[test]
fn entry_buffer_edits() {
    let mut buf = EntryBuffer::new();
    assert!(buf.is_empty());
    buf.insert_char('h');
    buf.insert_char('i');
    assert_eq!(buf.value(), "hi");
    assert_eq!(buf.visual_cursor(), 2);
    buf.move_left();
    buf.insert_char('e');
    assert_eq!(buf.value(), "hei");
    buf.backspace();
    assert_eq!(buf.value(), "hi");
    buf.delete();
    assert_eq!(buf.value(), "h");
    buf.reset();
    assert!(buf.is_empty());
    assert_eq!(buf.visual_cursor(), 0);
}

#[test]
fn persist_matches_reference_serializer() {
    // The durable format is the same one a generic value-tree serializer
    // produces for these records; check one list against it.
    let list = vec![task("say \"hi\"", false), task("plain", true)];
    let mut value_list: Vec<serde_json::Value> = Vec::new();
    for t in &list {
        let mut m = serde_json::Map::new();
        m.insert("desc".to_string(), serde_json::Value::String(t.desc.clone()));
        m.insert("done".to_string(), serde_json::Value::Bool(t.done));
        value_list.push(serde_json::Value::Object(m));
    }
    let reference = serde_json::to_string(&serde_json::Value::Array(value_list)).unwrap();
    assert_eq!(persist(&list), reference);
}
