use term_todo::codec::{load, parse_tasks, persist, LoadError};
use term_todo::task::{append, remove_at, toggle, Task};

fn task(desc: &str, done: bool) -> Task {
    Task { desc: desc.to_string(), done }
}

#[test]
fn append_preserves_order() {
    let mut list: Vec<Task> = Vec::new();
    append(&mut list, task("first", false));
    append(&mut list, task("second", true));
    append(&mut list, task("third", false));
    assert_eq!(list.len(), 3);
    assert_eq!(list[0].desc, "first");
    assert_eq!(list[1].desc, "second");
    assert_eq!(list[2].desc, "third");
    assert!(!list[0].done);
    assert!(list[1].done);
    assert!(!list[2].done);
}

#[test]
fn toggle_is_its_own_inverse() {
    let mut list = vec![task("a", false), task("b", true)];
    toggle(&mut list, 1);
    assert!(!list[1].done);
    toggle(&mut list, 1);
    assert!(list[1].done);
    assert!(!list[0].done);
}

#[test]
fn remove_shifts_later_tasks_down() {
    let mut list = vec![task("a", false), task("b", true), task("c", false), task("d", true)];
    remove_at(&mut list, 1);
    assert_eq!(list.len(), 3);
    assert_eq!(list[0].desc, "a");
    assert_eq!(list[1].desc, "c");
    assert_eq!(list[2].desc, "d");
    assert!(list[2].done);
}

#[test]
fn persist_then_load_round_trips() {
    let list = vec![task("buy milk", false), task("write code", true)];
    let content = persist(&list);
    let reloaded = load(&content).expect("canonical content must load");
    assert_eq!(reloaded.len(), 2);
    assert_eq!(reloaded[0].desc, "buy milk");
    assert!(!reloaded[0].done);
    assert_eq!(reloaded[1].desc, "write code");
    assert!(reloaded[1].done);
    let content_again = persist(&reloaded);
    assert_eq!(content, content_again);
}

#[test]
fn persist_load_idempotent_with_escapes() {
    let list = vec![task("say \"hi\"", false), task("back\\slash", true), task("", true)];
    let content = persist(&list);
    let reloaded = load(&content).expect("escaped content must load");
    assert_eq!(reloaded[0].desc, "say \"hi\"");
    assert_eq!(reloaded[1].desc, "back\\slash");
    assert_eq!(reloaded[2].desc, "");
    assert_eq!(persist(&reloaded), content);
}

#[test]
fn persist_empty_list() {
    let list: Vec<Task> = Vec::new();
    assert_eq!(persist(&list), "[]");
}

#[test]
fn persist_exact_content() {
    let list = vec![task("A", true), task("B", false)];
    assert_eq!(
        persist(&list),
        "[{\"desc\":\"A\",\"done\":true},{\"desc\":\"B\",\"done\":false}]"
    );
}

#[test]
fn load_empty_content_is_empty_list() {
    let tasks = load("").expect("empty content is an empty list");
    assert!(tasks.is_empty());
    let tasks = load("[]").expect("an empty array is an empty list");
    assert!(tasks.is_empty());
}

#[test]
fn load_rejects_corrupt_content() {
    assert_eq!(load("not a list").unwrap_err(), LoadError::CorruptData);
    assert_eq!(load("[").unwrap_err(), LoadError::CorruptData);
    assert_eq!(load("[{\"desc\":\"a\",\"done\":tru}]").unwrap_err(), LoadError::CorruptData);
    assert_eq!(load("[{\"desc\":\"a\",\"done\":true}").unwrap_err(), LoadError::CorruptData);
    assert_eq!(load("[{\"desc\":\"a\",\"done\":true}]x").unwrap_err(), LoadError::CorruptData);
    assert_eq!(load("[,]").unwrap_err(), LoadError::CorruptData);
}

#[test]
fn parse_accepts_single_record() {
    let tasks = parse_tasks("[{\"desc\":\"only\",\"done\":false}]").expect("one record");
    assert_eq!(tasks.len(), 1);
    assert_eq!(tasks[0].desc, "only");
    assert!(!tasks[0].done);
}

#[test]
fn parse_unescapes_description() {
    let tasks = parse_tasks("[{\"desc\":\"a\\\"b\\\\c\",\"done\":true}]").expect("escapes");
    assert_eq!(tasks[0].desc, "a\"b\\c");
    assert!(tasks[0].done);
}
