//! The render projection: a pure mapping from the application state to a
//! frame description.  Nothing here touches the task store or the terminal;
//! the loop hands the state in and paints what comes back.

use vstd::prelude::*;
use crate::app::{App, InputMode};
use crate::strutil::push_char;
use crate::task::{Task, TaskView};

verus! {

/// The completion glyph a task is shown with.
pub open spec fn glyph(done: bool) -> char {
    if done {
        '✓'
    } else {
        ' '
    }
}

/// The line a task is rendered as: its description, a space, and the glyph.
pub open spec fn rendered_line(t: TaskView) -> Seq<char> {
    t.desc + seq![' ', glyph(t.done)]
}

/// Renders each task as one display line, in list order.
pub fn get_items(items: Vec<Task>) -> (r: Vec<String>)
    ensures
        r@.len() == items@.len(),
        forall|i: int| 0 <= i < items@.len() ==> r@[i]@ == rendered_line(items@[i]@),
{
    let mut r: Vec<String> = Vec::new();
    let mut i: usize = 0;
    while i < items.len()
        invariant
            i <= items@.len(),
            r@.len() == i,
            forall|j: int| 0 <= j < i ==> r@[j]@ == rendered_line(items@[j]@),
        decreases items@.len() - i,
    {
        let mut line = items[i].desc.clone();
        push_char(&mut line, ' ');
        if items[i].done {
            push_char(&mut line, '✓');
        } else {
            push_char(&mut line, ' ');
        }
        proof {
            assert(line@ =~= rendered_line(items@[i as int]@));
        }
        r.push(line);
        i = i + 1;
    }
    r
}

/// A frame description: everything the terminal needs to paint one
/// iteration, and nothing else.
pub struct Frame {
    pub lines: Vec<String>,
    pub selected: Option<usize>,
    pub input_text: String,
    pub input_column: usize,
    pub insert_mode: bool,
}

/// Deep-copies a task; the model is unchanged.
pub fn clone_task(t: &Task) -> (r: Task)
    ensures
        r@ == t@,
{
    Task { desc: t.desc.clone(), done: t.done }
}

/// Deep-copies a task list; the model is unchanged.
pub fn clone_tasks(ts: &Vec<Task>) -> (r: Vec<Task>)
    ensures
        crate::task::views(r@) == crate::task::views(ts@),
{
    let mut r: Vec<Task> = Vec::new();
    let mut i: usize = 0;
    while i < ts.len()
        invariant
            i <= ts@.len(),
            r@.len() == i,
            forall|j: int| 0 <= j < i ==> r@[j]@ == ts@[j]@,
        decreases ts@.len() - i,
    {
        r.push(clone_task(&ts[i]));
        i = i + 1;
    }
    proof {
        assert(crate::task::views(r@) =~= crate::task::views(ts@));
    }
    r
}

/// Projects the application state to a frame description: one line per task
/// in list order, the selection unchanged, the entry buffer's text and cursor
/// column, and whether Insert mode is active.
pub fn project(app: &App) -> (r: Frame)
    ensures
        r.lines@.len() == app@.todos.len(),
        forall|i: int| 0 <= i < app@.todos.len() ==> r.lines@[i]@ == rendered_line(app@.todos[i]),
        r.selected == app@.sel,
        r.input_text@ == app@.buffer.text,
        r.input_column as nat == app@.buffer.cursor,
        r.insert_mode == (app@.mode == InputMode::Insert),
{
    let lines = get_items(clone_tasks(&app.todos));
    let insert_mode = match app.input_mode {
        InputMode::Insert => true,
        InputMode::Normal => false,
    };
    Frame {
        lines,
        selected: app.selection.selected(),
        input_text: app.input.value(),
        input_column: app.input.visual_cursor(),
        insert_mode,
    }
}

/// The help text shown under the list, one line per binding.
pub fn footer_lines() -> (r: Vec<String>)
    ensures
        r@.len() == 6,
        r@[0]@ == "Press 'j' or 'k' to navigate,"@,
        r@[1]@ == "'Enter' to toggle todo item 'done' status,"@,
        r@[2]@ == "'d' to delete todo item,"@,
        r@[3]@ == "'i' to enter insert mode,"@,
        r@[4]@ == "'Esc' to enter normal mode from insert mode,"@,
        r@[5]@ == "Press 'q' to quit."@,
{
    let mut r: Vec<String> = Vec::new();
    r.push(String::from_str("Press 'j' or 'k' to navigate,"));
    r.push(String::from_str("'Enter' to toggle todo item 'done' status,"));
    r.push(String::from_str("'d' to delete todo item,"));
    r.push(String::from_str("'i' to enter insert mode,"));
    r.push(String::from_str("'Esc' to enter normal mode from insert mode,"));
    r.push(String::from_str("Press 'q' to quit."));
    r
}

} // verus!
