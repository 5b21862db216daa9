//! The application state and the modal input dispatcher: one verified step
//! function maps the current state and a key to the next state and says
//! whether the task list must be persisted before the loop goes on.

use vstd::prelude::*;
use crate::buffer::{
    buf_backspace, buf_delete, buf_empty, buf_insert, buf_left, buf_right, buf_wf, BufferView,
    EntryBuffer,
};
use crate::selection::{
    sel_first, sel_last, sel_next, sel_previous, sel_reconcile, sel_wf, Selection,
};
use crate::task::{toggled, views, Task, TaskView};

verus! {

/// The two input modes: Normal for navigation and commands, Insert for
/// composing a new task description.
#[derive(Clone, Copy, Debug, PartialEq, Eq, Structural)]
pub enum InputMode {
    Normal,
    Insert,
}

/// A key press, reduced to what the dispatcher reads.  Keys the dispatcher
/// does not map are handed in as `Other` and ignored.
#[derive(Clone, Copy, Debug, PartialEq, Eq, Structural)]
pub enum Key {
    Char(char),
    Enter,
    Esc,
    Backspace,
    Delete,
    Left,
    Right,
    Up,
    Down,
    Other,
}

/// The whole application state: task list, entry buffer, mode, selection
/// cursor and the exit flag.
pub struct App {
    pub exit: bool,
    pub todos: Vec<Task>,
    pub input: EntryBuffer,
    pub input_mode: InputMode,
    pub selection: Selection,
}

/// Mathematical model of the application state.
#[verifier::ext_equal]
pub ghost struct AppView {
    pub exit: bool,
    pub todos: Seq<TaskView>,
    pub buffer: BufferView,
    pub mode: InputMode,
    pub sel: Option<usize>,
}

impl View for App {
    type V = AppView;

    open spec fn view(&self) -> AppView {
        AppView {
            exit: self.exit,
            todos: views(self.todos@),
            buffer: self.input@,
            mode: self.input_mode,
            sel: self.selection.sel,
        }
    }
}

/// The state invariant: the cursor selects a valid index exactly when the
/// list is non-empty, and the buffer cursor stays inside the buffer text.
pub open spec fn app_wf(a: AppView) -> bool {
    &&& sel_wf(a.sel, a.todos.len())
    &&& buf_wf(a.buffer)
    &&& a.todos.len() <= usize::MAX
}

/// The initial state over a loaded task list: Normal mode, empty buffer,
/// first task selected (or nothing, when the list is empty).
pub open spec fn app_init(todos: Seq<TaskView>) -> AppView {
    AppView {
        exit: false,
        todos,
        buffer: buf_empty(),
        mode: InputMode::Normal,
        sel: sel_first(todos.len()),
    }
}

/// The transition function of the modal state machine: from a state and a
/// key to the next state, plus `true` exactly when the task list was mutated
/// and must be persisted before the next event is read.
pub open spec fn step_spec(a: AppView, k: Key) -> (AppView, bool)
    recommends
        app_wf(a),
{
    match a.mode {
        InputMode::Insert => match k {
            Key::Enter => if a.buffer.text.len() == 0 {
                (AppView { mode: InputMode::Normal, ..a }, false)
            } else {
                let todos = a.todos.push(TaskView { desc: a.buffer.text, done: false });
                (
                    AppView {
                        todos,
                        buffer: buf_empty(),
                        mode: InputMode::Normal,
                        sel: sel_last(todos.len()),
                        ..a
                    },
                    true,
                )
            },
            Key::Esc => (AppView { mode: InputMode::Normal, buffer: buf_empty(), ..a }, false),
            Key::Char(c) => (AppView { buffer: buf_insert(a.buffer, c), ..a }, false),
            Key::Backspace => (AppView { buffer: buf_backspace(a.buffer), ..a }, false),
            Key::Delete => (AppView { buffer: buf_delete(a.buffer), ..a }, false),
            Key::Left => (AppView { buffer: buf_left(a.buffer), ..a }, false),
            Key::Right => (AppView { buffer: buf_right(a.buffer), ..a }, false),
            _ => (a, false),
        },
        InputMode::Normal => match k {
            Key::Char(c) => if c == 'q' {
                (AppView { exit: true, ..a }, false)
            } else if c == 'i' {
                (AppView { mode: InputMode::Insert, ..a }, false)
            } else if c == 'j' {
                (AppView { sel: sel_next(a.sel, a.todos.len()), ..a }, false)
            } else if c == 'k' {
                (AppView { sel: sel_previous(a.sel), ..a }, false)
            } else if c == 'd' {
                step_delete(a)
            } else {
                (a, false)
            },
            Key::Down => (AppView { sel: sel_next(a.sel, a.todos.len()), ..a }, false),
            Key::Up => (AppView { sel: sel_previous(a.sel), ..a }, false),
            Key::Enter => step_toggle(a),
            _ => (a, false),
        },
    }
}

/// Normal-mode delete: removes the selected task, re-clamps the cursor and
/// asks for a persist; a no-op on an empty list.
pub open spec fn step_delete(a: AppView) -> (AppView, bool)
    recommends
        app_wf(a),
{
    match a.sel {
        Option::None => (a, false),
        Option::Some(i) => {
            let todos = a.todos.remove(i as int);
            (AppView { todos, sel: sel_reconcile(a.sel, todos.len()), ..a }, true)
        },
    }
}

/// Normal-mode toggle: flips the completion flag of the selected task and
/// asks for a persist; a no-op on an empty list.
pub open spec fn step_toggle(a: AppView) -> (AppView, bool)
    recommends
        app_wf(a),
{
    match a.sel {
        Option::None => (a, false),
        Option::Some(i) => (AppView { todos: toggled(a.todos, i as int), ..a }, true),
    }
}

impl App {
    /// The state the application starts in, over the loaded task list.
    pub fn new(todos: Vec<Task>) -> (r: App)
        ensures
            r@ == app_init(views(todos@)),
            app_wf(r@),
    {
        let len = todos.len();
        let mut selection = Selection::new();
        selection.select_first(len);
        let r = App {
            exit: false,
            todos,
            input: EntryBuffer::new(),
            input_mode: InputMode::Normal,
            selection,
        };
        proof {
            assert(r@ =~= app_init(views(r.todos@)));
        }
        r
    }

    /// Dispatches one key press: the state advances exactly as `step_spec`
    /// says, and the result is `true` exactly when the task list changed and
    /// must be written to the durable medium before the next event.
    pub fn handle_key(&mut self, k: Key) -> (persist: bool)
        requires
            app_wf(old(self)@),
            old(self)@.buffer.text.len() < usize::MAX,
        ensures
            final(self)@ == step_spec(old(self)@, k).0,
            persist == step_spec(old(self)@, k).1,
            app_wf(final(self)@),
    {
        match self.input_mode {
            InputMode::Insert => match k {
                Key::Enter => {
                    if self.input.is_empty() {
                        self.input_mode = InputMode::Normal;
                        proof {
                            assert(self@ =~= step_spec(old(self)@, k).0);
                        }
                        false
                    } else {
                        let desc = self.input.value();
                        crate::task::append(&mut self.todos, Task { desc, done: false });
                        self.input.reset();
                        self.input_mode = InputMode::Normal;
                        self.selection.select_last(self.todos.len());
                        proof {
                            assert(self@ =~= step_spec(old(self)@, k).0);
                        }
                        true
                    }
                },
                Key::Esc => {
                    self.input_mode = InputMode::Normal;
                    self.input.reset();
                    proof {
                        assert(self@ =~= step_spec(old(self)@, k).0);
                    }
                    false
                },
                Key::Backspace => {
                    self.input.backspace();
                    proof {
                        assert(self@ =~= step_spec(old(self)@, k).0);
                    }
                    false
                },
                Key::Delete => {
                    self.input.delete();
                    proof {
                        assert(self@ =~= step_spec(old(self)@, k).0);
                    }
                    false
                },
                Key::Left => {
                    self.input.move_left();
                    proof {
                        assert(self@ =~= step_spec(old(self)@, k).0);
                    }
                    false
                },
                Key::Right => {
                    self.input.move_right();
                    proof {
                        assert(self@ =~= step_spec(old(self)@, k).0);
                    }
                    false
                },
                Key::Char(c) => {
                    self.input.insert_char(c);
                    proof {
                        assert(self@ =~= step_spec(old(self)@, k).0);
                    }
                    false
                },
                _ => {
                    proof {
                        assert(self@ =~= step_spec(old(self)@, k).0);
                    }
                    false
                },
            },
            InputMode::Normal => match k {
                Key::Char(c) => {
                    if c == 'q' {
                        self.exit = true;
                        proof {
                            assert(self@ =~= step_spec(old(self)@, k).0);
                        }
                        false
                    } else if c == 'i' {
                        self.input_mode = InputMode::Insert;
                        proof {
                            assert(self@ =~= step_spec(old(self)@, k).0);
                        }
                        false
                    } else if c == 'j' {
                        let len = self.todos.len();
                        self.selection.next(len);
                        proof {
                            assert(self@ =~= step_spec(old(self)@, k).0);
                        }
                        false
                    } else if c == 'k' {
                        self.selection.previous();
                        proof {
                            assert(self@ =~= step_spec(old(self)@, k).0);
                        }
                        false
                    } else if c == 'd' {
                        let persist = self.delete_selected();
                        proof {
                            assert(self@ =~= step_spec(old(self)@, k).0);
                        }
                        persist
                    } else {
                        proof {
                            assert(self@ =~= step_spec(old(self)@, k).0);
                        }
                        false
                    }
                },
                Key::Down => {
                    let len = self.todos.len();
                    self.selection.next(len);
                    proof {
                        assert(self@ =~= step_spec(old(self)@, k).0);
                    }
                    false
                },
                Key::Up => {
                    self.selection.previous();
                    proof {
                        assert(self@ =~= step_spec(old(self)@, k).0);
                    }
                    false
                },
                Key::Enter => {
                    let persist = self.toggle_selected();
                    proof {
                        assert(self@ =~= step_spec(old(self)@, k).0);
                    }
                    persist
                },
                _ => {
                    proof {
                        assert(self@ =~= step_spec(old(self)@, k).0);
                    }
                    false
                },
            },
        }
    }

    /// Removes the selected task and re-clamps the cursor; a safe no-op on an
    /// empty list.
    fn delete_selected(&mut self) -> (persist: bool)
        requires
            app_wf(old(self)@),
        ensures
            final(self)@ == step_delete(old(self)@).0,
            persist == step_delete(old(self)@).1,
            final(self)@.mode == old(self)@.mode,
            final(self)@.buffer == old(self)@.buffer,
            app_wf(final(self)@),
    {
        match self.selection.selected() {
            Option::None => {
                proof {
                    assert(self@ =~= step_delete(old(self)@).0);
                }
                false
            },
            Option::Some(i) => {
                crate::task::remove_at(&mut self.todos, i);
                let len = self.todos.len();
                self.selection.reconcile(len);
                proof {
                    assert(self@ =~= step_delete(old(self)@).0);
                }
                true
            },
        }
    }

    /// Flips the completion flag of the selected task; a safe no-op on an
    /// empty list.
    fn toggle_selected(&mut self) -> (persist: bool)
        requires
            app_wf(old(self)@),
        ensures
            final(self)@ == step_toggle(old(self)@).0,
            persist == step_toggle(old(self)@).1,
            final(self)@.mode == old(self)@.mode,
            final(self)@.buffer == old(self)@.buffer,
            app_wf(final(self)@),
    {
        match self.selection.selected() {
            Option::None => {
                proof {
                    assert(self@ =~= step_toggle(old(self)@).0);
                }
                false
            },
            Option::Some(i) => {
                crate::task::toggle(&mut self.todos, i);
                proof {
                    assert(self@ =~= step_toggle(old(self)@).0);
                }
                true
            },
        }
    }
}

/// The dispatcher preserves the state invariant: from any well-formed state,
/// any key leads to a well-formed state.
pub proof fn lemma_step_preserves_wf(a: AppView, k: Key)
    requires
        app_wf(a),
        a.buffer.text.len() < usize::MAX,
        a.todos.len() < usize::MAX,
    ensures
        app_wf(step_spec(a, k).0),
{
}

/// A step asks for a persist exactly when it changed the task list, so the
/// durable medium never lags the in-memory list across a step, and no step
/// rewrites it needlessly.
pub proof fn lemma_mutation_is_persisted(a: AppView, k: Key)
    requires
        app_wf(a),
    ensures
        step_spec(a, k).1 <==> step_spec(a, k).0.todos != a.todos,
{
    let (next, persist) = step_spec(a, k);
    if persist {
        if a.mode == InputMode::Normal && k == Key::Enter {
            let i = a.sel->Some_0 as int;
            assert(next.todos[i].done != a.todos[i].done);
        }
    }
}

} // verus!
