//! Tasks and the ordered task list: append, toggle and remove.

use vstd::prelude::*;

verus! {

/// A single task: a description and a completion flag.
#[derive(Debug)]
pub struct Task {
    pub desc: String,
    pub done: bool,
}

/// Mathematical model of a task: the description's characters and the flag.
pub ghost struct TaskView {
    pub desc: Seq<char>,
    pub done: bool,
}

impl View for Task {
    type V = TaskView;

    open spec fn view(&self) -> TaskView {
        TaskView { desc: self.desc@, done: self.done }
    }
}

/// The model of a whole task list: each task's model, in list order.
pub open spec fn views(ts: Seq<Task>) -> Seq<TaskView> {
    ts.map_values(|t: Task| t@)
}

/// Appends a task at the end of the list; every existing task keeps its place.
pub fn append(list: &mut Vec<Task>, t: Task)
    ensures
        views(final(list)@) == views(old(list)@).push(t@),
{
    list.push(t);
    proof {
        assert(views(list@) =~= views(old(list)@).push(t@));
    }
}

/// Flips the completion flag of the task at `i`; nothing else changes.
pub fn toggle(list: &mut Vec<Task>, i: usize)
    requires
        i < old(list)@.len(),
    ensures
        views(final(list)@) == toggled(views(old(list)@), i as int),
{
    let done = list[i].done;
    let desc = list[i].desc.clone();
    list.set(i, Task { desc, done: !done });
    proof {
        assert(views(list@) =~= toggled(views(old(list)@), i as int));
    }
}

/// The model of a list after a toggle at index `i`.
pub open spec fn toggled(ts: Seq<TaskView>, i: int) -> Seq<TaskView>
    recommends
        0 <= i < ts.len(),
{
    ts.update(i, TaskView { desc: ts[i].desc, done: !ts[i].done })
}

/// Removes the task at `i`: the list shrinks by one, tasks before `i` keep
/// their index and tasks after `i` shift down by one.
pub fn remove_at(list: &mut Vec<Task>, i: usize)
    requires
        i < old(list)@.len(),
    ensures
        views(final(list)@) == views(old(list)@).remove(i as int),
        final(list)@.len() == old(list)@.len() - 1,
        forall|j: int| 0 <= j < i ==> views(final(list)@)[j] == views(old(list)@)[j],
        forall|j: int|
            i <= j < final(list)@.len() ==> views(final(list)@)[j] == views(old(list)@)[j + 1],
{
    list.remove(i);
    proof {
        assert(views(list@) =~= views(old(list)@).remove(i as int));
    }
}

/// Toggling the same index twice restores the original list.
pub proof fn lemma_toggle_involutive(ts: Seq<TaskView>, i: int)
    requires
        0 <= i < ts.len(),
    ensures
        toggled(toggled(ts, i), i) == ts,
{
    assert(toggled(toggled(ts, i), i) =~= ts);
}

/// The result of appending the tasks of `extra`, in order, to `base`.
pub open spec fn appended(base: Seq<TaskView>, extra: Seq<TaskView>) -> Seq<TaskView>
    decreases extra.len(),
{
    if extra.len() == 0 {
        base
    } else {
        appended(base.push(extra[0]), extra.skip(1))
    }
}

/// A sequence of appends preserves order: the resulting list is the original
/// list followed by the appended tasks in the order they were appended.
pub proof fn lemma_append_order(base: Seq<TaskView>, extra: Seq<TaskView>)
    ensures
        appended(base, extra) == base + extra,
    decreases extra.len(),
{
    if extra.len() == 0 {
        assert(appended(base, extra) =~= base + extra);
    } else {
        lemma_append_order(base.push(extra[0]), extra.skip(1));
        assert(base.push(extra[0]) + extra.skip(1) =~= base + extra);
    }
}

} // verus!
