//! The selection cursor: the highlighted position in the task list, or none
//! when the list is empty.  Movement clamps at the boundaries.

use vstd::prelude::*;

verus! {

/// The selection cursor.  `sel` is `None` exactly when the list is empty.
pub struct Selection {
    pub sel: Option<usize>,
}

/// Well-formedness of a cursor against a list of length `len`: an empty list
/// has no selection, a non-empty list has a valid index selected.
pub open spec fn sel_wf(sel: Option<usize>, len: nat) -> bool {
    match sel {
        Option::None => len == 0,
        Option::Some(i) => i < len,
    }
}

/// Cursor after `select_first` on a list of length `len`.
pub open spec fn sel_first(len: nat) -> Option<usize> {
    if len == 0 {
        Option::None
    } else {
        Option::Some(0usize)
    }
}

/// Cursor after `select_last` on a list of length `len`.
pub open spec fn sel_last(len: nat) -> Option<usize> {
    if len == 0 {
        Option::None
    } else {
        Option::Some((len - 1) as usize)
    }
}

/// Cursor after moving forward one position, clamped at the last index.
pub open spec fn sel_next(sel: Option<usize>, len: nat) -> Option<usize> {
    match sel {
        Option::None => Option::None,
        Option::Some(i) => if i + 1 < len {
            Option::Some((i + 1) as usize)
        } else {
            Option::Some(i)
        },
    }
}

/// Cursor after moving backward one position, clamped at index 0.
pub open spec fn sel_previous(sel: Option<usize>) -> Option<usize> {
    match sel {
        Option::None => Option::None,
        Option::Some(i) => if i > 0 {
            Option::Some((i - 1) as usize)
        } else {
            Option::Some(i)
        },
    }
}

/// Cursor after a removal left the list with `new_len` tasks: an index that
/// fell out of range is clamped to the new last index, or to none when the
/// list became empty.
pub open spec fn sel_reconcile(sel: Option<usize>, new_len: nat) -> Option<usize> {
    if new_len == 0 {
        Option::None
    } else {
        match sel {
            Option::None => Option::None,
            Option::Some(i) => if i < new_len {
                Option::Some(i)
            } else {
                Option::Some((new_len - 1) as usize)
            },
        }
    }
}

impl Selection {
    /// A cursor with nothing selected.
    pub fn new() -> (r: Selection)
        ensures
            r.sel == Option::<usize>::None,
    {
        Selection { sel: Option::None }
    }

    /// Selects index 0, or none when the list is empty.
    pub fn select_first(&mut self, len: usize)
        ensures
            final(self).sel == sel_first(len as nat),
            sel_wf(final(self).sel, len as nat),
    {
        if len == 0 {
            self.sel = Option::None;
        } else {
            self.sel = Option::Some(0);
        }
    }

    /// Selects the final index, or none when the list is empty.
    pub fn select_last(&mut self, len: usize)
        ensures
            final(self).sel == sel_last(len as nat),
            sel_wf(final(self).sel, len as nat),
    {
        if len == 0 {
            self.sel = Option::None;
        } else {
            self.sel = Option::Some(len - 1);
        }
    }

    /// Moves forward one position, clamping at the last index.
    pub fn next(&mut self, len: usize)
        requires
            sel_wf(old(self).sel, len as nat),
        ensures
            final(self).sel == sel_next(old(self).sel, len as nat),
            sel_wf(final(self).sel, len as nat),
    {
        match self.sel {
            Option::None => {},
            Option::Some(i) => {
                if i + 1 < len {
                    self.sel = Option::Some(i + 1);
                }
            },
        }
    }

    /// Moves backward one position, clamping at index 0.
    pub fn previous(&mut self)
        ensures
            final(self).sel == sel_previous(old(self).sel),
    {
        match self.sel {
            Option::None => {},
            Option::Some(i) => {
                if i > 0 {
                    self.sel = Option::Some(i - 1);
                }
            },
        }
    }

    /// Re-clamps the cursor after the list length changed to `new_len`.
    pub fn reconcile(&mut self, new_len: usize)
        ensures
            final(self).sel == sel_reconcile(old(self).sel, new_len as nat),
            old(self).sel is Some || new_len == 0 ==> sel_wf(final(self).sel, new_len as nat),
    {
        if new_len == 0 {
            self.sel = Option::None;
        } else {
            match self.sel {
                Option::None => {},
                Option::Some(i) => {
                    if i >= new_len {
                        self.sel = Option::Some(new_len - 1);
                    }
                },
            }
        }
    }

    /// The selected index, if any.
    pub fn selected(&self) -> (r: Option<usize>)
        ensures
            r == self.sel,
    {
        self.sel
    }
}

/// Navigation clamps rather than going out of bounds: moving backward at
/// index 0 stays at 0, and moving forward at the last index stays there.
pub proof fn lemma_navigation_clamps(len: nat)
    requires
        0 < len <= usize::MAX,
    ensures
        sel_previous(Option::Some(0usize)) == Option::Some(0usize),
        sel_next(Option::Some((len - 1) as usize), len) == Option::Some((len - 1) as usize),
{
}

/// `reconcile` restores the cursor invariant after any removal: the new
/// cursor never holds an index at or past the new list length.
pub proof fn lemma_reconcile_restores_wf(sel: Option<usize>, old_len: nat, new_len: nat)
    requires
        sel_wf(sel, old_len),
        old_len > 0,
    ensures
        sel_wf(sel_reconcile(sel, new_len), new_len),
{
}

} // verus!
