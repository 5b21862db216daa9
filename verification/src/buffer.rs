//! The entry buffer: the single line of text being composed in Insert mode,
//! with a cursor offset into it.

use vstd::prelude::*;
use crate::strutil::chars_to_string;

verus! {

/// The entry buffer: the characters typed so far and the cursor offset,
/// always between 0 and the text length.
pub struct EntryBuffer {
    pub chars: Vec<char>,
    pub cursor: usize,
}

/// Mathematical model of the entry buffer.
pub ghost struct BufferView {
    pub text: Seq<char>,
    pub cursor: nat,
}

impl View for EntryBuffer {
    type V = BufferView;

    open spec fn view(&self) -> BufferView {
        BufferView { text: self.chars@, cursor: self.cursor as nat }
    }
}

/// Well-formedness: the cursor never points past the end of the text.
pub open spec fn buf_wf(b: BufferView) -> bool {
    b.cursor <= b.text.len()
}

/// Buffer after typing `c`: inserted at the cursor, cursor moves right.
pub open spec fn buf_insert(b: BufferView, c: char) -> BufferView
    recommends
        buf_wf(b),
{
    BufferView { text: b.text.insert(b.cursor as int, c), cursor: b.cursor + 1 }
}

/// Buffer after backspace: the character before the cursor is removed and the
/// cursor moves left; at offset 0 nothing changes.
pub open spec fn buf_backspace(b: BufferView) -> BufferView {
    if b.cursor == 0 {
        b
    } else {
        BufferView { text: b.text.remove(b.cursor - 1), cursor: (b.cursor - 1) as nat }
    }
}

/// Buffer after delete: the character at the cursor is removed, the cursor
/// stays; at the end of the text nothing changes.
pub open spec fn buf_delete(b: BufferView) -> BufferView {
    if b.cursor < b.text.len() {
        BufferView { text: b.text.remove(b.cursor as int), cursor: b.cursor }
    } else {
        b
    }
}

/// Buffer after moving the cursor one place left, clamped at 0.
pub open spec fn buf_left(b: BufferView) -> BufferView {
    if b.cursor == 0 {
        b
    } else {
        BufferView { text: b.text, cursor: (b.cursor - 1) as nat }
    }
}

/// Buffer after moving the cursor one place right, clamped at the end.
pub open spec fn buf_right(b: BufferView) -> BufferView {
    if b.cursor < b.text.len() {
        BufferView { text: b.text, cursor: b.cursor + 1 }
    } else {
        b
    }
}

/// The empty buffer.
pub open spec fn buf_empty() -> BufferView {
    BufferView { text: Seq::empty(), cursor: 0 }
}

impl EntryBuffer {
    /// An empty buffer with the cursor at offset 0.
    pub fn new() -> (r: EntryBuffer)
        ensures
            r@ == buf_empty(),
            buf_wf(r@),
    {
        let r = EntryBuffer { chars: Vec::new(), cursor: 0 };
        proof {
            assert(r@ =~= buf_empty());
        }
        r
    }

    /// Inserts `c` at the cursor and moves the cursor right.
    pub fn insert_char(&mut self, c: char)
        requires
            buf_wf(old(self)@),
            old(self).chars@.len() < usize::MAX,
        ensures
            final(self)@ == buf_insert(old(self)@, c),
            buf_wf(final(self)@),
    {
        self.chars.insert(self.cursor, c);
        self.cursor = self.cursor + 1;
    }

    /// Removes the character before the cursor, if any, and moves the cursor
    /// left.
    pub fn backspace(&mut self)
        requires
            buf_wf(old(self)@),
        ensures
            final(self)@ == buf_backspace(old(self)@),
            buf_wf(final(self)@),
    {
        if self.cursor > 0 {
            self.chars.remove(self.cursor - 1);
            self.cursor = self.cursor - 1;
        }
    }

    /// Removes the character at the cursor, if any; the cursor stays.
    pub fn delete(&mut self)
        requires
            buf_wf(old(self)@),
        ensures
            final(self)@ == buf_delete(old(self)@),
            buf_wf(final(self)@),
    {
        if self.cursor < self.chars.len() {
            self.chars.remove(self.cursor);
        }
    }

    /// Moves the cursor one place left, clamping at 0.
    pub fn move_left(&mut self)
        ensures
            final(self)@ == buf_left(old(self)@),
    {
        if self.cursor > 0 {
            self.cursor = self.cursor - 1;
        }
    }

    /// Moves the cursor one place right, clamping at the end of the text.
    pub fn move_right(&mut self)
        requires
            buf_wf(old(self)@),
        ensures
            final(self)@ == buf_right(old(self)@),
            buf_wf(final(self)@),
    {
        if self.cursor < self.chars.len() {
            self.cursor = self.cursor + 1;
        }
    }

    /// Clears the buffer: empty text, cursor at 0.
    pub fn reset(&mut self)
        ensures
            final(self)@ == buf_empty(),
            buf_wf(final(self)@),
    {
        self.chars = Vec::new();
        self.cursor = 0;
        proof {
            assert(self@ =~= buf_empty());
        }
    }

    /// The current text as a string.
    pub fn value(&self) -> (r: String)
        ensures
            r@ == self@.text,
    {
        chars_to_string(&self.chars)
    }

    /// True when nothing has been typed.
    pub fn is_empty(&self) -> (r: bool)
        ensures
            r == (self@.text.len() == 0),
    {
        self.chars.len() == 0
    }

    /// The column at which the cursor should be drawn.
    pub fn visual_cursor(&self) -> (r: usize)
        ensures
            r as nat == self@.cursor,
    {
        self.cursor
    }
}

} // verus!
