//! A one-line text editor with a cursor that counts characters.

use crate::text::{chars_of, string_of};
use vstd::prelude::*;

verus! {

/// A line of text and a cursor in it.
pub struct Editor {
    text: String,
    /// The number of characters before the cursor.
    cursor: usize,
}

/// What an [`Editor`] holds.
#[verifier::ext_equal]
pub struct EditorView {
    pub text: Seq<char>,
    pub cursor: int,
}

impl View for Editor {
    type V = EditorView;

    closed spec fn view(&self) -> EditorView {
        EditorView { text: self.text@, cursor: self.cursor as int }
    }
}

/// An editor on `s` with the cursor at the end.
pub open spec fn editor_on(s: Seq<char>) -> EditorView {
    EditorView { text: s, cursor: s.len() as int }
}

impl EditorView {
    /// The cursor is within the text.
    pub open spec fn wf(self) -> bool {
        0 <= self.cursor <= self.text.len()
    }

    /// `c` typed at the cursor.
    pub open spec fn inserted(self, c: char) -> EditorView {
        EditorView { text: self.text.insert(self.cursor, c), cursor: self.cursor + 1 }
    }

    /// The character before the cursor removed, where there is one.
    pub open spec fn backspaced(self) -> EditorView {
        if self.cursor > 0 {
            EditorView { text: self.text.remove(self.cursor - 1), cursor: self.cursor - 1 }
        } else {
            self
        }
    }

    /// The character at the cursor removed, where there is one.
    pub open spec fn deleted(self) -> EditorView {
        if self.cursor < self.text.len() {
            EditorView { text: self.text.remove(self.cursor), ..self }
        } else {
            self
        }
    }

    /// The cursor one to the left, where there is room.
    pub open spec fn moved_left(self) -> EditorView {
        if self.cursor > 0 {
            EditorView { cursor: self.cursor - 1, ..self }
        } else {
            self
        }
    }

    /// The cursor one to the right, where there is room.
    pub open spec fn moved_right(self) -> EditorView {
        if self.cursor < self.text.len() {
            EditorView { cursor: self.cursor + 1, ..self }
        } else {
            self
        }
    }

    /// The cursor at the start.
    pub open spec fn at_home(self) -> EditorView {
        EditorView { cursor: 0, ..self }
    }

    /// The cursor at the end.
    pub open spec fn at_end(self) -> EditorView {
        EditorView { cursor: self.text.len() as int, ..self }
    }
}

impl Editor {
    /// An editor on `s` with the cursor at the end.
    pub fn from_str(s: &str) -> (r: Self)
        ensures
            r@.wf(),
            r@ == editor_on(s@),
    {
        Editor { text: s.to_owned(), cursor: s.unicode_len() }
    }

    /// The text.
    pub fn text(&self) -> (r: &str)
        ensures
            r@ == self@.text,
    {
        self.text.as_str()
    }

    /// The number of characters before the cursor.
    pub fn cursor(&self) -> (r: usize)
        ensures
            r == self@.cursor,
    {
        self.cursor
    }

    /// Types `c` at the cursor.
    pub fn insert(&mut self, c: char)
        requires
            old(self)@.wf(),
        ensures
            final(self)@.wf(),
            final(self)@ == old(self)@.inserted(c),
    {
        let mut cs = chars_of(self.text.as_str());
        cs.insert(self.cursor, c);
        let n: usize = cs.len();
        self.text = string_of(&cs, 0, n);
        self.cursor += 1;
        assert(cs@.subrange(0, n as int) =~= cs@);
    }

    /// Removes the character before the cursor.
    pub fn backspace(&mut self)
        requires
            old(self)@.wf(),
        ensures
            final(self)@.wf(),
            final(self)@ == old(self)@.backspaced(),
    {
        if self.cursor == 0 {
            return;
        }
        let mut cs = chars_of(self.text.as_str());
        cs.remove(self.cursor - 1);
        let n: usize = cs.len();
        self.text = string_of(&cs, 0, n);
        self.cursor -= 1;
        assert(cs@.subrange(0, n as int) =~= cs@);
    }

    /// Removes the character at the cursor.
    pub fn delete(&mut self)
        requires
            old(self)@.wf(),
        ensures
            final(self)@.wf(),
            final(self)@ == old(self)@.deleted(),
    {
        let mut cs = chars_of(self.text.as_str());
        if self.cursor >= cs.len() {
            return;
        }
        cs.remove(self.cursor);
        let n: usize = cs.len();
        self.text = string_of(&cs, 0, n);
        assert(cs@.subrange(0, n as int) =~= cs@);
    }

    /// Moves the cursor one to the left.
    pub fn left(&mut self)
        requires
            old(self)@.wf(),
        ensures
            final(self)@.wf(),
            final(self)@ == old(self)@.moved_left(),
    {
        if self.cursor > 0 {
            self.cursor -= 1;
        }
    }

    /// Moves the cursor one to the right.
    pub fn right(&mut self)
        requires
            old(self)@.wf(),
        ensures
            final(self)@.wf(),
            final(self)@ == old(self)@.moved_right(),
    {
        if self.cursor < self.text.as_str().unicode_len() {
            self.cursor += 1;
        }
    }

    /// Moves the cursor to the start.
    pub fn home(&mut self)
        ensures
            final(self)@.wf(),
            final(self)@ == old(self)@.at_home(),
    {
        self.cursor = 0;
    }

    /// Moves the cursor to the end.
    pub fn end(&mut self)
        ensures
            final(self)@.wf(),
            final(self)@ == old(self)@.at_end(),
    {
        self.cursor = self.text.as_str().unicode_len();
    }
}

} // verus!
