//! The text buffer in which an entry is composed: the text, split at the cursor.

use crate::text::{chars_of, push_chars};
use std::collections::VecDeque;
use vstd::prelude::*;

verus! {

/// The character that the display text shows at the cursor.
pub const CURSOR_MARKER: char = '\u{2588}';

/// What an [`EditBuffer`] holds: the text before the cursor and the text from the
/// cursor on. The cursor's position is the length of the first.
pub struct BufferView {
    pub before_cursor: Seq<char>,
    pub after_cursor: Seq<char>,
}

impl BufferView {
    /// The whole text, without regard to the cursor.
    pub open spec fn text(self) -> Seq<char> {
        self.before_cursor + self.after_cursor
    }

    /// The cursor's position, counted in characters from the start of the text.
    pub open spec fn cursor(self) -> nat {
        self.before_cursor.len()
    }

    /// The buffer with nothing in it.
    pub open spec fn empty() -> BufferView {
        BufferView { before_cursor: Seq::empty(), after_cursor: Seq::empty() }
    }

    /// Where the cursor of a buffer made from a text of `len` characters stands:
    /// at `cursor_index`, except that 0 and every index past the end mean the end.
    pub open spec fn cut(len: nat, cursor_index: nat) -> nat {
        if cursor_index == 0 || cursor_index > len {
            len
        } else {
            cursor_index
        }
    }

    /// The buffer made from `text` with the cursor asked for at `cursor_index`.
    pub open spec fn from_text(text: Seq<char>, cursor_index: nat) -> BufferView {
        let at = Self::cut(text.len(), cursor_index) as int;
        BufferView { before_cursor: text.take(at), after_cursor: text.skip(at) }
    }

    /// After typing `c`: it goes in before the cursor.
    pub open spec fn inserted(self, c: char) -> BufferView {
        BufferView { before_cursor: self.before_cursor.push(c), after_cursor: self.after_cursor }
    }

    /// After a backspace: the character before the cursor is gone, if there was one.
    pub open spec fn deleted_before(self) -> BufferView {
        if self.before_cursor.len() > 0 {
            BufferView {
                before_cursor: self.before_cursor.drop_last(),
                after_cursor: self.after_cursor,
            }
        } else {
            self
        }
    }

    /// After a step right: the cursor has passed one character, if one was ahead.
    pub open spec fn moved_forward(self) -> BufferView {
        if self.after_cursor.len() > 0 {
            BufferView {
                before_cursor: self.before_cursor.push(self.after_cursor.first()),
                after_cursor: self.after_cursor.drop_first(),
            }
        } else {
            self
        }
    }

    /// After a step left: the cursor has gone back one character, if one was behind.
    pub open spec fn moved_backward(self) -> BufferView {
        if self.before_cursor.len() > 0 {
            BufferView {
                before_cursor: self.before_cursor.drop_last(),
                after_cursor: seq![self.before_cursor.last()] + self.after_cursor,
            }
        } else {
            self
        }
    }

    /// The text as shown while editing: the marker stands at the cursor, in the place of
    /// the character under it if there is one.
    pub open spec fn display_text(self) -> Seq<char> {
        if self.after_cursor.len() > 0 {
            self.before_cursor.push(CURSOR_MARKER) + self.after_cursor.drop_first()
        } else {
            self.before_cursor.push(CURSOR_MARKER)
        }
    }
}

/// A text with a cursor in it. Typing, deleting and moving the cursor by one
/// character each take constant time.
#[derive(Debug, PartialEq, Eq)]
pub struct EditBuffer {
    before: Vec<char>,
    after: VecDeque<char>,
}

impl View for EditBuffer {
    type V = BufferView;

    closed spec fn view(&self) -> BufferView {
        BufferView { before_cursor: self.before@, after_cursor: self.after@ }
    }
}

impl EditBuffer {
    /// A buffer with no text.
    pub fn create_empty() -> (buffer: EditBuffer)
        ensures
            buffer@ == BufferView::empty(),
    {
        EditBuffer { before: Vec::new(), after: VecDeque::new() }
    }

    /// A buffer that holds `text`, with the cursor before the character at
    /// `cursor_index`. An index of 0 asks for the end of the text, so that editing
    /// resumes where it stopped, and so does an index past the end.
    pub fn create_from(text: &str, cursor_index: usize) -> (buffer: EditBuffer)
        ensures
            buffer@ == BufferView::from_text(text@, cursor_index as nat),
            buffer@.text() == text@,
    {
        let chars = chars_of(text);
        let n = chars.len();
        let at = if cursor_index == 0 || cursor_index > n {
            n
        } else {
            cursor_index
        };
        let mut before: Vec<char> = Vec::new();
        let mut after: VecDeque<char> = VecDeque::new();
        let mut i: usize = 0;
        while i < n
            invariant
                n == chars.len(),
                at <= n,
                i <= n,
                before@ == chars@.take(if i < at { i as int } else { at as int }),
                after@ == chars@.subrange(at as int, if i < at { at as int } else { i as int }),
            decreases n - i,
        {
            if i < at {
                before.push(chars[i]);
            } else {
                after.push_back(chars[i]);
            }
            i += 1;
        }
        EditBuffer { before, after }
    }

    /// Types `c` at the cursor.
    pub fn insert_char(&mut self, c: char)
        ensures
            final(self)@ == old(self)@.inserted(c),
    {
        self.before.push(c);
    }

    /// Deletes the character before the cursor. Says whether there was one; at the
    /// start of the text nothing changes.
    pub fn delete_before(&mut self) -> (deleted: bool)
        ensures
            final(self)@ == old(self)@.deleted_before(),
            deleted == (old(self)@.before_cursor.len() > 0),
    {
        match self.before.pop() {
            Some(_) => true,
            None => false,
        }
    }

    /// Moves the cursor one character towards the end. Says whether it moved; at the
    /// end of the text nothing changes.
    pub fn move_cursor_forward(&mut self) -> (moved: bool)
        ensures
            final(self)@ == old(self)@.moved_forward(),
            moved == (old(self)@.after_cursor.len() > 0),
    {
        match self.after.pop_front() {
            Some(c) => {
                self.before.push(c);
                true
            },
            None => false,
        }
    }

    /// Moves the cursor one character towards the start. Says whether it moved; at the
    /// start of the text nothing changes.
    pub fn move_cursor_backward(&mut self) -> (moved: bool)
        ensures
            final(self)@ == old(self)@.moved_backward(),
            moved == (old(self)@.before_cursor.len() > 0),
    {
        match self.before.pop() {
            Some(c) => {
                self.after.push_front(c);
                true
            },
            None => false,
        }
    }

    /// The cursor's position, counted in characters from the start of the text.
    pub fn cursor(&self) -> (at: usize)
        ensures
            at == self@.cursor(),
            at <= self@.text().len(),
    {
        self.before.len()
    }

    /// Whether the buffer holds no text.
    pub fn is_empty(&self) -> (b: bool)
        ensures
            b == (self@.text().len() == 0),
    {
        self.before.len() == 0 && self.after.len() == 0
    }

    /// Whether the text holds the character `c`, on either side of the cursor.
    pub fn contains(&self, c: char) -> (found: bool)
        ensures
            found == self@.text().contains(c),
    {
        let mut i: usize = 0;
        while i < self.before.len()
            invariant
                i <= self.before.len(),
                forall|k: int| 0 <= k < i ==> self.before@[k] != c,
            decreases self.before.len() - i,
        {
            if self.before[i] == c {
                assert(self@.text()[i as int] == c);
                return true;
            }
            i += 1;
        }
        let mut j: usize = 0;
        while j < self.after.len()
            invariant
                j <= self.after.len(),
                forall|k: int| 0 <= k < self.before.len() ==> self.before@[k] != c,
                forall|k: int| 0 <= k < j ==> self.after@[k] != c,
            decreases self.after.len() - j,
        {
            if self.after[j] == c {
                assert(self@.text()[self.before.len() + j] == c);
                return true;
            }
            j += 1;
        }
        false
    }

    /// The text as it is stored when editing ends.
    pub fn to_text(&self) -> (text: String)
        ensures
            text@ == self@.text(),
            text@.len() == self@.before_cursor.len() + self@.after_cursor.len(),
    {
        let mut text = String::new();
        push_chars(&mut text, &self.before);
        let mut i: usize = 0;
        while i < self.after.len()
            invariant
                i <= self.after.len(),
                text@ == self.before@ + self.after@.take(i as int),
            decreases self.after.len() - i,
        {
            text.push(self.after[i]);
            i += 1;
        }
        text
    }

    /// The text as it is shown while editing, with [`CURSOR_MARKER`] at the cursor. The
    /// marker covers the character under the cursor; at the end of the text it is
    /// appended.
    pub fn to_display_text(&self) -> (text: String)
        ensures
            text@ == self@.display_text(),
    {
        let mut text = String::new();
        push_chars(&mut text, &self.before);
        text.push(CURSOR_MARKER);
        let mut i: usize = 1;
        while i < self.after.len()
            invariant
                1 <= i,
                i <= self.after.len() || self.after.len() == 0,
                self.after.len() > 0 ==> text@ == self.before@.push(CURSOR_MARKER)
                    + self.after@.subrange(1, i as int),
                self.after.len() == 0 ==> text@ == self.before@.push(CURSOR_MARKER),
            decreases self.after.len() - i,
        {
            text.push(self.after[i]);
            i += 1;
        }
        text
    }
}

/// Moving the cursor changes neither the text nor its length, and wherever the cursor
/// goes it stays within the text.
pub proof fn lemma_cursor_moves_keep_text(v: BufferView)
    ensures
        v.moved_forward().text() == v.text(),
        v.moved_backward().text() == v.text(),
        v.cursor() <= v.text().len(),
        v.moved_forward().cursor() <= v.text().len(),
        v.text().len() == v.before_cursor.len() + v.after_cursor.len(),
{
}

/// A step forwards and then a step back, or the other way round, leaves the buffer as
/// it was, wherever the first step could be made.
pub proof fn lemma_cursor_steps_undo(v: BufferView)
    ensures
        v.after_cursor.len() > 0 ==> v.moved_forward().moved_backward() == v,
        v.before_cursor.len() > 0 ==> v.moved_backward().moved_forward() == v,
{
    if v.after_cursor.len() > 0 {
        let w = v.moved_forward().moved_backward();
        assert(w.before_cursor =~= v.before_cursor);
        assert(w.after_cursor =~= v.after_cursor);
    }
    if v.before_cursor.len() > 0 {
        let w = v.moved_backward().moved_forward();
        assert(w.before_cursor =~= v.before_cursor);
        assert(w.after_cursor =~= v.after_cursor);
    }
}

/// A buffer made with cursor index 0 holds the whole text before the cursor: the
/// cursor stands at the end, and it can step back exactly if the text is not empty.
pub proof fn lemma_from_text_at_zero(text: Seq<char>)
    ensures
        BufferView::from_text(text, 0).text() == text,
        BufferView::from_text(text, 0).before_cursor == text,
        BufferView::from_text(text, 0).after_cursor.len() == 0,
        BufferView::from_text(text, 0).moved_backward() != BufferView::from_text(text, 0)
            <==> text.len() > 0,
{
}

/// Typing a character and deleting it again leaves the buffer as it was, and deleting
/// at the start of the text does nothing.
pub proof fn lemma_delete_undoes_insert(v: BufferView, c: char)
    ensures
        v.inserted(c).deleted_before() == v,
        v.before_cursor.len() == 0 ==> v.deleted_before() == v,
        v.inserted(c).text().len() == v.text().len() + 1,
{
    let w = v.inserted(c).deleted_before();
    assert(w.before_cursor =~= v.before_cursor);
}

} // verus!
