//! The text buffer and its cursor.
use vstd::prelude::*;
use crate::command::Commands;
use crate::cursor::{moved, moved_cursor};
use crate::text::{
    chars_of, clamped_col, in_bounds, last_row, lemma_delete_char, lemma_delete_char_above,
    lemma_insert_char, lemma_insert_newline, lemma_merge_lines, lemma_newlines_bound,
    lemma_split_at, line_count, line_extent, line_len, newlines, offset, NEWLINE,
};

verus! {

/// A text and a cursor in it. `col` and `row` count from 0.
#[derive(Debug)]
pub struct Buffer {
    pub text: Vec<char>,
    pub col: usize,
    pub row: usize,
}

/// What a buffer holds, as mathematics.
pub struct BufferView {
    pub text: Seq<char>,
    pub col: nat,
    pub row: nat,
}

impl BufferView {
    /// The cursor is on a line that the text has.
    pub open spec fn wf(self) -> bool {
        self.row < line_count(self.text)
    }

    /// The cursor is on a line that the text has, and on that line or just
    /// behind its last character.
    pub open spec fn cursor_in_bounds(self) -> bool {
        in_bounds(self.text, self.col, self.row)
    }

    /// The column that an edit takes place at: the cursor's, or the end of
    /// its line where the cursor stands beyond it.
    pub open spec fn edit_col(self) -> nat {
        clamped_col(self.text, self.col, self.row)
    }

    /// The index in the text that an edit takes place at.
    pub open spec fn cursor_offset(self) -> int {
        offset(self.text, self.col, self.row)
    }

    /// The buffer after `c` was put in at the cursor. The cursor moves behind
    /// it: one column to the right, or to the beginning of the next line
    /// where `c` is a newline.
    pub open spec fn after_insert(self, c: char) -> BufferView {
        BufferView {
            text: self.text.insert(self.cursor_offset(), c),
            col: if c == NEWLINE { 0 } else { self.edit_col() + 1 },
            row: if c == NEWLINE { self.row + 1 } else { self.row },
        }
    }

    /// The buffer after what stood before the cursor was taken out.
    ///
    /// Behind a character of its line, the cursor loses that character and
    /// moves one column to the left. At the beginning of a line that is not
    /// the first, the newline before it goes, which joins the line to the one
    /// above, and the cursor moves to where that line ended. At the beginning
    /// of the text nothing changes.
    pub open spec fn after_delete(self) -> BufferView {
        if self.edit_col() > 0 {
            BufferView {
                text: self.text.remove(self.cursor_offset() - 1),
                col: (self.edit_col() - 1) as nat,
                row: self.row,
            }
        } else if self.row > 0 {
            BufferView {
                text: self.text.remove(self.cursor_offset() - 1),
                col: line_len(self.text, (self.row - 1) as nat),
                row: (self.row - 1) as nat,
            }
        } else {
            BufferView { text: self.text, col: 0, row: 0 }
        }
    }

    /// The buffer after `n` deletions, one after the other.
    pub open spec fn after_deletes(self, n: nat) -> BufferView
        decreases n,
    {
        if n == 0 {
            self
        } else {
            self.after_deletes((n - 1) as nat).after_delete()
        }
    }

    /// The buffer after the cursor moved.
    pub open spec fn after_move(self, direction: Commands) -> BufferView {
        BufferView {
            text: self.text,
            col: moved(self.col, self.row, self.text, direction).0,
            row: moved(self.col, self.row, self.text, direction).1,
        }
    }

    /// An edit takes place inside the text or at its end.
    pub proof fn lemma_offset_in_text(self)
        requires
            self.wf(),
        ensures
            0 <= self.cursor_offset() <= self.text.len(),
    {
        lemma_split_at(self.text, self.row, self.edit_col());
    }

    /// After an insertion the cursor stands on the text, one index further
    /// than the edit took place. A character other than a newline makes the
    /// cursor's line one longer; a newline splits it at the cursor.
    pub proof fn lemma_after_insert(self, c: char)
        requires
            self.wf(),
        ensures
            0 <= self.cursor_offset() <= self.text.len(),
            self.after_insert(c).wf(),
            self.after_insert(c).cursor_in_bounds(),
            self.after_insert(c).cursor_offset() == self.cursor_offset() + 1,
            c != NEWLINE ==> line_count(self.after_insert(c).text) == line_count(self.text)
                && line_len(self.after_insert(c).text, self.row) == line_len(self.text, self.row)
                + 1,
            c == NEWLINE ==> line_count(self.after_insert(c).text) == line_count(self.text) + 1
                && line_len(self.after_insert(c).text, self.row) == self.edit_col() && line_len(
                self.after_insert(c).text,
                self.row + 1,
            ) == line_len(self.text, self.row) - self.edit_col(),
    {
        if c == NEWLINE {
            lemma_insert_newline(self.text, self.row, self.edit_col());
        } else {
            lemma_insert_char(self.text, self.row, self.edit_col(), c);
        }
    }

    /// After a deletion the cursor stands on the text. Within a line, the
    /// line is one shorter. At the beginning of a line that is not the first,
    /// a newline went, the line above holds both lines, and the cursor stands
    /// where the line above ended.
    pub proof fn lemma_after_delete(self)
        requires
            self.wf(),
        ensures
            self.after_delete().wf(),
            self.after_delete().cursor_in_bounds(),
            self.edit_col() > 0 || self.row > 0 ==> 0 < self.cursor_offset() <= self.text.len()
                && self.after_delete().cursor_offset() == self.cursor_offset() - 1,
            self.edit_col() > 0 ==> self.text[self.cursor_offset() - 1] != NEWLINE && line_count(
                self.after_delete().text,
            ) == line_count(self.text) && line_len(self.after_delete().text, self.row) == line_len(
                self.text,
                self.row,
            ) - 1,
            self.edit_col() == 0 && self.row > 0 ==> self.text[self.cursor_offset() - 1] == NEWLINE
                && line_count(self.after_delete().text) == line_count(self.text) - 1 && line_len(
                self.after_delete().text,
                (self.row - 1) as nat,
            ) == line_len(self.text, (self.row - 1) as nat) + line_len(self.text, self.row),
    {
        if self.edit_col() > 0 {
            lemma_delete_char(self.text, self.row, self.edit_col());
        } else if self.row > 0 {
            lemma_merge_lines(self.text, self.row);
        }
    }

    /// Deletions within a line, from a cursor that stands on it, take out
    /// the characters before the cursor one by one: after `n` of them the `n`
    /// characters before the cursor are gone, the cursor stands `n` columns
    /// further left on its line, and the line above is as it was.
    pub proof fn lemma_after_deletes(self, n: nat)
        requires
            self.wf(),
            self.cursor_in_bounds(),
            n <= self.col,
        ensures
            n <= self.cursor_offset() <= self.text.len(),
            self.after_deletes(n).wf(),
            self.after_deletes(n).cursor_in_bounds(),
            self.after_deletes(n).row == self.row,
            self.after_deletes(n).col == self.col - n,
            self.after_deletes(n).cursor_offset() == self.cursor_offset() - n,
            self.after_deletes(n).text == self.text.take(self.cursor_offset() - n)
                + self.text.skip(self.cursor_offset()),
            line_count(self.after_deletes(n).text) == line_count(self.text),
            line_len(self.after_deletes(n).text, self.row) == line_len(self.text, self.row) - n,
            self.row > 0 ==> line_len(self.after_deletes(n).text, (self.row - 1) as nat)
                == line_len(self.text, (self.row - 1) as nat),
        decreases n,
    {
        let p = self.cursor_offset();
        self.lemma_offset_in_text();
        if n == 0 {
            assert(self.text =~= self.text.take(p) + self.text.skip(p));
        } else {
            let before = self.after_deletes((n - 1) as nat);
            self.lemma_after_deletes((n - 1) as nat);
            before.lemma_after_delete();
            if self.row > 0 {
                lemma_delete_char_above(
                    before.text,
                    before.row,
                    before.col,
                    (self.row - 1) as nat,
                );
            }
            assert(before.text.remove(before.cursor_offset() - 1) =~= self.text.take(p - n)
                + self.text.skip(p));
        }
    }

    /// A move keeps the cursor on a line that the text has. It keeps the
    /// cursor on its line too, unless it goes up or down to a line that is
    /// shorter than the cursor's column.
    pub proof fn lemma_after_move(self, direction: Commands)
        requires
            self.wf(),
        ensures
            self.after_move(direction).wf(),
            direction == Commands::Right ==> self.after_move(direction).cursor_in_bounds(),
            self.cursor_in_bounds() && direction != Commands::Up && direction != Commands::Down
                ==> self.after_move(direction).cursor_in_bounds(),
            self.col <= line_len(self.text, self.after_move(direction).row) ==> self.after_move(
                direction,
            ).cursor_in_bounds(),
    {
    }
}

impl View for Buffer {
    type V = BufferView;

    open spec fn view(&self) -> BufferView {
        BufferView { text: self.text@, col: self.col as nat, row: self.row as nat }
    }
}

impl Buffer {
    /// A buffer that holds `content`, with the cursor at its beginning.
    pub fn new(content: &str) -> (b: Buffer)
        ensures
            b@ == (BufferView { text: content@, col: 0, row: 0 }),
            b@.wf(),
            b@.cursor_in_bounds(),
    {
        Buffer { text: chars_of(content), col: 0, row: 0 }
    }

    /// A buffer that holds `content`, with the cursor at `(col, row)` or as
    /// near to it as the text allows: on the last line where `row` lies
    /// beyond it, and at the end of its line where `col` lies beyond that.
    pub fn with_cursor(content: &str, col: usize, row: usize) -> (b: Buffer)
        ensures
            b@.text == content@,
            b@.row == if row <= newlines(content@) { row as nat } else { newlines(content@) },
            b@.col == clamped_col(content@, col as nat, b@.row),
            b@.wf(),
            b@.cursor_in_bounds(),
    {
        let text = chars_of(content);
        let last = last_row(text.as_slice());
        let row = if row <= last { row } else { last };
        let extent = line_extent(text.as_slice(), row);
        let col = if col <= extent.1 { col } else { extent.1 };
        Buffer { text, col, row }
    }

    /// Moves the cursor. The text stays as it is.
    pub fn move_cursor(&mut self, direction: Commands)
        requires
            old(self)@.wf(),
        ensures
            final(self)@ == old(self)@.after_move(direction),
            final(self)@.wf(),
    {
        proof {
            self@.lemma_after_move(direction);
        }
        let r = moved_cursor(self.col, self.row, self.text.as_slice(), direction);
        self.col = r.0;
        self.row = r.1;
    }

    /// Puts `c` in at the cursor and moves the cursor behind it.
    pub fn insert_char(&mut self, c: char)
        requires
            old(self)@.wf(),
        ensures
            final(self)@ == old(self)@.after_insert(c),
            final(self)@.wf(),
            final(self)@.cursor_in_bounds(),
    {
        let extent = line_extent(self.text.as_slice(), self.row);
        let at = if self.col <= extent.1 { self.col } else { extent.1 };
        let length = self.text.len();
        proof {
            lemma_newlines_bound(self.text@);
            self@.lemma_after_insert(c);
        }
        self.text.insert(extent.0 + at, c);
        let longer = self.text.len();
        assert(longer == length + 1);
        if c == NEWLINE {
            self.row = self.row + 1;
            self.col = 0;
        } else {
            self.col = at + 1;
        }
    }

    /// Takes out what stands before the cursor.
    pub fn delete_before_cursor(&mut self)
        requires
            old(self)@.wf(),
        ensures
            final(self)@ == old(self)@.after_delete(),
            final(self)@.wf(),
            final(self)@.cursor_in_bounds(),
    {
        let extent = line_extent(self.text.as_slice(), self.row);
        let at = if self.col <= extent.1 { self.col } else { extent.1 };
        let length = self.text.len();
        assert(extent.0 + at <= length);
        proof {
            self@.lemma_after_delete();
        }
        if at > 0 {
            self.text.remove(extent.0 + at - 1);
            self.col = at - 1;
        } else if self.row > 0 {
            let above = line_extent(self.text.as_slice(), self.row - 1);
            self.text.remove(extent.0 - 1);
            self.row = self.row - 1;
            self.col = above.1;
        } else {
            self.col = 0;
        }
    }
}

} // verus!
