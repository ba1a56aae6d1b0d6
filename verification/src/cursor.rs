//! Cursor movement over a text.
//!
//! There are two readings of a text here. `hjkl` takes a string as it is,
//! reads its lines as `str::lines` does and measures them as `str::len` does:
//! a newline at the very end of the text ends the last line and begins no
//! further one, a carriage return directly before a newline belongs to the
//! line ending, and a column is a byte. The buffer holds its text as
//! characters and reads it with every newline beginning a line, so that the
//! cursor can stand behind a newline just typed; `moved` is its rule.
use vstd::prelude::*;
use crate::command::Commands;
use vstd::string::StringSliceAdditionalSpecFns;
use crate::text::{
    byte_text, bytes_of, last_row, lemma_last_line, lemma_line_layout, line_extent, line_len, line_start,
    newlines, NEWLINE,
};

verus! {

/// The carriage return.
pub const RETURN: char = '\r';

/// The last column that a move to the right reaches on a line of length
/// `len`: its last character, or column 0 on an empty line.
pub open spec fn last_col(len: nat) -> nat {
    if len == 0 { 0 } else { (len - 1) as nat }
}

/// Where a movement takes the buffer's cursor from `(col, row)` over its text
/// `t`.
///
/// Left and up stop at 0. Right stops at the last character of the line. Down
/// stops at the last line. Up and down keep the column as it is, also where
/// the line they reach is shorter. Any other command leaves the cursor.
pub open spec fn moved(col: nat, row: nat, t: Seq<char>, direction: Commands) -> (nat, nat) {
    match direction {
        Commands::Left => (if col == 0 { 0 } else { (col - 1) as nat }, row),
        Commands::Right => {
            let width = last_col(line_len(t, row));
            (if col >= width { width } else { col + 1 }, row)
        },
        Commands::Up => (col, if row == 0 { 0 } else { (row - 1) as nat }),
        Commands::Down => (col, if row >= newlines(t) { newlines(t) } else { row + 1 }),
        _ => (col, row),
    }
}

/// Whether a text ends in a newline.
pub open spec fn ends_in_newline(t: Seq<char>) -> bool {
    t.len() > 0 && t.last() == NEWLINE
}

/// The index of the last line of a string as `str::lines` yields them: a
/// newline at the very end begins no further line. 0 for a string without
/// lines.
pub open spec fn read_last_row(t: Seq<char>) -> nat {
    if ends_in_newline(t) { (newlines(t) - 1) as nat } else { newlines(t) }
}

/// The length of line `row` of a text as `str::lines` yields it: without
/// its newline, and without a carriage return directly before that newline.
/// 0 where the text has no such line. Over the bytes of a string this is the
/// line's length in bytes.
pub open spec fn read_len(t: Seq<char>, row: nat) -> nat {
    let len = line_len(t, row);
    if row < newlines(t) && len > 0 && t[line_start(t, row) + len - 1] == RETURN {
        (len - 1) as nat
    } else {
        len
    }
}

/// Where a movement takes a cursor from `(col, row)` over a string read line
/// by line.
///
/// Left and up stop at 0. Right stops at the last character of the line as
/// read, or at column 0 where the line is empty or not there. Down stops at
/// the last line as read. Up and down keep the column. Any other command
/// leaves the cursor.
pub open spec fn stepped(col: nat, row: nat, t: Seq<char>, direction: Commands) -> (nat, nat) {
    match direction {
        Commands::Left => (if col == 0 { 0 } else { (col - 1) as nat }, row),
        Commands::Right => {
            let width = last_col(read_len(t, row));
            (if col >= width { width } else { col + 1 }, row)
        },
        Commands::Up => (col, if row == 0 { 0 } else { (row - 1) as nat }),
        Commands::Down => (col, if row >= read_last_row(t) { read_last_row(t) } else { row + 1 }),
        _ => (col, row),
    }
}

/// Moves the buffer's cursor over its text.
pub fn moved_cursor(xpos: usize, ypos: usize, content: &[char], direction: Commands) -> (r: (
    usize,
    usize,
))
    ensures
        (r.0 as nat, r.1 as nat) == moved(xpos as nat, ypos as nat, content@, direction),
{
    match direction {
        Commands::Left => if xpos == 0 { (0, ypos) } else { (xpos - 1, ypos) },
        Commands::Down => {
            let length = last_row(content);
            if ypos >= length { (xpos, length) } else { (xpos, ypos + 1) }
        },
        Commands::Up => if ypos == 0 { (xpos, 0) } else { (xpos, ypos - 1) },
        Commands::Right => {
            let extent = line_extent(content, ypos);
            let width = if extent.1 == 0 { 0 } else { extent.1 - 1 };
            if xpos >= width { (width, ypos) } else { (xpos + 1, ypos) }
        },
        _ => (xpos, ypos),
    }
}

/// The index of the last line of a text read line by line.
pub fn last_row_read(content: &[char]) -> (n: usize)
    ensures
        n == read_last_row(content@),
{
    let count = last_row(content);
    if content.len() > 0 && content[content.len() - 1] == NEWLINE {
        count - 1
    } else {
        count
    }
}

/// The length of line `row` of a text read line by line.
pub fn line_len_read(content: &[char], row: usize) -> (n: usize)
    ensures
        n == read_len(content@, row as nat),
{
    let extent = line_extent(content, row);
    let length = content.len();
    assert(extent.0 + extent.1 <= length);
    proof {
        if row < newlines(content@) {
            lemma_line_layout(content@, row as nat);
            lemma_line_layout(content@, (row + 1) as nat);
        } else {
            lemma_last_line(content@, row as nat);
        }
    }
    if extent.1 > 0 && extent.0 + extent.1 < length && content[extent.0 + extent.1 - 1]
        == RETURN {
        extent.1 - 1
    } else {
        extent.1
    }
}

/// Moves a cursor over a string read line by line, with columns counted in
/// bytes.
pub fn hjkl(xpos: usize, ypos: usize, content: &str, direction: Commands) -> (r: (usize, usize))
    ensures
        (r.0 as nat, r.1 as nat) == stepped(
            xpos as nat,
            ypos as nat,
            byte_text(content.spec_bytes()),
            direction,
        ),
        ypos <= read_last_row(byte_text(content.spec_bytes())) ==> r.1 <= read_last_row(
            byte_text(content.spec_bytes()),
        ),
        direction == Commands::Right ==> r.0 <= last_col(
            read_len(byte_text(content.spec_bytes()), ypos as nat),
        ),
{
    match direction {
        Commands::Left => if xpos == 0 { (0, ypos) } else { (xpos - 1, ypos) },
        Commands::Down => {
            let chars = bytes_of(content);
            let length = last_row_read(chars.as_slice());
            if ypos >= length { (xpos, length) } else { (xpos, ypos + 1) }
        },
        Commands::Up => if ypos == 0 { (xpos, 0) } else { (xpos, ypos - 1) },
        Commands::Right => {
            let chars = bytes_of(content);
            let width = line_len_read(chars.as_slice(), ypos);
            let width = if width == 0 { 0 } else { width - 1 };
            if xpos >= width { (width, ypos) } else { (xpos + 1, ypos) }
        },
        _ => (xpos, ypos),
    }
}

} // verus!
