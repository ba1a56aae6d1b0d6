//! What holds of the editor over every state and every key.
use vstd::prelude::*;
use vstd::string::StringSliceAdditionalSpecFns;
use crate::buffer::BufferView;
use crate::command::{Commands, Mode, ENTER, ESCAPE};
use crate::cursor::{
    ends_in_newline, last_col, moved, read_last_row, read_len, stepped, RETURN,
};
use crate::editor::{answer_of, Action, EditorView, Key};
use crate::text::{byte_text, lemma_line_layout, line_count, line_len, newlines, NEWLINE};

verus! {

/// A step to the left and then one to the right, from a column that is
/// neither the first nor behind the last character of its line, ends on the
/// column it began on. So does a step to the right and then one to the left,
/// from a column before the last character. This holds of the buffer's rule
/// over its characters and of `hjkl`'s rule over a string's bytes, where
/// "character" reads "byte".
pub proof fn law_left_right_inverse(col: nat, row: nat, t: Seq<char>)
    ensures
        0 < col < line_len(t, row) ==> ({
            let there = moved(col, row, t, Commands::Left);
            moved(there.0, there.1, t, Commands::Right) == (col, row)
        }),
        col < last_col(line_len(t, row)) ==> ({
            let there = moved(col, row, t, Commands::Right);
            moved(there.0, there.1, t, Commands::Left) == (col, row)
        }),
        0 < col < read_len(t, row) ==> ({
            let there = stepped(col, row, t, Commands::Left);
            stepped(there.0, there.1, t, Commands::Right) == (col, row)
        }),
        col < last_col(read_len(t, row)) ==> ({
            let there = stepped(col, row, t, Commands::Right);
            stepped(there.0, there.1, t, Commands::Left) == (col, row)
        }),
{
}

/// Over a string read line by line, a movement keeps the cursor on a line
/// that the string has, and a move to the right ends on the line: at its
/// last character, or at column 0 where it is empty.
pub proof fn law_stepped_stays_on_lines(col: nat, row: nat, t: Seq<char>, direction: Commands)
    ensures
        row <= read_last_row(t) ==> stepped(col, row, t, direction).1 <= read_last_row(t),
        direction == Commands::Down ==> stepped(col, row, t, direction).1 <= read_last_row(t),
        direction == Commands::Right ==> stepped(col, row, t, direction).0 <= last_col(
            read_len(t, row),
        ),
        read_len(t, row) <= line_len(t, row),
        read_last_row(t) <= newlines(t),
{
}

/// Of a string of ASCII alone the bytes are the characters: there a column
/// in bytes is a column in characters.
pub proof fn law_ascii_bytes_are_chars(s: &str)
    requires
        vstd::string::is_ascii(s),
    ensures
        byte_text(s.spec_bytes()) == s@,
{
    vstd::utf8::is_ascii_chars_encode_utf8(s@);
    assert(byte_text(s.spec_bytes()) =~= s@);
}

/// The two readings of a text move the cursor alike where the text holds no
/// carriage return and does not end in a newline.
pub proof fn law_readings_agree(col: nat, row: nat, t: Seq<char>, direction: Commands)
    requires
        !ends_in_newline(t),
        forall|i: int| 0 <= i < t.len() ==> t[i] != RETURN,
    ensures
        stepped(col, row, t, direction) == moved(col, row, t, direction),
{
    if row < newlines(t) {
        lemma_line_layout(t, row);
        lemma_line_layout(t, row + 1);
    }
}

/// What each half of a cycle does to the cursor. Taking a key in keeps the
/// cursor on a line that the text has, and on its line if it stood there.
/// Applying the command keeps it on a line that the text has, and on its
/// line unless the command goes up or down to a shorter one.
pub proof fn lemma_cycle_halves(e: EditorView, key: Option<Key>)
    requires
        e.wf(),
    ensures
        e.after_input(key).wf(),
        e.buffer.cursor_in_bounds() ==> e.after_input(key).buffer.cursor_in_bounds(),
        e.after_step(key).wf(),
        e.after_input(key).buffer.cursor_in_bounds() && !overshoots(e, key) ==> e.after_step(
            key,
        ).buffer.cursor_in_bounds(),
{
    let mid = e.after_input(key);
    match key {
        Some(Key::Char(c)) => e.buffer.lemma_after_insert(c),
        Some(Key::Enter) => e.buffer.lemma_after_insert(ENTER),
        Some(Key::Backspace) => e.buffer.lemma_after_delete(),
        _ => {},
    }
    match mid.command() {
        Some(d) => mid.buffer.lemma_after_move(d),
        None => {},
    }
}

/// A cycle keeps the cursor on a line that the text has, and keeps what
/// holds between cycles.
pub proof fn law_step_keeps_settled(e: EditorView, key: Option<Key>)
    requires
        e.wf(),
    ensures
        e.after_step(key).wf(),
        e.settled() ==> e.after_step(key).settled(),
        e.after_step(key).exit_needed == (e.exit_needed || e.step_action(key) == Action::Quit),
        e.after_step(key).buffer.text != e.buffer.text ==> e.mode == Mode::Insert,
{
    lemma_cycle_halves(e, key);
}

/// One cycle for each of any keys keeps the cursor on a line that the text
/// has, and keeps what holds between cycles.
pub proof fn law_steps_keep_settled(e: EditorView, keys: Seq<Option<Key>>)
    requires
        e.wf(),
    ensures
        e.after_steps(keys).wf(),
        e.settled() ==> e.after_steps(keys).settled(),
    decreases keys.len(),
{
    if keys.len() > 0 {
        law_steps_keep_settled(e, keys.drop_last());
        law_step_keeps_settled(e.after_steps(keys.drop_last()), keys.last());
    }
}

/// Whether a cycle with `key` goes up or down to a line that is shorter than
/// the cursor's column: the one way for the cursor to leave its line.
pub open spec fn overshoots(e: EditorView, key: Option<Key>) -> bool {
    (e.after_input(key).command() == Some(Commands::Up) || e.after_input(key).command() == Some(
        Commands::Down,
    )) && e.after_input(key).buffer.col > line_len(
        e.after_step(key).buffer.text,
        e.after_step(key).buffer.row,
    )
}

/// A cycle keeps a cursor that stands on its line on its line, unless the
/// command goes up or down to a line that is shorter than the cursor's
/// column.
pub proof fn law_step_keeps_cursor_on_line(e: EditorView, key: Option<Key>)
    requires
        e.wf(),
        e.buffer.cursor_in_bounds(),
        !overshoots(e, key),
    ensures
        e.after_step(key).buffer.cursor_in_bounds(),
{
    lemma_cycle_halves(e, key);
}

/// Cycles keep a cursor that stands on its line on its line, as long as none
/// of them goes up or down to a line that is shorter than the cursor's
/// column.
pub proof fn law_steps_keep_cursor_on_line(e: EditorView, keys: Seq<Option<Key>>)
    requires
        e.wf(),
        e.buffer.cursor_in_bounds(),
        forall|i: int|
            0 <= i < keys.len() ==> !overshoots(#[trigger] e.after_steps(keys.take(i)), keys[i]),
    ensures
        e.after_steps(keys).wf(),
        e.after_steps(keys).buffer.cursor_in_bounds(),
    decreases keys.len(),
{
    if keys.len() > 0 {
        let front = keys.drop_last();
        assert forall|i: int| 0 <= i < front.len() implies !overshoots(
            #[trigger] e.after_steps(front.take(i)),
            front[i],
        ) by {
            assert(front.take(i) =~= keys.take(i));
        }
        law_steps_keep_cursor_on_line(e, front);
        assert(keys.take(keys.len() - 1) =~= front);
        law_step_keeps_settled(e.after_steps(front), keys.last());
        law_step_keeps_cursor_on_line(e.after_steps(front), keys.last());
    }
}

/// Typing `s` in Insert mode puts `s` into the text where the cursor stood,
/// and leaves the editor in Insert mode with the cursor behind what was
/// typed.
pub proof fn law_typing_splices(e: EditorView, s: Seq<char>)
    requires
        e.wf(),
        e.settled(),
        e.mode == Mode::Insert,
    ensures
        0 <= e.buffer.cursor_offset() <= e.buffer.text.len(),
        e.after_typing(s).buffer.text == e.buffer.text.take(e.buffer.cursor_offset()) + s
            + e.buffer.text.skip(e.buffer.cursor_offset()),
        e.after_typing(s).buffer.cursor_offset() == e.buffer.cursor_offset() + s.len(),
        e.after_typing(s).buffer.wf(),
        s.len() > 0 || e.buffer.cursor_in_bounds() ==> e.after_typing(s).buffer.cursor_in_bounds(),
        e.after_typing(s).mode == Mode::Insert,
        e.after_typing(s).token == e.token,
        e.after_typing(s).exit_needed == e.exit_needed,
    decreases s.len(),
{
    let p = e.buffer.cursor_offset();
    e.buffer.lemma_offset_in_text();
    if s.len() == 0 {
        assert(e.buffer.text =~= e.buffer.text.take(p) + s + e.buffer.text.skip(p));
    } else {
        let before = e.after_typing(s.drop_last());
        law_typing_splices(e, s.drop_last());
        before.buffer.lemma_after_insert(s.last());
        assert(before.buffer.text.insert(before.buffer.cursor_offset(), s.last())
            =~= e.buffer.text.take(p) + s + e.buffer.text.skip(p));
    }
}

/// Typing `s` in Insert mode and then Escape leaves the text with `s` put in
/// where the cursor stood, in Normal mode.
pub proof fn law_typing_then_escape(e: EditorView, s: Seq<char>)
    requires
        e.wf(),
        e.settled(),
        e.mode == Mode::Insert,
    ensures
        e.after_typing(s).after_step(Some(Key::Esc)).buffer.text == e.buffer.text.take(
            e.buffer.cursor_offset(),
        ) + s + e.buffer.text.skip(e.buffer.cursor_offset()),
        e.after_typing(s).after_step(Some(Key::Esc)).mode == Mode::Normal,
        e.after_typing(s).after_step(Some(Key::Esc)).token == Seq::<char>::empty(),
{
    law_typing_splices(e, s);
    assert(seq![ESCAPE].contains(ESCAPE)) by {
        assert(seq![ESCAPE][0] == ESCAPE);
    }
}

/// Backspace at the beginning of a line that is not the first takes out the
/// newline before it: the line above then holds both lines, and the cursor
/// stands where the line above ended.
pub proof fn law_backspace_joins_lines(b: BufferView)
    requires
        b.wf(),
        b.col == 0,
        b.row > 0,
    ensures
        b.after_delete().row == b.row - 1,
        b.after_delete().col == line_len(b.text, (b.row - 1) as nat),
        b.after_delete().text == b.text.remove(b.cursor_offset() - 1),
        b.text[b.cursor_offset() - 1] == NEWLINE,
        line_count(b.after_delete().text) == line_count(b.text) - 1,
        line_len(b.after_delete().text, (b.row - 1) as nat) == line_len(
            b.text,
            (b.row - 1) as nat,
        ) + line_len(b.text, b.row),
{
    b.lemma_after_delete();
}

/// From a cursor that stands on a line below the first, as many backspaces
/// as it has characters before it empty the line up to the cursor, and one
/// more joins what is left to the line above: the cursor then stands on that
/// line, where it ended before.
pub proof fn law_backspaces_clear_then_join(b: BufferView)
    requires
        b.wf(),
        b.cursor_in_bounds(),
        b.row > 0,
    ensures
        b.after_deletes(b.col).row == b.row,
        b.after_deletes(b.col).col == 0,
        line_len(b.after_deletes(b.col).text, b.row) == line_len(b.text, b.row) - b.col,
        b.after_deletes(b.col + 1).row == b.row - 1,
        b.after_deletes(b.col + 1).col == line_len(b.text, (b.row - 1) as nat),
        line_count(b.after_deletes(b.col + 1).text) == line_count(b.text) - 1,
        line_len(b.after_deletes(b.col + 1).text, (b.row - 1) as nat) == line_len(
            b.text,
            (b.row - 1) as nat,
        ) + line_len(b.text, b.row) - b.col,
        b.after_deletes(b.col + 1).cursor_in_bounds(),
{
    b.lemma_after_deletes(b.col);
    b.after_deletes(b.col).lemma_after_delete();
    assert(b.after_deletes(b.col + 1) == b.after_deletes(b.col).after_delete());
}

/// While the editor waits, a cycle without a key, or with a key that is
/// neither Enter nor Escape, changes nothing but the answer that is kept: the
/// editor goes on waiting and does not quit or save.
pub proof fn law_waiting_ignores_other_keys(e: EditorView, key: Option<Key>)
    requires
        e.settled(),
        e.mode is Waiting,
        key matches Some(k) ==> answer_of(k) != Some(ENTER) && answer_of(k) != Some(ESCAPE),
    ensures
        e.after_step(key).mode is Waiting,
        (key matches Some(k) && answer_of(k) is Some && e.after_step(key).mode == Mode::Waiting(
            answer_of(k),
        )) || ((key is None || answer_of(key->0) is None) && e.after_step(key).mode == e.mode),
        e.after_step(key).buffer == e.buffer,
        e.after_step(key).token == e.token,
        e.after_step(key).exit_needed == e.exit_needed,
        e.step_action(key) == Action::Nothing,
{
}

/// While the editor waits, Enter does what was asked for, a quit after `q`
/// and a save after `w`, and Escape does neither. Both lead back to Normal
/// mode with an empty token, and neither changes the buffer.
pub proof fn law_waiting_resolves(e: EditorView)
    requires
        e.settled(),
        e.mode is Waiting,
    ensures
        e.after_step(Some(Key::Enter)) == (EditorView {
            mode: Mode::Normal,
            token: Seq::empty(),
            exit_needed: e.exit_needed || e.token[0] == 'q',
            ..e
        }),
        e.step_action(Some(Key::Enter)) == if e.token[0] == 'q' {
            Action::Quit
        } else {
            Action::Save
        },
        e.after_step(Some(Key::Esc)) == (EditorView {
            mode: Mode::Normal,
            token: Seq::empty(),
            ..e
        }),
        e.step_action(Some(Key::Esc)) == Action::Nothing,
{
}

/// From Normal mode with nothing pending, `q` asks for confirmation and
/// Enter then quits; `w` and Enter save and lead back to Normal mode. Neither
/// changes the buffer.
pub proof fn law_confirmed_quit_and_save(e: EditorView)
    requires
        e.mode == Mode::Normal,
        e.token.len() == 0,
    ensures
        e.after_step(Some(Key::Char('q'))).mode == Mode::Waiting(None),
        !e.exit_needed ==> !e.after_step(Some(Key::Char('q'))).exit_needed,
        e.after_step(Some(Key::Char('q'))).step_action(Some(Key::Enter)) == Action::Quit,
        e.after_step(Some(Key::Char('q'))).after_step(Some(Key::Enter)) == (EditorView {
            mode: Mode::Normal,
            token: Seq::empty(),
            exit_needed: true,
            ..e
        }),
        e.after_step(Some(Key::Char('w'))).mode == Mode::Waiting(None),
        e.after_step(Some(Key::Char('w'))).step_action(Some(Key::Enter)) == Action::Save,
        e.after_step(Some(Key::Char('w'))).after_step(Some(Key::Enter)) == (EditorView {
            mode: Mode::Normal,
            token: Seq::empty(),
            ..e
        }),
        e.after_step(Some(Key::Char('q'))).after_step(Some(Key::Esc)) == (EditorView {
            mode: Mode::Normal,
            token: Seq::empty(),
            ..e
        }),
{
    assert(e.token.push('q')[0] == 'q');
    assert(e.token.push('w')[0] == 'w');
}

/// The editor waits only between two stays in Normal mode: a cycle leads
/// from waiting to waiting or to Normal mode, never to Insert mode, and
/// never from Insert mode to waiting.
pub proof fn law_waiting_between_normals(e: EditorView, key: Option<Key>)
    requires
        e.settled(),
    ensures
        e.mode is Waiting ==> !(e.after_step(key).mode is Insert),
        e.mode is Insert ==> !(e.after_step(key).mode is Waiting),
{
}

} // verus!
