//! The editor: a buffer, a mode and a pending token, driven one key at a time.
//!
//! A cycle has two halves. First the key, if one came, is taken in: outside
//! Insert mode it goes to the token or answers a request for confirmation; in
//! Insert mode a character, Enter or Backspace edits the buffer at once, and
//! Escape and the arrows become a token. Then the token is read as a command,
//! and the command, if there is one, is applied.
use vstd::prelude::*;
use crate::buffer::{Buffer, BufferView};
use crate::command::{command_of, first_char, parse_chars, Commands, Mode, ENTER, ESCAPE};
use crate::text::{copy_of, NEWLINE};

verus! {

/// A key press, as far as the editor tells keys apart.
#[derive(Clone, Copy, Debug, PartialEq, Eq)]
pub enum Key {
    Char(char),
    Enter,
    Esc,
    Backspace,
    Left,
    Down,
    Up,
    Right,
    Other,
}

/// What the caller has to do after a cycle.
#[derive(Clone, Copy, Debug, PartialEq, Eq)]
pub enum Action {
    /// Nothing but to draw.
    Nothing,
    /// Write the whole text of the buffer to the file.
    Save,
    /// Leave the loop.
    Quit,
}

/// The state of the editor.
#[derive(Debug)]
pub struct Editor {
    pub buffer: Buffer,
    pub mode: Mode,
    pub token: Vec<char>,
    pub exit_needed: bool,
}

/// What a renderer draws after a cycle: the text, the token for the status
/// line, and the cursor.
#[derive(Debug)]
pub struct Snapshot {
    pub full_text: Vec<char>,
    pub status_line: Vec<char>,
    pub cursor_col: usize,
    pub cursor_row: usize,
}

/// What an editor holds, as mathematics.
pub struct EditorView {
    pub buffer: BufferView,
    pub mode: Mode,
    pub token: Seq<char>,
    pub exit_needed: bool,
}

/// The token that an arrow key or Escape stands for in Insert mode.
pub open spec fn insert_token(key: Key) -> Option<char> {
    match key {
        Key::Esc => Some(ESCAPE),
        Key::Left => Some('h'),
        Key::Down => Some('j'),
        Key::Up => Some('k'),
        Key::Right => Some('l'),
        _ => None,
    }
}

/// The character that a key answers a request for confirmation with.
pub open spec fn answer_of(key: Key) -> Option<char> {
    match key {
        Key::Char(c) => Some(c),
        Key::Enter => Some(ENTER),
        Key::Esc => Some(ESCAPE),
        _ => None,
    }
}

/// The column or row that the terminal's caret is put at for a cursor at `n`:
/// one further, or 1 where that is more than the terminal can count.
pub open spec fn caret_coord(n: nat) -> nat {
    if n + 1 <= u16::MAX { n + 1 } else { 1 }
}

impl EditorView {
    /// The cursor is on a line that the text has.
    pub open spec fn wf(self) -> bool {
        self.buffer.wf()
    }

    /// What holds between two cycles: while the editor waits, the token
    /// begins with the `q` or `w` that asked, and the answer, if one came, is
    /// neither Enter nor Escape; in Insert mode the token is empty.
    pub open spec fn settled(self) -> bool {
        match self.mode {
            Mode::Normal => true,
            Mode::Insert => self.token.len() == 0,
            Mode::Waiting(answer) => (first_char(self.token) == Some('q') || first_char(
                self.token,
            ) == Some('w')) && answer != Some(ENTER) && answer != Some(ESCAPE),
        }
    }

    /// The editor after a key was taken in.
    pub open spec fn after_key(self, key: Key) -> EditorView {
        match self.mode {
            Mode::Normal => EditorView {
                token: match key {
                    Key::Char(c) => self.token.push(c),
                    Key::Enter => self.token.push(ENTER),
                    Key::Esc => seq![ESCAPE],
                    _ => self.token,
                },
                ..self
            },
            Mode::Waiting(_) => EditorView {
                mode: match answer_of(key) {
                    Some(c) => Mode::Waiting(Some(c)),
                    None => self.mode,
                },
                ..self
            },
            Mode::Insert => match key {
                Key::Char(c) => EditorView { buffer: self.buffer.after_insert(c), ..self },
                Key::Enter => EditorView { buffer: self.buffer.after_insert(NEWLINE), ..self },
                Key::Backspace => EditorView { buffer: self.buffer.after_delete(), ..self },
                _ => EditorView {
                    token: match insert_token(key) {
                        Some(c) => seq![c],
                        None => self.token,
                    },
                    ..self
                },
            },
        }
    }

    /// The command that the token stands for now.
    pub open spec fn command(self) -> Option<Commands> {
        command_of(self.token, self.mode)
    }

    /// The editor after the command that its token stands for was applied.
    /// Without a command nothing changes. A request for confirmation keeps
    /// the token, which names what is to be confirmed; every other command
    /// empties it. A confirmed quit or save leads back to Normal mode.
    pub open spec fn dispatched(self) -> EditorView {
        match self.command() {
            None => self,
            Some(Commands::Quit) => EditorView {
                mode: Mode::Normal,
                token: Seq::empty(),
                exit_needed: true,
                ..self
            },
            Some(Commands::WaitForEnter) => EditorView { mode: Mode::Waiting(None), ..self },
            Some(Commands::Insert) => EditorView {
                mode: Mode::Insert,
                token: Seq::empty(),
                ..self
            },
            Some(Commands::Escape) => EditorView {
                mode: Mode::Normal,
                token: Seq::empty(),
                ..self
            },
            Some(Commands::Write) => EditorView {
                mode: Mode::Normal,
                token: Seq::empty(),
                ..self
            },
            Some(direction) => EditorView {
                buffer: self.buffer.after_move(direction),
                token: Seq::empty(),
                ..self
            },
        }
    }

    /// What the caller has to do once the command was applied.
    pub open spec fn action(self) -> Action {
        match self.command() {
            Some(Commands::Quit) => Action::Quit,
            Some(Commands::Write) => Action::Save,
            _ => Action::Nothing,
        }
    }

    /// The editor after the first half of a cycle: after the key was taken
    /// in, if one came.
    pub open spec fn after_input(self, key: Option<Key>) -> EditorView {
        match key {
            Some(k) => self.after_key(k),
            None => self,
        }
    }

    /// The editor after one cycle, with a key or without.
    pub open spec fn after_step(self, key: Option<Key>) -> EditorView {
        self.after_input(key).dispatched()
    }

    /// The editor after one cycle for each entry of `keys`, in order.
    pub open spec fn after_steps(self, keys: Seq<Option<Key>>) -> EditorView
        decreases keys.len(),
    {
        if keys.len() == 0 {
            self
        } else {
            self.after_steps(keys.drop_last()).after_step(keys.last())
        }
    }

    /// The editor after one cycle for each character of `s`, typed in order.
    pub open spec fn after_typing(self, s: Seq<char>) -> EditorView
        decreases s.len(),
    {
        if s.len() == 0 {
            self
        } else {
            self.after_typing(s.drop_last()).after_step(Some(Key::Char(s.last())))
        }
    }

    /// What the caller has to do after one cycle.
    pub open spec fn step_action(self, key: Option<Key>) -> Action {
        self.after_input(key).action()
    }
}

impl View for Editor {
    type V = EditorView;

    open spec fn view(&self) -> EditorView {
        EditorView {
            buffer: self.buffer@,
            mode: self.mode,
            token: self.token@,
            exit_needed: self.exit_needed,
        }
    }
}

impl Editor {
    /// An editor in Normal mode on `content`, with the cursor at its
    /// beginning and nothing pending.
    pub fn new(content: &str) -> (e: Editor)
        ensures
            e@.buffer == (BufferView { text: content@, col: 0, row: 0 }),
            e@.mode == Mode::Normal,
            e@.token == Seq::<char>::empty(),
            !e@.exit_needed,
            e@.wf(),
            e@.settled(),
            e@.buffer.cursor_in_bounds(),
    {
        Editor {
            buffer: Buffer::new(content),
            mode: Mode::Normal,
            token: Vec::new(),
            exit_needed: false,
        }
    }

    /// Replaces the token by the one character `c`.
    fn set_token(&mut self, c: char)
        ensures
            final(self)@ == (EditorView { token: seq![c], ..old(self)@ }),
    {
        self.token.clear();
        self.token.push(c);
        assert(self.token@ =~= seq![c]);
    }

    /// Takes a key in.
    pub fn handle_key(&mut self, key: Key)
        requires
            old(self)@.wf(),
        ensures
            final(self)@ == old(self)@.after_key(key),
            final(self)@.wf(),
    {
        match self.mode {
            Mode::Normal => match key {
                Key::Char(c) => self.token.push(c),
                Key::Enter => self.token.push(ENTER),
                Key::Esc => self.set_token(ESCAPE),
                _ => {},
            },
            Mode::Waiting(_) => match key {
                Key::Char(c) => self.mode = Mode::Waiting(Some(c)),
                Key::Enter => self.mode = Mode::Waiting(Some(ENTER)),
                Key::Esc => self.mode = Mode::Waiting(Some(ESCAPE)),
                _ => {},
            },
            Mode::Insert => match key {
                Key::Char(c) => self.buffer.insert_char(c),
                Key::Enter => self.buffer.insert_char(NEWLINE),
                Key::Backspace => self.buffer.delete_before_cursor(),
                Key::Esc => self.set_token(ESCAPE),
                Key::Left => self.set_token('h'),
                Key::Down => self.set_token('j'),
                Key::Up => self.set_token('k'),
                Key::Right => self.set_token('l'),
                Key::Other => {},
            },
        }
    }

    /// Reads the token as a command and applies it.
    pub fn dispatch(&mut self) -> (action: Action)
        requires
            old(self)@.wf(),
        ensures
            final(self)@ == old(self)@.dispatched(),
            action == old(self)@.action(),
            final(self)@.wf(),
    {
        match parse_chars(self.token.as_slice(), &self.mode) {
            None => Action::Nothing,
            Some(Commands::Quit) => {
                self.mode = Mode::Normal;
                self.token.clear();
                self.exit_needed = true;
                Action::Quit
            },
            Some(Commands::WaitForEnter) => {
                self.mode = Mode::Waiting(None);
                Action::Nothing
            },
            Some(Commands::Insert) => {
                self.mode = Mode::Insert;
                self.token.clear();
                Action::Nothing
            },
            Some(Commands::Escape) => {
                self.mode = Mode::Normal;
                self.token.clear();
                Action::Nothing
            },
            Some(Commands::Write) => {
                self.mode = Mode::Normal;
                self.token.clear();
                Action::Save
            },
            Some(direction) => {
                self.buffer.move_cursor(direction);
                self.token.clear();
                Action::Nothing
            },
        }
    }

    /// Runs one cycle: takes the key in, if one came, then reads the token
    /// and applies the command.
    pub fn step(&mut self, key: Option<Key>) -> (action: Action)
        requires
            old(self)@.wf(),
        ensures
            final(self)@ == old(self)@.after_step(key),
            action == old(self)@.step_action(key),
            final(self)@.wf(),
            old(self)@.settled() ==> final(self)@.settled(),
            final(self)@.exit_needed == (old(self)@.exit_needed || action == Action::Quit),
            final(self)@.buffer.text != old(self)@.buffer.text ==> old(self)@.mode == Mode::Insert,
    {
        proof {
            crate::laws::law_step_keeps_settled(self@, key);
        }
        match key {
            Some(k) => self.handle_key(k),
            None => {},
        }
        self.dispatch()
    }

    /// What there is to draw.
    pub fn snapshot(&self) -> (s: Snapshot)
        ensures
            s.full_text@ == self@.buffer.text,
            s.status_line@ == self@.token,
            s.cursor_col == self@.buffer.col,
            s.cursor_row == self@.buffer.row,
    {
        Snapshot {
            full_text: copy_of(self.buffer.text.as_slice()),
            status_line: copy_of(self.token.as_slice()),
            cursor_col: self.buffer.col,
            cursor_row: self.buffer.row,
        }
    }

    /// Where the terminal's caret belongs: column, then row, each counted
    /// from 1.
    pub fn caret(&self) -> (r: (u16, u16))
        ensures
            r.0 == caret_coord(self@.buffer.col),
            r.1 == caret_coord(self@.buffer.row),
    {
        let x: u16 = if self.buffer.col < 65535 { (self.buffer.col + 1) as u16 } else { 1 };
        let y: u16 = if self.buffer.row < 65535 { (self.buffer.row + 1) as u16 } else { 1 };
        (x, y)
    }
}

} // verus!
