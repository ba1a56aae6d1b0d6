use modal_editor::{Action, Editor, Key, Mode};

fn shown(e: &Editor) -> String {
    e.buffer.text.iter().collect()
}

fn token_of(e: &Editor) -> String {
    e.token.iter().collect()
}

#[test]
fn new_editor_is_in_normal_mode() {
    let e = Editor::new("ab\ncd");
    assert_eq!(e.mode, Mode::Normal);
    assert_eq!(shown(&e), "ab\ncd");
    assert_eq!(token_of(&e), "");
    assert_eq!((e.buffer.col, e.buffer.row), (0, 0));
    assert!(!e.exit_needed);
}

#[test]
fn keys_l_l_j_move_to_one_one() {
    let mut e = Editor::new("ab\ncd");
    assert_eq!(e.step(Some(Key::Char('l'))), Action::Nothing);
    assert_eq!(e.step(Some(Key::Char('l'))), Action::Nothing);
    assert_eq!(e.step(Some(Key::Char('j'))), Action::Nothing);
    assert_eq!((e.buffer.col, e.buffer.row), (1, 1));
    assert_eq!(e.mode, Mode::Normal);
    assert_eq!(token_of(&e), "");
    assert_eq!(shown(&e), "ab\ncd");
}

#[test]
fn typing_at_the_end_and_escape() {
    let mut e = Editor::new("hi");
    e.buffer.col = 2;
    e.mode = Mode::Insert;
    assert_eq!(e.step(Some(Key::Char('!'))), Action::Nothing);
    assert_eq!(e.mode, Mode::Insert);
    assert_eq!(e.step(Some(Key::Esc)), Action::Nothing);
    assert_eq!(shown(&e), "hi!");
    assert_eq!(e.mode, Mode::Normal);
    assert_eq!(token_of(&e), "");
}

#[test]
fn insert_mode_types_letters_that_are_commands_elsewhere() {
    let mut e = Editor::new("");
    e.step(Some(Key::Char('i')));
    assert_eq!(e.mode, Mode::Insert);
    for c in "hi!".chars() {
        e.step(Some(Key::Char(c)));
    }
    e.step(Some(Key::Char('q')));
    e.step(Some(Key::Enter));
    e.step(Some(Key::Char('w')));
    assert_eq!(e.mode, Mode::Insert);
    e.step(Some(Key::Esc));
    assert_eq!(shown(&e), "hi!q\nw");
    assert_eq!(e.mode, Mode::Normal);
    assert!(!e.exit_needed);
}

#[test]
fn w_then_enter_saves_and_returns_to_normal() {
    let mut e = Editor::new("data\nmore");
    assert_eq!(e.step(Some(Key::Char('w'))), Action::Nothing);
    assert_eq!(e.mode, Mode::Waiting(None));
    assert_eq!(e.step(Some(Key::Enter)), Action::Save);
    assert_eq!(e.mode, Mode::Normal);
    assert_eq!(shown(&e), "data\nmore");
    assert_eq!(token_of(&e), "");
    assert!(!e.exit_needed);
    assert_eq!(e.step(None), Action::Nothing);
    assert_eq!(e.mode, Mode::Normal);
}

#[test]
fn q_then_enter_quits() {
    let mut e = Editor::new("x");
    assert_eq!(e.step(Some(Key::Char('q'))), Action::Nothing);
    assert_eq!(e.mode, Mode::Waiting(None));
    assert!(!e.exit_needed);
    assert_eq!(e.step(Some(Key::Enter)), Action::Quit);
    assert!(e.exit_needed);
    assert_eq!(e.mode, Mode::Normal);
    assert_eq!(token_of(&e), "");
    assert_eq!(shown(&e), "x");
}

#[test]
fn q_then_another_key_keeps_waiting() {
    let mut e = Editor::new("x");
    e.step(Some(Key::Char('q')));
    assert_eq!(e.step(Some(Key::Char('x'))), Action::Nothing);
    assert_eq!(e.mode, Mode::Waiting(Some('x')));
    assert!(!e.exit_needed);
    assert_eq!(e.step(Some(Key::Backspace)), Action::Nothing);
    assert_eq!(e.mode, Mode::Waiting(Some('x')));
    assert_eq!(e.step(None), Action::Nothing);
    assert_eq!(e.mode, Mode::Waiting(Some('x')));
    assert!(!e.exit_needed);
    assert_eq!(shown(&e), "x");
    assert_eq!(e.step(Some(Key::Enter)), Action::Quit);
    assert!(e.exit_needed);
}

#[test]
fn q_then_escape_cancels() {
    let mut e = Editor::new("x");
    e.step(Some(Key::Char('q')));
    assert_eq!(e.step(Some(Key::Esc)), Action::Nothing);
    assert_eq!(e.mode, Mode::Normal);
    assert_eq!(token_of(&e), "");
    assert!(!e.exit_needed);
}

#[test]
fn waiting_without_a_key_keeps_waiting() {
    let mut e = Editor::new("x");
    e.step(Some(Key::Char('w')));
    assert_eq!(e.step(None), Action::Nothing);
    assert_eq!(e.mode, Mode::Waiting(None));
    assert_eq!(token_of(&e), "w");
}

#[test]
fn unknown_token_stays_until_escape() {
    let mut e = Editor::new("ab");
    e.step(Some(Key::Char('x')));
    e.step(Some(Key::Char('l')));
    e.step(Some(Key::Enter));
    assert_eq!(token_of(&e), "xl\n");
    assert_eq!((e.buffer.col, e.buffer.row), (0, 0));
    assert_eq!(e.mode, Mode::Normal);
    e.step(Some(Key::Esc));
    assert_eq!(token_of(&e), "");
    assert_eq!(e.mode, Mode::Normal);
    e.step(Some(Key::Char('l')));
    assert_eq!((e.buffer.col, e.buffer.row), (1, 0));
}

#[test]
fn arrows_move_in_insert_mode_only() {
    let mut e = Editor::new("ab\ncd");
    e.step(Some(Key::Down));
    e.step(Some(Key::Right));
    assert_eq!((e.buffer.col, e.buffer.row), (0, 0));
    e.step(Some(Key::Char('i')));
    e.step(Some(Key::Down));
    e.step(Some(Key::Right));
    assert_eq!((e.buffer.col, e.buffer.row), (1, 1));
    assert_eq!(e.mode, Mode::Insert);
    assert_eq!(token_of(&e), "");
    e.step(Some(Key::Up));
    e.step(Some(Key::Left));
    assert_eq!((e.buffer.col, e.buffer.row), (0, 0));
}

#[test]
fn backspace_edits_in_insert_mode_only() {
    let mut e = Editor::new("ab\ncd");
    e.buffer.col = 0;
    e.buffer.row = 1;
    e.step(Some(Key::Backspace));
    assert_eq!(shown(&e), "ab\ncd");
    e.step(Some(Key::Char('i')));
    e.step(Some(Key::Backspace));
    assert_eq!(shown(&e), "abcd");
    assert_eq!((e.buffer.col, e.buffer.row), (2, 0));
}

#[test]
fn other_keys_change_nothing() {
    let mut e = Editor::new("ab");
    assert_eq!(e.step(Some(Key::Other)), Action::Nothing);
    e.step(Some(Key::Char('i')));
    assert_eq!(e.step(Some(Key::Other)), Action::Nothing);
    assert_eq!(shown(&e), "ab");
    assert_eq!(e.mode, Mode::Insert);
}

#[test]
fn handle_key_and_dispatch_make_a_step() {
    let mut e = Editor::new("ab");
    e.handle_key(Key::Char('l'));
    assert_eq!(token_of(&e), "l");
    assert_eq!((e.buffer.col, e.buffer.row), (0, 0));
    assert_eq!(e.dispatch(), Action::Nothing);
    assert_eq!(token_of(&e), "");
    assert_eq!((e.buffer.col, e.buffer.row), (1, 0));
}

#[test]
fn caret_is_one_beyond_the_cursor() {
    let mut e = Editor::new("ab\ncd");
    assert_eq!(e.caret(), (1, 1));
    e.buffer.col = 1;
    e.buffer.row = 1;
    assert_eq!(e.caret(), (2, 2));
    e.buffer.col = 65534;
    assert_eq!(e.caret(), (65535, 2));
    e.buffer.col = 65535;
    assert_eq!(e.caret(), (1, 2));
    e.buffer.col = 70000;
    assert_eq!(e.caret(), (1, 2));
}

#[test]
fn snapshot_shows_text_token_and_cursor() {
    let mut e = Editor::new("ab\ncd");
    e.step(Some(Key::Char('l')));
    e.step(Some(Key::Char('j')));
    e.step(Some(Key::Char('x')));
    let s = e.snapshot();
    assert_eq!(s.full_text.iter().collect::<String>(), "ab\ncd");
    assert_eq!(s.status_line.iter().collect::<String>(), "x");
    assert_eq!((s.cursor_col, s.cursor_row), (1, 1));
}
