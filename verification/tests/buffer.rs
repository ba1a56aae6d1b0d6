use modal_editor::{Buffer, Commands};

fn text_of(b: &Buffer) -> String {
    b.text.iter().collect()
}

fn buffer_at(content: &str, col: usize, row: usize) -> Buffer {
    Buffer { text: content.chars().collect(), col, row }
}

#[test]
fn new_buffer_starts_at_the_beginning() {
    let b = Buffer::new("ab\ncd");
    assert_eq!(text_of(&b), "ab\ncd");
    assert_eq!((b.col, b.row), (0, 0));
    let e = Buffer::new("");
    assert_eq!(text_of(&e), "");
    assert_eq!((e.col, e.row), (0, 0));
}

#[test]
fn insert_puts_the_character_at_the_cursor() {
    let mut b = buffer_at("ab\ncd", 1, 0);
    b.insert_char('x');
    assert_eq!(text_of(&b), "axb\ncd");
    assert_eq!((b.col, b.row), (2, 0));
    let mut b = buffer_at("ab\ncd", 1, 1);
    b.insert_char('x');
    assert_eq!(text_of(&b), "ab\ncxd");
    assert_eq!((b.col, b.row), (2, 1));
}

#[test]
fn insert_into_an_empty_buffer() {
    let mut b = Buffer::new("");
    b.insert_char('a');
    assert_eq!(text_of(&b), "a");
    assert_eq!((b.col, b.row), (1, 0));
}

#[test]
fn insert_behind_a_trailing_newline() {
    let mut b = buffer_at("ab\n", 0, 1);
    b.insert_char('c');
    assert_eq!(text_of(&b), "ab\nc");
    assert_eq!((b.col, b.row), (1, 1));
}

#[test]
fn newline_splits_the_line() {
    let mut b = buffer_at("abcd", 2, 0);
    b.insert_char('\n');
    assert_eq!(text_of(&b), "ab\ncd");
    assert_eq!((b.col, b.row), (0, 1));
    let mut b = buffer_at("ab\ncd", 2, 0);
    b.insert_char('\n');
    assert_eq!(text_of(&b), "ab\n\ncd");
    assert_eq!((b.col, b.row), (0, 1));
}

#[test]
fn insert_beyond_the_line_goes_to_its_end() {
    let mut b = buffer_at("ab\ncd", 9, 0);
    b.insert_char('x');
    assert_eq!(text_of(&b), "abx\ncd");
    assert_eq!((b.col, b.row), (3, 0));
}

#[test]
fn delete_takes_the_character_before_the_cursor() {
    let mut b = buffer_at("ab", 1, 0);
    b.delete_before_cursor();
    assert_eq!(text_of(&b), "b");
    assert_eq!((b.col, b.row), (0, 0));
    let mut b = buffer_at("ab\ncd", 2, 1);
    b.delete_before_cursor();
    assert_eq!(text_of(&b), "ab\nc");
    assert_eq!((b.col, b.row), (1, 1));
}

#[test]
fn delete_at_a_line_start_joins_the_lines() {
    let mut b = buffer_at("ab\ncd", 0, 1);
    b.delete_before_cursor();
    assert_eq!(text_of(&b), "abcd");
    assert_eq!((b.col, b.row), (2, 0));
}

#[test]
fn delete_at_the_beginning_changes_nothing() {
    let mut b = buffer_at("ab\ncd", 0, 0);
    b.delete_before_cursor();
    assert_eq!(text_of(&b), "ab\ncd");
    assert_eq!((b.col, b.row), (0, 0));
    let mut e = Buffer::new("");
    e.delete_before_cursor();
    assert_eq!(text_of(&e), "");
    assert_eq!((e.col, e.row), (0, 0));
}

#[test]
fn delete_beyond_the_line_takes_its_last_character() {
    let mut b = buffer_at("ab", 5, 0);
    b.delete_before_cursor();
    assert_eq!(text_of(&b), "a");
    assert_eq!((b.col, b.row), (1, 0));
}

#[test]
fn backspaces_empty_a_line_and_then_join_it() {
    let mut b = buffer_at("ab\ncd", 2, 1);
    b.delete_before_cursor();
    b.delete_before_cursor();
    assert_eq!(text_of(&b), "ab\n");
    assert_eq!((b.col, b.row), (0, 1));
    b.delete_before_cursor();
    assert_eq!(text_of(&b), "ab");
    assert_eq!((b.col, b.row), (2, 0));
}

#[test]
fn move_cursor_follows_the_movement() {
    let mut b = Buffer::new("ab\ncd");
    b.move_cursor(Commands::Right);
    b.move_cursor(Commands::Right);
    b.move_cursor(Commands::Down);
    assert_eq!((b.col, b.row), (1, 1));
    b.move_cursor(Commands::Up);
    b.move_cursor(Commands::Left);
    b.move_cursor(Commands::Left);
    assert_eq!((b.col, b.row), (0, 0));
    assert_eq!(text_of(&b), "ab\ncd");
}

#[test]
fn insertions_match_a_splice_of_the_string() {
    let mut b = buffer_at("one\ntwo\nthree", 2, 1);
    let mut expected = String::from("one\ntwo\nthree");
    let mut at = 6;
    for c in "x\ny z\n\nw".chars() {
        b.insert_char(c);
        expected.insert(at, c);
        at += 1;
        assert_eq!(text_of(&b), expected);
    }
    assert_eq!(text_of(&b), "one\ntwx\ny z\n\nwo\nthree");
    assert_eq!((b.col, b.row), (1, 4));
}

#[test]
fn cursor_stays_on_the_text_through_edits() {
    let mut b = Buffer::new("");
    let script = "ab\ncd\n\nef";
    for c in script.chars() {
        b.insert_char(c);
        let text = text_of(&b);
        let lines: Vec<&str> = text.split('\n').collect();
        assert!(b.row < lines.len());
        assert!(b.col <= lines[b.row].chars().count());
    }
    for _ in 0..12 {
        b.delete_before_cursor();
        let text = text_of(&b);
        let lines: Vec<&str> = text.split('\n').collect();
        assert!(b.row < lines.len());
        assert!(b.col <= lines[b.row].chars().count());
    }
    assert_eq!(text_of(&b), "");
    assert_eq!((b.col, b.row), (0, 0));
}

#[test]
fn with_cursor_brings_the_cursor_onto_the_text() {
    let b = Buffer::with_cursor("ab\ncde", 1, 1);
    assert_eq!(text_of(&b), "ab\ncde");
    assert_eq!((b.col, b.row), (1, 1));
    let b = Buffer::with_cursor("ab\ncde", 9, 0);
    assert_eq!((b.col, b.row), (2, 0));
    let b = Buffer::with_cursor("ab\ncde", 9, 9);
    assert_eq!((b.col, b.row), (3, 1));
    let b = Buffer::with_cursor("", 4, 4);
    assert_eq!((b.col, b.row), (0, 0));
}
