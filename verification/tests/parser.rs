use modal_editor::command::{has_escape, parse_chars};
use modal_editor::{parse_command, parse_normal_helper, Commands, Mode};

#[test]
fn normal_helper_reads_movements() {
    assert_eq!(parse_normal_helper(Some('h'), false), Some(Commands::Left));
    assert_eq!(parse_normal_helper(Some('j'), false), Some(Commands::Down));
    assert_eq!(parse_normal_helper(Some('k'), false), Some(Commands::Up));
    assert_eq!(parse_normal_helper(Some('l'), false), Some(Commands::Right));
    assert_eq!(parse_normal_helper(Some('h'), true), Some(Commands::Left));
}

#[test]
fn normal_helper_reads_insert_and_escape() {
    assert_eq!(parse_normal_helper(Some('i'), false), Some(Commands::Insert));
    assert_eq!(parse_normal_helper(Some('\x1b'), false), Some(Commands::Escape));
    assert_eq!(parse_normal_helper(Some('\x1b'), true), Some(Commands::Escape));
}

#[test]
fn normal_helper_asks_before_quit_and_write() {
    assert_eq!(parse_normal_helper(Some('q'), false), Some(Commands::WaitForEnter));
    assert_eq!(parse_normal_helper(Some('w'), false), Some(Commands::WaitForEnter));
    assert_eq!(parse_normal_helper(Some('q'), true), Some(Commands::Quit));
    assert_eq!(parse_normal_helper(Some('w'), true), Some(Commands::Write));
}

#[test]
fn normal_helper_drops_the_rest() {
    assert_eq!(parse_normal_helper(None, false), None);
    assert_eq!(parse_normal_helper(None, true), None);
    assert_eq!(parse_normal_helper(Some('x'), false), None);
    assert_eq!(parse_normal_helper(Some('\n'), true), None);
    assert_eq!(parse_normal_helper(Some('H'), false), None);
}

#[test]
fn normal_mode_reads_the_first_character() {
    assert_eq!(parse_command("h", &Mode::Normal), Some(Commands::Left));
    assert_eq!(parse_command("lq", &Mode::Normal), Some(Commands::Right));
    assert_eq!(parse_command("i", &Mode::Normal), Some(Commands::Insert));
    assert_eq!(parse_command("q", &Mode::Normal), Some(Commands::WaitForEnter));
    assert_eq!(parse_command("w", &Mode::Normal), Some(Commands::WaitForEnter));
    assert_eq!(parse_command("\x1b", &Mode::Normal), Some(Commands::Escape));
    assert_eq!(parse_command("xh", &Mode::Normal), None);
    assert_eq!(parse_command("", &Mode::Normal), None);
    assert_eq!(parse_command("\u{e9}h", &Mode::Normal), None);
}

#[test]
fn waiting_mode_goes_by_the_answer() {
    assert_eq!(parse_command("q", &Mode::Waiting(None)), Some(Commands::WaitForEnter));
    assert_eq!(parse_command("", &Mode::Waiting(None)), Some(Commands::WaitForEnter));
    assert_eq!(parse_command("q", &Mode::Waiting(Some('\n'))), Some(Commands::Quit));
    assert_eq!(parse_command("w", &Mode::Waiting(Some('\n'))), Some(Commands::Write));
    assert_eq!(parse_command("x", &Mode::Waiting(Some('\n'))), None);
    assert_eq!(parse_command("q", &Mode::Waiting(Some('\x1b'))), Some(Commands::Escape));
    assert_eq!(parse_command("q", &Mode::Waiting(Some('x'))), None);
    assert_eq!(parse_command("q", &Mode::Waiting(Some('q'))), None);
}

#[test]
fn insert_mode_reads_escape_anywhere() {
    assert_eq!(parse_command("\x1b", &Mode::Insert), Some(Commands::Escape));
    assert_eq!(parse_command("ab\x1b", &Mode::Insert), Some(Commands::Escape));
    assert_eq!(parse_command("h\x1bz", &Mode::Insert), Some(Commands::Escape));
}

#[test]
fn insert_mode_reads_only_movements() {
    assert_eq!(parse_command("h", &Mode::Insert), Some(Commands::Left));
    assert_eq!(parse_command("j", &Mode::Insert), Some(Commands::Down));
    assert_eq!(parse_command("k", &Mode::Insert), Some(Commands::Up));
    assert_eq!(parse_command("l", &Mode::Insert), Some(Commands::Right));
    assert_eq!(parse_command("i", &Mode::Insert), None);
    assert_eq!(parse_command("q", &Mode::Insert), None);
    assert_eq!(parse_command("w", &Mode::Insert), None);
    assert_eq!(parse_command("", &Mode::Insert), None);
}

#[test]
fn parse_chars_agrees_with_parse_command() {
    let token: Vec<char> = "q".chars().collect();
    assert_eq!(parse_chars(&token, &Mode::Normal), Some(Commands::WaitForEnter));
    assert_eq!(parse_chars(&token, &Mode::Waiting(Some('\n'))), Some(Commands::Quit));
    let empty: Vec<char> = Vec::new();
    assert_eq!(parse_chars(&empty, &Mode::Normal), None);
}

#[test]
fn has_escape_finds_it_anywhere() {
    let with: Vec<char> = "ab\x1bc".chars().collect();
    let without: Vec<char> = "abc".chars().collect();
    let empty: Vec<char> = Vec::new();
    assert!(has_escape(&with));
    assert!(!has_escape(&without));
    assert!(!has_escape(&empty));
}
