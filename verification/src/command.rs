//! Modes, commands, and the parser from a pending token to a command.
use vstd::prelude::*;

verus! {

/// The escape character, as it stands in a token.
pub const ESCAPE: char = '\x1b';

/// The character that stands for the Enter key.
pub const ENTER: char = '\n';

/// How key presses are read. `Waiting` holds the key that answered a request
/// for confirmation, or `None` while none has come.
#[derive(Clone, Copy, Debug, PartialEq, Eq)]
pub enum Mode {
    Normal,
    Insert,
    Waiting(Option<char>),
}

/// What a token means, whatever key produced it.
#[derive(Clone, Copy, Debug, PartialEq, Eq)]
pub enum Commands {
    Write,
    Quit,
    Insert,
    Escape,
    WaitForEnter,
    Up,
    Down,
    Left,
    Right,
}

/// The movement that one of `h`, `j`, `k`, `l` stands for.
pub open spec fn movement_of(c: char) -> Option<Commands> {
    if c == 'h' {
        Some(Commands::Left)
    } else if c == 'j' {
        Some(Commands::Down)
    } else if c == 'k' {
        Some(Commands::Up)
    } else if c == 'l' {
        Some(Commands::Right)
    } else {
        None
    }
}

/// The command that the first character of a token stands for in Normal mode.
/// `q` and `w` ask for confirmation unless `confirmed` says it was given.
pub open spec fn normal_command(c: Option<char>, confirmed: bool) -> Option<Commands> {
    match c {
        None => None,
        Some(c) => if movement_of(c) is Some {
            movement_of(c)
        } else if c == 'i' {
            Some(Commands::Insert)
        } else if c == ESCAPE {
            Some(Commands::Escape)
        } else if c == 'q' {
            Some(if confirmed { Commands::Quit } else { Commands::WaitForEnter })
        } else if c == 'w' {
            Some(if confirmed { Commands::Write } else { Commands::WaitForEnter })
        } else {
            None
        },
    }
}

/// The first character of a token, if it has one.
pub open spec fn first_char(token: Seq<char>) -> Option<char> {
    if token.len() > 0 { Some(token[0]) } else { None }
}

/// The command that a token stands for in a mode.
///
/// In Normal mode the first character decides. While waiting, the answer
/// decides: Enter reads the first character again as confirmed, Escape
/// cancels, no answer yet keeps waiting, and any other answer gives nothing.
/// In Insert mode an escape anywhere in the token leaves the mode, and
/// otherwise only a movement is read.
pub open spec fn command_of(token: Seq<char>, mode: Mode) -> Option<Commands> {
    match mode {
        Mode::Normal => normal_command(first_char(token), false),
        Mode::Waiting(None) => Some(Commands::WaitForEnter),
        Mode::Waiting(Some(c)) => if c == ENTER {
            normal_command(first_char(token), true)
        } else if c == ESCAPE {
            Some(Commands::Escape)
        } else {
            None
        },
        Mode::Insert => if token.contains(ESCAPE) {
            Some(Commands::Escape)
        } else {
            match first_char(token) {
                Some(c) => movement_of(c),
                None => None,
            }
        },
    }
}

/// Reads one character as a Normal-mode command.
pub fn parse_normal_helper(c: Option<char>, confirm_no_wait: bool) -> (r: Option<Commands>)
    ensures
        r == normal_command(c, confirm_no_wait),
{
    match c {
        None => None,
        Some(c) => {
            if c == 'h' {
                Some(Commands::Left)
            } else if c == 'j' {
                Some(Commands::Down)
            } else if c == 'k' {
                Some(Commands::Up)
            } else if c == 'l' {
                Some(Commands::Right)
            } else if c == 'i' {
                Some(Commands::Insert)
            } else if c == ESCAPE {
                Some(Commands::Escape)
            } else if c == 'q' {
                if confirm_no_wait {
                    Some(Commands::Quit)
                } else {
                    Some(Commands::WaitForEnter)
                }
            } else if c == 'w' {
                if confirm_no_wait {
                    Some(Commands::Write)
                } else {
                    Some(Commands::WaitForEnter)
                }
            } else {
                None
            }
        },
    }
}

/// Whether the escape character occurs in a token.
pub fn has_escape(token: &[char]) -> (r: bool)
    ensures
        r == token@.contains(ESCAPE),
{
    let mut i: usize = 0;
    while i < token.len()
        invariant
            i <= token@.len(),
            forall|k: int| 0 <= k < i ==> token@[k] != ESCAPE,
        decreases token@.len() - i,
    {
        if token[i] == ESCAPE {
            return true;
        }
        i += 1;
    }
    false
}

/// Reads a token, given as characters, as a command in a mode.
pub fn parse_chars(token: &[char], mode: &Mode) -> (r: Option<Commands>)
    ensures
        r == command_of(token@, *mode),
{
    let first = if token.len() > 0 { Some(token[0]) } else { None };
    match mode {
        Mode::Normal => parse_normal_helper(first, false),
        Mode::Waiting(None) => Some(Commands::WaitForEnter),
        Mode::Waiting(Some(c)) => {
            if *c == ENTER {
                parse_normal_helper(first, true)
            } else if *c == ESCAPE {
                Some(Commands::Escape)
            } else {
                None
            }
        },
        Mode::Insert => {
            if has_escape(token) {
                Some(Commands::Escape)
            } else {
                match first {
                    None => None,
                    Some(c) => {
                        if c == 'h' {
                            Some(Commands::Left)
                        } else if c == 'j' {
                            Some(Commands::Down)
                        } else if c == 'k' {
                            Some(Commands::Up)
                        } else if c == 'l' {
                            Some(Commands::Right)
                        } else {
                            None
                        }
                    },
                }
            }
        },
    }
}

/// Reads a token as a command in a mode.
pub fn parse_command(cmd_str: &str, mode: &Mode) -> (r: Option<Commands>)
    ensures
        r == command_of(cmd_str@, *mode),
{
    let token = crate::text::chars_of(cmd_str);
    parse_chars(token.as_slice(), mode)
}

} // verus!
