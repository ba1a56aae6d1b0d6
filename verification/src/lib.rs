//! The core of a modal text editor: a text buffer with a cursor, the editing
//! modes, the parser that turns a pending token into a command, and the
//! dispatcher that applies one key press at a time. The terminal, the renderer
//! and the file system stay outside: the core takes keys and hands back the
//! text, the cursor and what the caller has to do.
pub mod command;
pub mod text;
pub mod cursor;
pub mod buffer;
pub mod editor;
pub mod laws;

pub use command::{parse_command, parse_normal_helper, Commands, Mode};
pub use buffer::{Buffer, BufferView};
pub use cursor::hjkl;
pub use editor::{Action, Editor, EditorView, Key, Snapshot};
