//! The plain logic of the terminal widgets: geometry helpers, the key and
//! response codes, and the text-line, line, rectangle and button blocks.
//! Drawing and raw input stay outside; the widgets compute what to show.

pub mod button;
pub mod code;
pub mod ext;
pub mod line_horizontal;
pub mod line_vertical;
pub mod rectangle;
pub mod text_line;
