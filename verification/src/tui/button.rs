//! A focusable button: a text line padded by margins, activated by the
//! enter key. What an activation does is the event loop's business; the
//! button only reports it.

use vstd::prelude::*;

use crate::tui::code::Key;
use crate::tui::line_horizontal::{push_repeat, repeat_char};
use crate::tui::text_line::TextLine;

verus! {

/// A button showing a fixed label.
#[derive(Debug)]
pub struct Button {
    pub pos: (u16, u16, u16),
    pub text: TextLine,
    pub width: u16,
    pub margin: u16,
    pub focused: bool,
}

impl Button {
    /// A button with the given label, width and margin, initially
    /// unfocused.
    pub fn new(pos: (u16, u16, u16), text: String, width: u16, margin: u16) -> (r: Button)
        requires
            text@.len() < 0xFFFF,
            margin <= 0x7FFF,
        ensures
            r.pos == pos,
            r.width == width,
            r.margin == margin,
            !r.focused,
            r.text.value@ == text@,
            r.text.index == text@.len(),
            r.text.display_width == ({
                let w = if width as int >= 2 * margin {
                    (width - 2 * margin) as u16
                } else {
                    0u16
                };
                if w >= 1 {
                    w
                } else {
                    1u16
                }
            }),
            r.text.wf(),
    {
        let inner = if width >= 2 * margin {
            width - 2 * margin
        } else {
            0
        };
        let text = TextLine::default().with_width(inner).with_value(text);
        Button { pos, text, width, margin, focused: false }
    }

    /// The screen position of the block.
    pub fn pos(&self) -> (r: (u16, u16, u16))
        ensures
            r == self.pos,
    {
        self.pos
    }

    /// The screen position at which the button accepts input.
    pub fn input_pos(&self) -> (r: (u16, u16))
        ensures
            r == (self.pos.0, self.pos.1),
    {
        (self.pos.0, self.pos.1)
    }

    /// The row's text: the label's window padded by margin blanks on
    /// either side, on row zero only.
    pub fn rel_line(&self, i: u16) -> (r: Option<String>)
        requires
            self.text.wf(),
        ensures
            i != 0 ==> r is None,
            i == 0 ==> (r matches Some(t) && t@ == repeat_char(' ', self.margin as int)
                + self.text.rel_line_spec() + repeat_char(' ', self.margin as int)),
    {
        if i != 0 {
            return None;
        }
        let mut s = String::new();
        push_repeat(&mut s, ' ', self.margin as usize);
        match self.text.rel_line(0) {
            Some(t) => s.append(t.as_str()),
            None => {},
        }
        push_repeat(&mut s, ' ', self.margin as usize);
        Some(s)
    }

    /// Whether the keystroke activates a button.
    pub fn activates(key: Key) -> (r: bool)
        ensures
            r == (key is Enter),
    {
        matches!(key, Key::Enter)
    }

    /// Marks the button focused.
    pub fn focus(&mut self)
        ensures
            *final(self) == (Button { focused: true, ..*old(self) }),
    {
        self.focused = true;
    }

    /// Marks the button unfocused.
    pub fn unfocus(&mut self)
        ensures
            *final(self) == (Button { focused: false, ..*old(self) }),
    {
        self.focused = false;
    }
}

} // verus!
