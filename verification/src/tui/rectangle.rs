//! A rectangle block: blank when unbordered, framed with `+`, `―` and
//! `│` when bordered.

use vstd::prelude::*;

use crate::tui::line_horizontal::{push_repeat, repeat_char};

verus! {

/// A rectangle of the given width and height.
#[derive(Debug, Clone, Copy, PartialEq, Eq)]
pub struct Rectangle {
    pub pos: (u16, u16, u16),
    pub dim_wh: (u16, u16),
    pub bordered: bool,
}

impl Rectangle {
    /// A rectangle at the given position and size.
    pub fn new(pos: (u16, u16, u16), dim_wh: (u16, u16), bordered: bool) -> (r: Rectangle)
        ensures
            r == (Rectangle { pos, dim_wh, bordered }),
    {
        Rectangle { pos, dim_wh, bordered }
    }

    /// The screen position of the block.
    pub fn pos(&self) -> (r: (u16, u16, u16))
        ensures
            r == self.pos,
    {
        self.pos
    }

    /// The width left between two border characters.
    pub open spec fn inner_width(self) -> int {
        if self.dim_wh.0 >= 2 {
            self.dim_wh.0 - 2
        } else {
            0
        }
    }

    /// The row's text: blanks when unbordered, the frame rows when
    /// bordered, and nothing below the height.
    pub fn rel_line(&self, i: u16) -> (r: Option<String>)
        ensures
            self.dim_wh.1 == 0 ==> r is None,
            self.dim_wh.1 > 0 && !self.bordered && i < self.dim_wh.1 ==> (r matches Some(t) && t@
                == repeat_char(' ', self.dim_wh.0 as int)),
            self.dim_wh.1 > 0 && self.bordered && (i == 0 || i as int == self.dim_wh.1 - 1) ==> (
            r matches Some(t) && t@ == seq!['+'] + repeat_char('\u{2015}', self.inner_width())
                + seq!['+']),
            self.dim_wh.1 > 0 && self.bordered && i != 0 && i as int != self.dim_wh.1 - 1 && i
                < self.dim_wh.1 ==> (r matches Some(t) && t@ == seq!['\u{2502}'] + repeat_char(
                ' ',
                self.inner_width(),
            ) + seq!['\u{2502}']),
            self.dim_wh.1 > 0 && i >= self.dim_wh.1 && !(self.bordered && i == 0) ==> r is None,
    {
        if self.dim_wh.1 == 0 {
            return None;
        }
        if !self.bordered && i < self.dim_wh.1 {
            let mut s = String::new();
            push_repeat(&mut s, ' ', self.dim_wh.0 as usize);
            proof {
                assert(s@ =~= repeat_char(' ', self.dim_wh.0 as int));
            }
            return Some(s);
        }
        if !self.bordered {
            return None;
        }
        let inner = if self.dim_wh.0 >= 2 {
            (self.dim_wh.0 - 2) as usize
        } else {
            0
        };
        if i == 0 || i == self.dim_wh.1 - 1 {
            let mut s = String::new();
            s.push('+');
            push_repeat(&mut s, '\u{2015}', inner);
            s.push('+');
            proof {
                assert(s@ =~= seq!['+'] + repeat_char('\u{2015}', self.inner_width()) + seq!['+']);
            }
            Some(s)
        } else if i < self.dim_wh.1 {
            let mut s = String::new();
            s.push('\u{2502}');
            push_repeat(&mut s, ' ', inner);
            s.push('\u{2502}');
            proof {
                assert(s@ =~= seq!['\u{2502}'] + repeat_char(' ', self.inner_width()) + seq![
                    '\u{2502}',
                ]);
            }
            Some(s)
        } else {
            None
        }
    }
}

} // verus!
