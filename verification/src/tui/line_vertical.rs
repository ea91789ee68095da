//! A vertical line block: a `+` at either end and `│` between.

use vstd::prelude::*;

verus! {

/// A vertical line of the given length.
#[derive(Debug, Clone, Copy, PartialEq, Eq)]
pub struct LineVertical {
    pub pos: (u16, u16, u16),
    pub length: u16,
}

impl Default for LineVertical {
    /// A zero-length line at the origin.
    fn default() -> (r: LineVertical)
        ensures
            r.pos == (0u16, 0u16, 0u16),
            r.length == 0,
    {
        LineVertical { pos: (0, 0, 0), length: 0 }
    }
}

impl LineVertical {
    /// Moves the line to the given column.
    pub fn with_x(self, x: u16) -> (r: LineVertical)
        ensures
            r == (LineVertical { pos: (x, self.pos.1, self.pos.2), ..self }),
    {
        LineVertical { pos: (x, self.pos.1, self.pos.2), ..self }
    }

    /// Moves the line's top to the given row.
    pub fn with_line_start(self, y: u16) -> (r: LineVertical)
        ensures
            r == (LineVertical { pos: (self.pos.0, y, self.pos.2), ..self }),
    {
        LineVertical { pos: (self.pos.0, y, self.pos.2), ..self }
    }

    /// Sets the drawing layer.
    pub fn with_z_index(self, z: u16) -> (r: LineVertical)
        ensures
            r == (LineVertical { pos: (self.pos.0, self.pos.1, z), ..self }),
    {
        LineVertical { pos: (self.pos.0, self.pos.1, z), ..self }
    }

    /// Sets the length.
    pub fn with_length(self, length: u16) -> (r: LineVertical)
        ensures
            r == (LineVertical { length, ..self }),
    {
        LineVertical { length, ..self }
    }

    /// The screen position of the block.
    pub fn pos(&self) -> (r: (u16, u16, u16))
        ensures
            r == self.pos,
    {
        self.pos
    }

    /// The row's text: `+` at either end, `│` between, nothing outside
    /// the length.
    pub fn rel_line(&self, i: u16) -> (r: Option<String>)
        ensures
            self.length == 0 ==> r is None,
            self.length > 0 && (i == 0 || i == self.length - 1) ==> (r matches Some(t) && t@
                == seq!['+']),
            self.length > 0 && i != 0 && i as int != self.length - 1 && i < self.length ==> (
            r matches Some(t) && t@ == seq!['\u{2502}']),
            self.length > 0 && i >= self.length ==> r is None,
    {
        if self.length == 0 {
            None
        } else if i == 0 || i == self.length - 1 {
            let mut s = String::new();
            s.push('+');
            proof {
                assert(s@ =~= seq!['+']);
            }
            Some(s)
        } else if i < self.length {
            let mut s = String::new();
            s.push('\u{2502}');
            proof {
                assert(s@ =~= seq!['\u{2502}']);
            }
            Some(s)
        } else {
            None
        }
    }
}

} // verus!
