//! A horizontal line block: a `+` at either end and `―` between.

use vstd::prelude::*;

verus! {

/// A run of the given character.
pub open spec fn repeat_char(c: char, n: int) -> Seq<char> {
    Seq::new(n as nat, |k: int| c)
}

/// Appends a run of one character to the string.
pub(crate) fn push_repeat(s: &mut String, c: char, n: usize)
    ensures
        final(s)@ == old(s)@ + repeat_char(c, n as int),
{
    let mut k: usize = 0;
    while k < n
        invariant
            k <= n,
            s@ == old(s)@ + repeat_char(c, k as int),
        decreases n - k,
    {
        s.push(c);
        proof {
            assert(s@ =~= old(s)@ + repeat_char(c, k as int + 1));
        }
        k = k + 1;
    }
}

/// A horizontal line of the given length.
#[derive(Debug, Clone, Copy, PartialEq, Eq)]
pub struct LineHorizontal {
    pub pos: (u16, u16, u16),
    pub length: u16,
}

impl Default for LineHorizontal {
    /// A zero-length line at the origin.
    fn default() -> (r: LineHorizontal)
        ensures
            r.pos == (0u16, 0u16, 0u16),
            r.length == 0,
    {
        LineHorizontal { pos: (0, 0, 0), length: 0 }
    }
}

impl LineHorizontal {
    /// Moves the line to the given row.
    pub fn with_y(self, y: u16) -> (r: LineHorizontal)
        ensures
            r == (LineHorizontal { pos: (self.pos.0, y, self.pos.2), ..self }),
    {
        LineHorizontal { pos: (self.pos.0, y, self.pos.2), ..self }
    }

    /// Moves the line's left end to the given column.
    pub fn with_line_start(self, x: u16) -> (r: LineHorizontal)
        ensures
            r == (LineHorizontal { pos: (x, self.pos.1, self.pos.2), ..self }),
    {
        LineHorizontal { pos: (x, self.pos.1, self.pos.2), ..self }
    }

    /// Sets the drawing layer.
    pub fn with_z_index(self, z: u16) -> (r: LineHorizontal)
        ensures
            r == (LineHorizontal { pos: (self.pos.0, self.pos.1, z), ..self }),
    {
        LineHorizontal { pos: (self.pos.0, self.pos.1, z), ..self }
    }

    /// Sets the length.
    pub fn with_length(self, length: u16) -> (r: LineHorizontal)
        ensures
            r == (LineHorizontal { length, ..self }),
    {
        LineHorizontal { length, ..self }
    }

    /// The screen position of the block.
    pub fn pos(&self) -> (r: (u16, u16, u16))
        ensures
            r == self.pos,
    {
        self.pos
    }

    /// The row's text: the whole line on row zero — `+`, then `―`
    /// between, then `+` — a lone `+` for length one, and nothing
    /// elsewhere.
    pub fn rel_line(&self, i: u16) -> (r: Option<String>)
        ensures
            self.length == 0 ==> r is None,
            self.length == 1 ==> (r matches Some(t) && t@ == seq!['+']),
            self.length > 1 && i == 0 ==> (r matches Some(t) && t@ == seq!['+'] + repeat_char(
                '\u{2015}',
                self.length - 2,
            ) + seq!['+']),
            self.length > 1 && i != 0 ==> r is None,
    {
        if self.length == 0 {
            None
        } else if self.length == 1 {
            let mut s = String::new();
            s.push('+');
            proof {
                assert(s@ =~= seq!['+']);
            }
            Some(s)
        } else if i == 0 {
            let mut s = String::new();
            s.push('+');
            push_repeat(&mut s, '\u{2015}', (self.length - 2) as usize);
            s.push('+');
            proof {
                assert(s@ =~= seq!['+'] + repeat_char('\u{2015}', self.length - 2) + seq!['+']);
            }
            Some(s)
        } else {
            None
        }
    }
}

} // verus!
