//! A single-line text editor: a value, a cursor index, and a display
//! window of fixed width that follows the cursor, marking cut-off ends
//! with an ellipsis.

use vstd::prelude::*;
use vstd::string::StringExecFns;

use crate::tui::code::{Key, TerminalCode};
use crate::tui::ext::{range_with_mid, range_with_mid_spec, saturate_range, saturate_range_spec};

verus! {

/// A single line of editable text.
///
/// Well-formedness ([`TextLine::wf`]): the cursor sits inside the value,
/// and the value leaves room for one more character under the 16-bit
/// cursor.
#[derive(Debug)]
pub struct TextLine {
    pub pos: (u16, u16, u16),
    pub display_width: u16,
    pub index: u16,
    pub value: String,
}

impl Default for TextLine {
    /// An empty line of width zero at the origin.
    fn default() -> (r: TextLine)
        ensures
            r.pos == (0u16, 0u16, 0u16),
            r.display_width == 0,
            r.index == 0,
            r.value@.len() == 0,
            r.wf(),
    {
        TextLine { pos: (0, 0, 0), display_width: 0, index: 0, value: String::new() }
    }
}

impl TextLine {
    /// The cursor sits inside the value, which leaves room to grow.
    pub open spec fn wf(self) -> bool {
        &&& self.value@.len() < 0xFFFF
        &&& self.index <= self.value@.len()
    }

    /// Moves the line to the given column and row.
    pub fn with_pos(self, x: u16, y: u16) -> (r: TextLine)
        ensures
            r == (TextLine { pos: (x, y, self.pos.2), ..self }),
    {
        TextLine { pos: (x, y, self.pos.2), ..self }
    }

    /// Sets the drawing layer.
    pub fn with_z_index(self, z: u16) -> (r: TextLine)
        ensures
            r == (TextLine { pos: (self.pos.0, self.pos.1, z), ..self }),
    {
        TextLine { pos: (self.pos.0, self.pos.1, z), ..self }
    }

    /// Sets the display width.
    pub fn with_width(self, width: u16) -> (r: TextLine)
        ensures
            r == (TextLine { display_width: width, ..self }),
    {
        TextLine { display_width: width, ..self }
    }

    /// Moves the cursor to the given character index.
    pub fn with_index(self, index: u16) -> (r: TextLine)
        ensures
            r == (TextLine { index, ..self }),
    {
        TextLine { index, ..self }
    }

    /// Replaces the value, widens a zero display width to one, and puts
    /// the cursor after the last character.
    pub fn with_value(self, value: String) -> (r: TextLine)
        requires
            value@.len() < 0xFFFF,
        ensures
            r.pos == self.pos,
            r.display_width == (if self.display_width >= 1 {
                self.display_width
            } else {
                1u16
            }),
            r.value@ == value@,
            r.index == value@.len(),
            r.wf(),
    {
        let width = if self.display_width >= 1 {
            self.display_width
        } else {
            1
        };
        let index = value.as_str().unicode_len() as u16;
        TextLine { display_width: width, index, value, ..self }
    }

    /// Replaces the value in place, widening a zero display width to one
    /// and putting the cursor after the last character.
    pub fn set_value(&mut self, value: String)
        requires
            value@.len() < 0xFFFF,
        ensures
            final(self).pos == old(self).pos,
            final(self).display_width == (if old(self).display_width >= 1 {
                old(self).display_width
            } else {
                1u16
            }),
            final(self).value@ == value@,
            final(self).index == value@.len(),
            final(self).wf(),
    {
        if self.display_width < 1 {
            self.display_width = 1;
        }
        self.index = value.as_str().unicode_len() as u16;
        self.value = value;
    }

    /// Empties the value and rewinds the cursor.
    pub fn clear(&mut self)
        ensures
            final(self).pos == old(self).pos,
            final(self).display_width == old(self).display_width,
            final(self).index == 0,
            final(self).value@.len() == 0,
            final(self).wf(),
    {
        self.index = 0;
        self.value = String::new();
    }

    /// How many characters the value holds.
    pub fn char_count(&self) -> (r: usize)
        ensures
            r == self.value@.len(),
    {
        self.value.as_str().unicode_len()
    }

    /// The current value.
    pub fn value(&self) -> (r: &str)
        ensures
            r@ == self.value@,
    {
        self.value.as_str()
    }

    /// The window of character positions currently shown: as wide as the
    /// display allows, centered on the cursor, clamped to the value.
    pub open spec fn display_range_spec(self) -> (int, int) {
        let count = self.value@.len() as int;
        let len = if count < self.display_width {
            count
        } else {
            self.display_width as int
        };
        let mid = range_with_mid_spec(self.index as int, len);
        saturate_range_spec(mid.0, mid.1, 0, count)
    }

    /// The window of character positions currently shown.
    pub fn display_range(&self) -> (r: core::ops::Range<usize>)
        requires
            self.wf(),
        ensures
            (r.start as int, r.end as int) == self.display_range_spec(),
            r.start <= r.end <= self.value@.len(),
    {
        let count = self.char_count();
        let len = if count < self.display_width as usize {
            count
        } else {
            self.display_width as usize
        };
        saturate_range(range_with_mid(self.index as isize, len as isize), 0..count)
    }

    /// Whether the window cuts characters off at the front.
    pub fn prefix_overflow(&self) -> (r: bool)
        requires
            self.wf(),
        ensures
            r == (self.display_range_spec().0 > 0),
    {
        self.display_range().start > 0
    }

    /// The text the window shows: the characters inside the window, with
    /// an ellipsis standing in for a cut-off end.
    pub open spec fn rel_line_spec(self) -> Seq<char> {
        let count = self.value@.len() as int;
        let (s, e) = self.display_range_spec();
        let w = self.value@.subrange(s, e);
        let w1 = if s != 0 {
            seq!['\u{2026}'] + (if w.len() > 0 {
                w.drop_first()
            } else {
                w
            })
        } else {
            w
        };
        if e != count {
            w1.take(
                if e - s > 0 {
                    e - s - 1
                } else {
                    0
                },
            ) + seq!['\u{2026}']
        } else {
            w1
        }
    }

    /// The text the window shows, on the line's single row.
    pub fn rel_line(&self, i: u16) -> (r: Option<String>)
        requires
            self.wf(),
        ensures
            i != 0 ==> r is None,
            i == 0 ==> (r matches Some(t) && t@ == self.rel_line_spec()),
    {
        if i != 0 {
            return None;
        }
        let count = self.char_count();
        let dr = self.display_range();
        let window = self.value.as_str().substring_char(dr.start, dr.end);
        let wchars = crate::ext::str_chars(window);
        let ghost w = self.value@.subrange(self.display_range_spec().0, self.display_range_spec().1);
        let ghost w1 = if self.display_range_spec().0 != 0 {
            seq!['\u{2026}'] + (if w.len() > 0 {
                w.drop_first()
            } else {
                w
            })
        } else {
            w
        };
        let mut cs: Vec<char> = Vec::new();
        let mut from: usize = 0;
        if dr.start != 0 {
            cs.push('\u{2026}');
            from = 1;
            if wchars.len() == 0 {
                proof {
                    assert(cs@ =~= w1);
                }
            }
        }
        let wlen = wchars.len();
        let mut k = from;
        proof {
            if from == 1 && wlen > 0 {
                assert(cs@ =~= seq!['\u{2026}'] + w.subrange(1, 1));
            }
            if from == 0 {
                assert(cs@ =~= w.take(0));
            }
        }
        while k < wlen
            invariant
                from <= 1,
                wlen == wchars@.len(),
                wchars@ == w,
                from == 0 ==> k <= wlen && cs@ == w.take(k as int),
                from == 1 && wlen > 0 ==> 1 <= k <= wlen && cs@ == seq!['\u{2026}'] + w.subrange(
                    1,
                    k as int,
                ),
                from == 1 && wlen == 0 ==> cs@ == seq!['\u{2026}'],
                from <= k,
            decreases wlen - k,
        {
            cs.push(wchars[k]);
            proof {
                if from == 0 {
                    assert(cs@ =~= w.take(k as int + 1));
                } else {
                    assert(cs@ =~= seq!['\u{2026}'] + w.subrange(1, k as int + 1));
                }
            }
            k = k + 1;
        }
        proof {
            assert(cs@ =~= w1);
        }
        let keep = if dr.end != count && dr.end - dr.start > 0 {
            dr.end - dr.start - 1
        } else {
            0
        };
        let mut out = String::new();
        if dr.end != count {
            let mut m: usize = 0;
            while m < keep
                invariant
                    keep <= cs@.len(),
                    m <= keep,
                    cs@ == w1,
                    out@ == w1.take(m as int),
                decreases keep - m,
            {
                out.push(cs[m]);
                proof {
                    assert(out@ =~= w1.take(m as int + 1));
                }
                m = m + 1;
            }
            out.push('\u{2026}');
        } else {
            let mut m: usize = 0;
            while m < cs.len()
                invariant
                    m <= cs@.len(),
                    cs@ == w1,
                    out@ == w1.take(m as int),
                decreases cs@.len() - m,
            {
                out.push(cs[m]);
                proof {
                    assert(out@ =~= w1.take(m as int + 1));
                }
                m = m + 1;
            }
            proof {
                assert(w1.take(w1.len() as int) =~= w1);
            }
        }
        proof {
            assert(out@ =~= self.rel_line_spec());
        }
        Some(out)
    }

    /// Where the cursor sits inside the window: its offset where it is
    /// shown, the slot one past the window when it rests at the end of
    /// the value, and nothing otherwise.
    pub open spec fn rel_cursor_pos_spec(self) -> Option<(u16, u16)> {
        let count = self.value@.len() as int;
        let (s, e) = self.display_range_spec();
        if s <= self.index < e {
            Some((((self.index - s) as u16, 0u16)))
        } else if self.index == count {
            Some((((e - s) as u16, 0u16)))
        } else {
            None
        }
    }

    /// Where the cursor sits inside the window.
    pub fn rel_cursor_pos(&self) -> (r: Option<(u16, u16)>)
        requires
            self.wf(),
        ensures
            r == self.rel_cursor_pos_spec(),
    {
        let dr = self.display_range();
        let count = self.char_count();
        if dr.start <= self.index as usize && (self.index as usize) < dr.end {
            Some((self.index - dr.start as u16, 0))
        } else if self.index as usize == count {
            Some(((dr.end - dr.start) as u16, 0))
        } else {
            None
        }
    }

    /// The screen position at which the line accepts input.
    pub fn input_pos(&self) -> (r: (u16, u16))
        ensures
            r == (self.pos.0, self.pos.1),
    {
        (self.pos.0, self.pos.1)
    }

    /// Feeds one keystroke into the line: a character enters at the
    /// cursor, the arrows move the cursor within the value, backspace
    /// deletes before the cursor — or is handed back at the start — and
    /// every other key is handed back.
    pub fn feed(&mut self, key: Key) -> (r: TerminalCode)
        requires
            old(self).wf(),
        ensures
            final(self).pos == old(self).pos,
            final(self).display_width == old(self).display_width,
            match key {
                Key::Char(c) => final(self).value@ == old(self).value@.insert(
                    old(self).index as int,
                    c,
                ) && final(self).index == old(self).index + 1 && r == TerminalCode::Idle,
                Key::Left => final(self).value@ == old(self).value@ && final(self).index == (
                if old(self).index > 0 {
                    (old(self).index - 1) as u16
                } else {
                    0u16
                }) && r == TerminalCode::Idle,
                Key::Right => final(self).value@ == old(self).value@ && final(self).index == (
                if old(self).index as int + 1 < old(self).value@.len() {
                    (old(self).index + 1) as u16
                } else {
                    old(self).value@.len() as u16
                }) && r == TerminalCode::Idle,
                Key::Backspace => if old(self).value@.len() == 0 || old(self).index == 0 {
                    *final(self) == *old(self) && r == TerminalCode::UnhandledKey(key)
                } else {
                    final(self).value@ == old(self).value@.remove(old(self).index - 1)
                        && final(self).index == old(self).index - 1 && r == TerminalCode::Idle
                },
                _ => *final(self) == *old(self) && r == TerminalCode::UnhandledKey(key),
            },
            old(self).wf() && !(key is Char) ==> final(self).wf(),
            key is Char && old(self).value@.len() + 1 < 0xFFFF ==> final(self).wf(),
    {
        match key {
            Key::Char(c) => {
                let n = self.char_count();
                let i = self.index as usize;
                let pre = self.value.as_str().substring_char(0, i);
                let post = self.value.as_str().substring_char(i, n);
                let mut v = String::from_str(pre);
                v.push(c);
                v.append(post);
                proof {
                    assert(v@ =~= old(self).value@.insert(old(self).index as int, c));
                }
                self.value = v;
                self.index = self.index + 1;
                TerminalCode::Idle
            },
            Key::Left => {
                if self.index > 0 {
                    self.index = self.index - 1;
                }
                TerminalCode::Idle
            },
            Key::Right => {
                let n = self.char_count();
                if (self.index as usize) + 1 < n {
                    self.index = self.index + 1;
                } else {
                    self.index = n as u16;
                }
                TerminalCode::Idle
            },
            Key::Backspace => {
                let n = self.char_count();
                if n == 0 || self.index == 0 {
                    TerminalCode::UnhandledKey(key)
                } else {
                    let i = (self.index - 1) as usize;
                    let pre = self.value.as_str().substring_char(0, i);
                    let post = self.value.as_str().substring_char(i + 1, n);
                    let mut v = String::from_str(pre);
                    v.append(post);
                    proof {
                        assert(v@ =~= old(self).value@.remove(old(self).index - 1));
                    }
                    self.value = v;
                    self.index = self.index - 1;
                    TerminalCode::Idle
                }
            },
            _ => TerminalCode::UnhandledKey(key),
        }
    }
}

} // verus!
