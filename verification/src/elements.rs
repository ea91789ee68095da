//! The composition widgets: a live syllable input box, its composed
//! result, and the information panels beside them.

use vstd::prelude::*;
use vstd::string::StringExecFns;

use crate::hangul::{seq_display, Hangul};
use crate::hangul_parser::HangulParser;
use crate::jamo::{FinalJamo, Jamo, MedialJamo};
use crate::syllable::Syllable;
use crate::tui::code::{Key, TerminalCode};
use crate::tui::text_line::TextLine;

verus! {

/// The letters a syllable can still legally combine with: the addenda of
/// its trailing consonant where one is set, else the partners of its
/// vowel where one is set, else nothing.
pub open spec fn combo_list_spec(s: Syllable) -> Seq<Jamo> {
    match s.finale {
        Some(f) => f.append_possible_spec().map_values(|g: FinalJamo| g.jamo_spec()),
        None => match s.medial {
            Some(m) => m.combine_possible_spec().map_values(|v: MedialJamo| v.jamo_spec()),
            None => Seq::empty(),
        },
    }
}

/// The glyph row of a letter list: each glyph followed by two blanks.
pub open spec fn glyph_line_spec(js: Seq<Jamo>) -> Seq<char>
    decreases js.len(),
{
    if js.len() == 0 {
        Seq::empty()
    } else {
        seq![js[0].glyph_spec(), ' ', ' '] + glyph_line_spec(js.drop_first())
    }
}

/// A spelling padded with blanks to four columns.
pub open spec fn rr_pad_spec(j: Jamo) -> Seq<char> {
    j.rr_spec() + Seq::new((4 - j.rr_spec().len()) as nat, |k: int| ' ')
}

/// The spelling row of a letter list: each spelling in four columns.
pub open spec fn rr_line_spec(js: Seq<Jamo>) -> Seq<char>
    decreases js.len(),
{
    if js.len() == 0 {
        Seq::empty()
    } else {
        rr_pad_spec(js[0]) + rr_line_spec(js.drop_first())
    }
}

/// `glyph_line_spec` unrolled from the tail.
proof fn lemma_glyph_line_snoc(js: Seq<Jamo>, i: int)
    requires
        0 <= i < js.len(),
    ensures
        glyph_line_spec(js.take(i + 1)) == glyph_line_spec(js.take(i)) + seq![
            js[i].glyph_spec(),
            ' ',
            ' ',
        ],
    decreases i,
{
    if i == 0 {
        assert(js.take(1).drop_first() =~= Seq::<Jamo>::empty());
        assert(js.take(0) =~= Seq::<Jamo>::empty());
        assert(js.take(1)[0] == js[0]);
        assert(glyph_line_spec(js.take(1)) =~= glyph_line_spec(js.take(0)) + seq![
            js[0].glyph_spec(),
            ' ',
            ' ',
        ]);
    } else {
        lemma_glyph_line_snoc(js.drop_first(), i - 1);
        assert(js.take(i + 1).drop_first() =~= js.drop_first().take(i));
        assert(js.take(i).drop_first() =~= js.drop_first().take(i - 1));
        assert(js.take(i + 1)[0] == js[0]);
        assert(js.take(i)[0] == js[0]);
        assert(js.drop_first()[i - 1] == js[i]);
        assert(seq![js[0].glyph_spec(), ' ', ' '] + (glyph_line_spec(js.drop_first().take(i - 1))
            + seq![js[i].glyph_spec(), ' ', ' ']) =~= (seq![js[0].glyph_spec(), ' ', ' ']
            + glyph_line_spec(js.drop_first().take(i - 1))) + seq![js[i].glyph_spec(), ' ', ' ']);
    }
}

/// `rr_line_spec` unrolled from the tail.
proof fn lemma_rr_line_snoc(js: Seq<Jamo>, i: int)
    requires
        0 <= i < js.len(),
    ensures
        rr_line_spec(js.take(i + 1)) == rr_line_spec(js.take(i)) + rr_pad_spec(js[i]),
    decreases i,
{
    if i == 0 {
        assert(js.take(1).drop_first() =~= Seq::<Jamo>::empty());
        assert(js.take(0) =~= Seq::<Jamo>::empty());
        assert(js.take(1)[0] == js[0]);
        assert(rr_line_spec(js.take(1)) =~= rr_line_spec(js.take(0)) + rr_pad_spec(js[0]));
    } else {
        lemma_rr_line_snoc(js.drop_first(), i - 1);
        assert(js.take(i + 1).drop_first() =~= js.drop_first().take(i));
        assert(js.take(i).drop_first() =~= js.drop_first().take(i - 1));
        assert(js.take(i + 1)[0] == js[0]);
        assert(js.take(i)[0] == js[0]);
        assert(js.drop_first()[i - 1] == js[i]);
        assert(rr_pad_spec(js[0]) + (rr_line_spec(js.drop_first().take(i - 1)) + rr_pad_spec(
            js[i],
        )) =~= (rr_pad_spec(js[0]) + rr_line_spec(js.drop_first().take(i - 1))) + rr_pad_spec(
            js[i],
        ));
    }
}

/// The glyph row of the letters a syllable can still combine with.
fn combo_glyph_line(s: &Syllable) -> (r: String)
    ensures
        r@ == glyph_line_spec(combo_list_spec(*s)),
{
    let js = match s.finale() {
        Some(f) => Jamo::possible_finale(f),
        None => match s.medial() {
            Some(m) => Jamo::possible_medial(m),
            None => Vec::new(),
        },
    };
    let ghost gl = combo_list_spec(*s);
    let mut out = String::new();
    let mut i: usize = 0;
    proof {
        assert(gl.take(0) =~= Seq::<Jamo>::empty());
    }
    while i < js.len()
        invariant
            i <= js@.len(),
            js@.len() == gl.len(),
            forall|k: int| 0 <= k < gl.len() ==> js@[k] == gl[k],
            out@ == glyph_line_spec(gl.take(i as int)),
        decreases js@.len() - i,
    {
        out.push(js[i].glyph());
        out.push(' ');
        out.push(' ');
        proof {
            lemma_glyph_line_snoc(gl, i as int);
            assert(out@ =~= glyph_line_spec(gl.take(i as int + 1)));
        }
        i = i + 1;
    }
    proof {
        assert(gl.take(gl.len() as int) =~= gl);
    }
    out
}

/// The spelling row of the letters a syllable can still combine with.
fn combo_rr_line(s: &Syllable) -> (r: String)
    ensures
        r@ == rr_line_spec(combo_list_spec(*s)),
{
    let js = match s.finale() {
        Some(f) => Jamo::possible_finale(f),
        None => match s.medial() {
            Some(m) => Jamo::possible_medial(m),
            None => Vec::new(),
        },
    };
    let ghost gl = combo_list_spec(*s);
    let mut out = String::new();
    let mut i: usize = 0;
    proof {
        assert(gl.take(0) =~= Seq::<Jamo>::empty());
    }
    while i < js.len()
        invariant
            i <= js@.len(),
            js@.len() == gl.len(),
            forall|k: int| 0 <= k < gl.len() ==> js@[k] == gl[k],
            out@ == rr_line_spec(gl.take(i as int)),
        decreases js@.len() - i,
    {
        let spelling = js[i].rr();
        out.append(spelling);
        let mut pad = spelling.unicode_len();
        while pad < 4
            invariant
                out@ == rr_line_spec(gl.take(i as int)) + gl[i as int].rr_spec() + Seq::new(
                    (pad - gl[i as int].rr_spec().len()) as nat,
                    |k: int| ' ',
                ),
                gl[i as int].rr_spec().len() <= pad <= 4,
                i < gl.len(),
            decreases 4 - pad,
        {
            out.push(' ');
            proof {
                assert(out@ =~= rr_line_spec(gl.take(i as int)) + gl[i as int].rr_spec()
                    + Seq::new((pad + 1 - gl[i as int].rr_spec().len()) as nat, |k: int| ' '));
            }
            pad = pad + 1;
        }
        proof {
            lemma_rr_line_snoc(gl, i as int);
            assert(out@ =~= rr_line_spec(gl.take(i as int + 1)));
        }
        i = i + 1;
    }
    proof {
        assert(gl.take(gl.len() as int) =~= gl);
    }
    out
}

/// A fixed legend of the simple letters and their spellings.
#[derive(Debug, Clone, Copy, PartialEq, Eq)]
pub struct JamoInfo {
    pub pos: (u16, u16, u16),
}

impl JamoInfo {
    /// A legend at the given position.
    pub fn new(pos: (u16, u16, u16)) -> (r: JamoInfo)
        ensures
            r.pos == pos,
    {
        JamoInfo { pos }
    }

    /// The screen position of the block.
    pub fn pos(&self) -> (r: (u16, u16, u16))
        ensures
            r == self.pos,
    {
        self.pos
    }

    /// One of the fifteen legend rows, `None` below them.
    pub fn rel_line(&self, i: u16) -> (r: Option<String>)
        ensures
            r is Some <==> i < 15,
    {
        let line = match i {
            0 => " Initials/Finals        Medials         ",
            1 => " \u{3131} g                   \u{314F} a            ",
            2 => " \u{3134} n                   \u{3150} ae           ",
            3 => " \u{3137} d                   \u{3151} ya           ",
            4 => " \u{3139} r                   \u{3152} yae          ",
            5 => " \u{3141} m                   \u{3153} eo           ",
            6 => " \u{3142} b                   \u{3154} e            ",
            7 => " \u{3145} s                   \u{3155} yeo          ",
            8 => " \u{3147} ng                  \u{3156} ye           ",
            9 => " \u{3148} j                   \u{3157} o            ",
            10 => " \u{314A} ch                  \u{315B} yo           ",
            11 => " \u{314B} k                   \u{315C} u            ",
            12 => " \u{314C} t                   \u{3160} yu           ",
            13 => " \u{314D} p                   \u{3161} eu           ",
            14 => " \u{314E} h                   \u{3163} i            ",
            _ => {
                return None;
            },
        };
        Some(String::from_str(line))
    }
}

/// A panel listing what the watched syllable can still combine with.
#[derive(Debug, Clone, Copy, PartialEq, Eq)]
pub struct PossibleInfo {
    pub pos: (u16, u16, u16),
}

impl PossibleInfo {
    /// A panel at the given position.
    pub fn new(pos: (u16, u16, u16)) -> (r: PossibleInfo)
        ensures
            r.pos == pos,
    {
        PossibleInfo { pos }
    }

    /// The screen position of the block.
    pub fn pos(&self) -> (r: (u16, u16, u16))
        ensures
            r == self.pos,
    {
        self.pos
    }

    /// The panel rows for the given syllable: a header, the glyphs it can
    /// still combine with, and their spellings.
    pub fn rel_line(&self, i: u16, syllable: &Syllable) -> (r: Option<String>)
        ensures
            i == 0 ==> r is Some,
            i == 1 ==> (r matches Some(t) && t@ == glyph_line_spec(combo_list_spec(*syllable))),
            i == 2 ==> (r matches Some(t) && t@ == rr_line_spec(combo_list_spec(*syllable))),
            i > 2 ==> r is None,
    {
        match i {
            0 => Some(String::from_str("Combinations:")),
            1 => Some(combo_glyph_line(syllable)),
            2 => Some(combo_rr_line(syllable)),
            _ => None,
        }
    }
}

/// The growing composed string beside the syllable being typed.
pub struct HangulResult {
    pub pos: (u16, u16, u16),
    pub overflow: String,
    pub syllable: Syllable,
    pub str: Hangul,
    pub parser: HangulParser,
}

impl HangulResult {
    /// The table is the fixed one and the held values are well-formed.
    pub open spec fn wf(self) -> bool {
        &&& self.parser.wf()
        &&& self.syllable.wf()
    }

    /// An empty result at the given position.
    pub fn new(pos: (u16, u16, u16)) -> (r: HangulResult)
        ensures
            r.pos == pos,
            r.overflow@.len() == 0,
            r.syllable == Syllable::empty_spec(),
            r.str@.len() == 0,
            r.wf(),
    {
        HangulResult {
            pos,
            overflow: String::new(),
            syllable: Syllable::default(),
            str: Hangul::default(),
            parser: HangulParser::new(),
        }
    }

    /// The syllable currently being typed.
    pub fn syllable(&self) -> (r: &Syllable)
        ensures
            r == &self.syllable,
    {
        &self.syllable
    }

    /// The composed string so far.
    pub fn str(&self) -> (r: &Hangul)
        ensures
            r == &self.str,
    {
        &self.str
    }

    /// The romanization that did not fit into the current syllable.
    pub fn overflow(&self) -> (r: &String)
        ensures
            r == &self.overflow,
    {
        &self.overflow
    }

    /// Whether the composed string is still empty.
    pub fn is_empty(&self) -> (r: bool)
        ensures
            r == (self.str@.len() == 0),
    {
        self.str.is_empty()
    }

    /// Appends the current syllable to the composed string.
    pub fn push(&mut self)
        ensures
            final(self).str@ == old(self).str@.push(old(self).syllable),
            final(self).syllable == old(self).syllable,
            final(self).overflow == old(self).overflow,
            final(self).pos == old(self).pos,
            final(self).parser == old(self).parser,
    {
        let s = self.syllable;
        self.str.push_syllable(s);
    }

    /// Takes no letter back; undoing is the surrounding widget's business.
    pub fn pop(&mut self)
        ensures
            *final(self) == *old(self),
    {
    }

    /// Re-reads the current syllable from a romanization: the input is
    /// parsed into one fresh syllable, and whatever does not fit is kept
    /// as the overflow.
    pub fn set_rr(&mut self, rr: &str)
        requires
            old(self).wf(),
        ensures
            final(self).syllable == old(self).parser.parse_syllable_spec(
                Syllable::empty_spec(),
                rr@,
            ).0,
            final(self).overflow@ == old(self).parser.parse_syllable_spec(
                Syllable::empty_spec(),
                rr@,
            ).1,
            final(self).str == old(self).str,
            final(self).pos == old(self).pos,
            final(self).parser == old(self).parser,
            final(self).wf(),
    {
        let (syl, rest) = self.parser.parse_syllable(rr);
        self.syllable = syl;
        self.overflow = String::from_str(rest);
    }

    /// Forgets the syllable, the overflow and the composed string.
    pub fn clear(&mut self)
        ensures
            final(self).overflow@.len() == 0,
            final(self).syllable == Syllable::empty_spec(),
            final(self).str@.len() == 0,
            final(self).pos == old(self).pos,
            final(self).parser == old(self).parser,
            old(self).wf() ==> final(self).wf(),
    {
        self.overflow = String::new();
        self.syllable = Syllable::default();
        self.str = Hangul::default();
    }

    /// The screen position of the block.
    pub fn pos(&self) -> (r: (u16, u16, u16))
        ensures
            r == self.pos,
    {
        self.pos
    }

    /// The single row: the composed string followed by the syllable being
    /// typed.
    pub fn rel_line(&self, i: u16) -> (r: Option<String>)
        ensures
            i == 0 ==> (r matches Some(t) && t@ == seq_display(self.str@)
                + self.syllable.display_seq()),
            i != 0 ==> r is None,
    {
        if i != 0 {
            return None;
        }
        let mut line = self.str.display_string();
        let syl = self.syllable.display_string();
        line.append(syl.as_str());
        Some(line)
    }
}

/// A live input box: romanization typed into a text line, parsed on
/// every keystroke into one syllable, with finished syllables collected
/// into a string.
pub struct HangulInput {
    pub pos: (u16, u16, u16),
    pub width: u16,
    pub syllable: Syllable,
    pub overflow: String,
    pub input: TextLine,
    pub str: Hangul,
    pub parser: HangulParser,
}

impl HangulInput {
    /// The table is the fixed one and every held value is well-formed.
    pub open spec fn wf(self) -> bool {
        &&& self.parser.wf()
        &&& self.syllable.wf()
        &&& self.input.wf()
        &&& self.overflow@.len() < 0xFFFF
    }

    /// An empty input box at the given position: the text line sits two
    /// rows below the composed string.
    pub fn new(pos: (u16, u16, u16), width: u16) -> (r: HangulInput)
        requires
            pos.1 + 2 <= u16::MAX,
        ensures
            r.pos == pos,
            r.width == width,
            r.syllable == Syllable::empty_spec(),
            r.overflow@.len() == 0,
            r.str@.len() == 0,
            r.input.pos == (pos.0, (pos.1 + 2) as u16, 0u16),
            r.input.display_width == width,
            r.input.value@.len() == 0,
            r.wf(),
    {
        HangulInput {
            pos,
            width,
            syllable: Syllable::default(),
            overflow: String::new(),
            input: TextLine::default().with_pos(pos.0, pos.1 + 2).with_width(width),
            str: Hangul::default(),
            parser: HangulParser::new(),
        }
    }

    /// The syllable currently being typed.
    pub fn syllable(&self) -> (r: &Syllable)
        ensures
            r == &self.syllable,
    {
        &self.syllable
    }

    /// The screen position of the block.
    pub fn pos(&self) -> (r: (u16, u16, u16))
        ensures
            r == self.pos,
    {
        self.pos
    }

    /// The rows: the composed string with the live syllable, a blank row,
    /// and the romanization being typed.
    pub fn rel_line(&self, i: u16) -> (r: Option<String>)
        requires
            self.input.wf(),
        ensures
            i == 0 ==> (r matches Some(t) && t@ == seq_display(self.str@)
                + self.syllable.display_seq()),
            i == 1 ==> (r matches Some(t) && t@.len() == 0),
            i == 2 ==> (r matches Some(t) && t@ == self.input.rel_line_spec()),
            i > 2 ==> r is None,
    {
        match i {
            0 => {
                let mut line = self.str.display_string();
                let syl = self.syllable.display_string();
                line.append(syl.as_str());
                Some(line)
            },
            1 => Some(String::new()),
            2 => self.input.rel_line(0),
            _ => None,
        }
    }

    /// Re-reads the live syllable from the text line's value.
    fn reparse(&mut self)
        requires
            old(self).wf(),
        ensures
            final(self).syllable == old(self).parser.parse_syllable_spec(
                Syllable::empty_spec(),
                old(self).input.value@,
            ).0,
            final(self).overflow@ == old(self).parser.parse_syllable_spec(
                Syllable::empty_spec(),
                old(self).input.value@,
            ).1,
            final(self).input == old(self).input,
            final(self).str == old(self).str,
            final(self).pos == old(self).pos,
            final(self).width == old(self).width,
            final(self).parser == old(self).parser,
            final(self).wf(),
    {
        proof {
            crate::hangul_parser::lemma_parse_syllable_len(
                self.parser,
                Syllable::empty_spec(),
                self.input.value@,
            );
        }
        let (syl, rest) = self.parser.parse_syllable(self.input.value());
        let ov = String::from_str(rest);
        self.syllable = syl;
        self.overflow = ov;
    }

    /// Feeds one keystroke into the box: characters and cursor keys edit
    /// the romanization, which is re-parsed into the live syllable; enter
    /// commits the syllable to the string and restarts from the
    /// overflow; backspace beyond the romanization drops the last
    /// committed syllable.
    pub fn feed(&mut self, key: Key) -> (r: TerminalCode)
        requires
            old(self).wf(),
            old(self).input.value@.len() + 1 < 0xFFFF,
        ensures
            ({
                let p = old(self).parser;
                match key {
                    Key::Char(c) => {
                        let v = old(self).input.value@.insert(old(self).input.index as int, c);
                        final(self).input.value@ == v && final(self).syllable
                            == p.parse_syllable_spec(Syllable::empty_spec(), v).0 && final(self).overflow@ == p.parse_syllable_spec(Syllable::empty_spec(), v).1 && final(self).str == old(self).str && r == TerminalCode::Idle
                    },
                    Key::Left | Key::Right => {
                        let v = old(self).input.value@;
                        final(self).input.value@ == v && final(self).syllable
                            == p.parse_syllable_spec(Syllable::empty_spec(), v).0 && final(self).overflow@ == p.parse_syllable_spec(Syllable::empty_spec(), v).1 && final(self).str == old(self).str && r == TerminalCode::Idle
                    },
                    Key::Enter => {
                        let v = old(self).overflow@;
                        final(self).str@ == old(self).str@.push(old(self).syllable) && final(self).input.value@ == v && final(self).syllable == p.parse_syllable_spec(
                            Syllable::empty_spec(),
                            v,
                        ).0 && final(self).overflow@ == p.parse_syllable_spec(
                            Syllable::empty_spec(),
                            v,
                        ).1 && r == TerminalCode::Idle
                    },
                    Key::Backspace => {
                        if old(self).input.value@.len() == 0 || old(self).input.index == 0 {
                            if old(self).str@.len() == 0 {
                                *final(self) == *old(self) && r == TerminalCode::UnhandledKey(key)
                            } else {
                                final(self).str@ == old(self).str@.drop_last() && final(self).input == old(self).input && final(self).syllable == old(self).syllable && final(self).overflow == old(self).overflow && r
                                    == TerminalCode::Idle
                            }
                        } else {
                            let v = old(self).input.value@.remove(old(self).input.index - 1);
                            final(self).input.value@ == v && final(self).syllable
                                == p.parse_syllable_spec(Syllable::empty_spec(), v).0 && final(self).overflow@ == p.parse_syllable_spec(Syllable::empty_spec(), v).1
                                && final(self).str == old(self).str && r == TerminalCode::Idle
                        }
                    },
                    _ => *final(self) == *old(self) && r == TerminalCode::UnhandledKey(key),
                }
            }),
            final(self).parser == old(self).parser,
            final(self).pos == old(self).pos,
            final(self).width == old(self).width,
            final(self).wf(),
    {
        match self.input.feed(key) {
            TerminalCode::Idle => {
                self.reparse();
                TerminalCode::Idle
            },
            TerminalCode::UnhandledKey(Key::Enter) => {
                let s = self.syllable;
                self.str.push_syllable(s);
                let ov = self.overflow.clone();
                self.input.set_value(ov);
                self.reparse();
                TerminalCode::Idle
            },
            TerminalCode::UnhandledKey(Key::Backspace) => {
                if self.str.is_empty() {
                    TerminalCode::UnhandledKey(Key::Backspace)
                } else {
                    let _ = self.str.pop_syllable();
                    TerminalCode::Idle
                }
            },
            c => c,
        }
    }
}

} // verus!
