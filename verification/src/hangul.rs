//! An ordered sequence of syllables representing a full Hangul string.
//!
//! [`Hangul::push_back`] feeds letters into the last syllable and appends
//! whatever overflows; [`Hangul::pop_back`] undoes letters from the tail,
//! dropping syllables as they empty; [`Hangul::break_with`] forces a hard
//! syllable boundary. The displayed text round-trips through
//! [`Hangul::display_string`] and [`Hangul::from_display`].

use vstd::prelude::*;

use crate::jamo::Jamo;
use crate::syllable::{Syllable, SyllableError};

verus! {

/// A failure while feeding a letter into the sequence.
#[derive(Clone, Copy, Debug, PartialEq, Eq, Structural)]
pub enum HangulError {
    /// The letter was rejected by the syllable it was fed into.
    Syllable(SyllableError),
}

pub type HangulResult<T> = Result<T, HangulError>;

/// An ordered sequence of syllables.
///
/// Well-formedness ([`Hangul::wf`]): every syllable is well-formed, and
/// every syllable except possibly the last is non-empty.
#[derive(Clone, Debug, PartialEq, Eq, Hash)]
pub struct Hangul {
    pub syllables: Vec<Syllable>,
}

impl View for Hangul {
    type V = Seq<Syllable>;

    open spec fn view(&self) -> Seq<Syllable> {
        self.syllables@
    }
}

impl Default for Hangul {
    /// The empty string.
    fn default() -> (r: Hangul)
        ensures
            r@ == Seq::<Syllable>::empty(),
    {
        Hangul { syllables: Vec::new() }
    }
}

/// The concatenation of the displayed characters of a sequence of
/// syllables.
pub open spec fn seq_display(ss: Seq<Syllable>) -> Seq<char>
    decreases ss.len(),
{
    if ss.len() == 0 {
        Seq::empty()
    } else {
        ss[0].display_seq() + seq_display(ss.drop_first())
    }
}

/// `seq_display` unrolled from the tail.
pub proof fn lemma_seq_display_snoc(ss: Seq<Syllable>, i: int)
    requires
        0 <= i < ss.len(),
    ensures
        seq_display(ss.take(i + 1)) == seq_display(ss.take(i)) + ss[i].display_seq(),
    decreases i,
{
    if i == 0 {
        assert(ss.take(1).drop_first() =~= Seq::<Syllable>::empty());
        assert(ss.take(0) =~= Seq::<Syllable>::empty());
        assert(ss.take(1)[0] == ss[0]);
        assert(seq_display(ss.take(1)) == ss.take(1)[0].display_seq() + seq_display(
            ss.take(1).drop_first(),
        ));
        assert(seq_display(ss.take(1)) =~= ss[0].display_seq());
    } else {
        lemma_seq_display_snoc(ss.drop_first(), i - 1);
        assert(ss.take(i + 1).drop_first() =~= ss.drop_first().take(i));
        assert(ss.take(i).drop_first() =~= ss.drop_first().take(i - 1));
        assert(ss.take(i + 1)[0] == ss[0]);
        assert(ss.take(i)[0] == ss[0]);
        assert(ss.drop_first()[i - 1] == ss[i]);
        assert(seq_display(ss.take(i + 1)) == ss[0].display_seq() + seq_display(
            ss.drop_first().take(i),
        ));
        assert(ss[0].display_seq() + (seq_display(ss.drop_first().take(i - 1))
            + ss[i].display_seq()) =~= (ss[0].display_seq() + seq_display(
            ss.drop_first().take(i - 1),
        )) + ss[i].display_seq());
    }
}

impl Hangul {
    /// Every syllable is well-formed, and only the last may be empty.
    pub open spec fn wf(self) -> bool {
        forall|i: int| 0 <= i < self@.len() ==> (#[trigger] self@[i]).wf() && (i < self@.len() - 1
            ==> !(self@[i].state_spec() is Start))
    }

    /// The syllables, oldest first.
    pub fn syllables(&self) -> (r: &Vec<Syllable>)
        ensures
            r@ == self@,
    {
        &self.syllables
    }

    /// How many syllables the string holds.
    pub fn len(&self) -> (r: usize)
        ensures
            r == self@.len(),
    {
        self.syllables.len()
    }

    /// Whether the string holds no syllable at all.
    pub fn is_empty(&self) -> (r: bool)
        ensures
            r == (self@.len() == 0),
    {
        self.syllables.len() == 0
    }

    /// The syllable at the given position.
    pub fn syllable_at(&self, i: usize) -> (r: Syllable)
        requires
            i < self@.len(),
        ensures
            r == self@[i as int],
    {
        self.syllables[i]
    }

    /// Removes every syllable.
    pub fn clear(&mut self)
        ensures
            final(self)@ == Seq::<Syllable>::empty(),
    {
        self.syllables.clear();
    }

    /// Appends a syllable as-is, without feeding it through the state
    /// machine.
    pub fn push_syllable(&mut self, s: Syllable)
        ensures
            final(self)@ == old(self)@.push(s),
    {
        self.syllables.push(s);
    }

    /// The syllables' ordering keys, in order: comparing two strings by
    /// these vectors orders them as their displayed syllables do.
    pub fn sort_key(&self) -> (r: Vec<u32>)
        ensures
            r@.len() == self@.len(),
            forall|i: int| 0 <= i < r@.len() ==> r@[i] == self@[i].sort_key_spec(),
    {
        let mut r: Vec<u32> = Vec::new();
        let mut i: usize = 0;
        while i < self.syllables.len()
            invariant
                i <= self@.len(),
                r@.len() == i,
                forall|k: int| 0 <= k < i ==> r@[k] == self@[k].sort_key_spec(),
            decreases self@.len() - i,
        {
            r.push(self.syllables[i].sort_key());
            i = i + 1;
        }
        r
    }

    /// Removes the last syllable as-is, without decomposing it.
    pub fn pop_syllable(&mut self) -> (r: Option<Syllable>)
        ensures
            old(self)@.len() == 0 ==> r is None && *final(self) == *old(self),
            old(self)@.len() > 0 ==> r == Some(old(self)@.last()) && final(self)@ == old(
                self,
            )@.drop_last(),
            old(self).wf() ==> final(self).wf(),
    {
        if self.syllables.len() == 0 {
            None
        } else {
            Some(self.syllables.pop().unwrap())
        }
    }

    /// What one `push_back` does to the syllables, or the error it
    /// reports: an empty sequence first gains one empty syllable, the
    /// letter is fed to the last syllable, and an overflowing syllable is
    /// appended.
    pub open spec fn push_back_spec(self, jamo: Jamo) -> Result<Seq<Syllable>, SyllableError> {
        Hangul::push_back_seq(self@, jamo)
    }

    /// `push_back` described over a bare sequence of syllables.
    pub open spec fn push_back_seq(ss: Seq<Syllable>, jamo: Jamo) -> Result<
        Seq<Syllable>,
        SyllableError,
    > {
        let base = if ss.len() == 0 {
            seq![Syllable::empty_spec()]
        } else {
            ss
        };
        let n = base.len() - 1;
        match base[n].push_spec(jamo) {
            Err(e) => Err(e),
            Ok((s2, None)) => Ok(base.update(n, s2)),
            Ok((s2, Some(o))) => Ok(base.update(n, s2).push(o)),
        }
    }

    /// `break_with` described over a bare sequence of syllables: the
    /// letter seeds a fresh syllable, which replaces a sole empty last
    /// syllable and is appended otherwise.
    pub open spec fn break_with_seq(ss: Seq<Syllable>, jamo: Jamo) -> Result<
        Seq<Syllable>,
        SyllableError,
    > {
        match Syllable::empty_spec().push_spec(jamo) {
            Err(e) => Err(e),
            Ok((s, _)) => Ok(
                if ss.len() > 0 && ss.last().state_spec() is Start {
                    ss.update(ss.len() - 1, s)
                } else {
                    ss.push(s)
                },
            ),
        }
    }

    /// Feeds one letter into the last syllable, creating the first
    /// syllable in an empty string, and appending the overflow as a new
    /// syllable where the letter did not fit. On an error the string is
    /// unchanged.
    pub fn push_back(&mut self, jamo: Jamo) -> (r: HangulResult<()>)
        ensures
            match old(self).push_back_spec(jamo) {
                Ok(sq) => r == Ok::<(), HangulError>(()) && final(self)@ == sq,
                Err(e) => r == Err::<(), HangulError>(HangulError::Syllable(e))
                    && *final(self) == *old(self),
            },
            old(self).wf() ==> final(self).wf(),
    {
        proof {
            if old(self).wf() && old(self)@.len() > 0 {
                assert(old(self)@[old(self)@.len() - 1].wf());
                crate::syllable::lemma_push_spec_props(old(self)@.last(), jamo);
            } else {
                crate::syllable::lemma_push_spec_props(Syllable::empty_spec(), jamo);
            }
        }
        if self.syllables.len() == 0 {
            let mut syl = Syllable::default();
            match syl.push(jamo) {
                Ok(_) => {
                    self.syllables.push(syl);
                    proof {
                        assert(final(self)@ =~= old(self).push_back_spec(jamo)->Ok_0);
                    }
                    Ok(())
                },
                Err(e) => Err(HangulError::Syllable(e)),
            }
        } else {
            let n = self.syllables.len() - 1;
            let mut last = self.syllables[n];
            match last.push(jamo) {
                Ok(overflow) => {
                    self.syllables[n] = last;
                    match overflow {
                        Some(o) => self.syllables.push(o),
                        None => {},
                    }
                    Ok(())
                },
                Err(e) => Err(HangulError::Syllable(e)),
            }
        }
    }

    /// What one `pop_back` does to the syllables, and the letter it
    /// yields: trailing empty syllables vanish — except a sole remaining
    /// one — the last syllable gives up its last letter, and a syllable
    /// emptied this way vanishes too unless it is the only one left.
    pub open spec fn pop_back_spec(self) -> (Seq<Syllable>, Option<Jamo>) {
        let base = if self@.len() > 1 && self@.last().state_spec() is Start {
            self@.drop_last()
        } else {
            self@
        };
        if base.len() == 0 {
            (base, None)
        } else if base.last().state_spec() is Start {
            (base, None)
        } else {
            let (s2, j) = base.last().pop_spec();
            if s2.state_spec() is Start && base.len() > 1 {
                (base.drop_last(), j)
            } else {
                (base.update(base.len() - 1, s2), j)
            }
        }
    }

    /// Takes the last letter back off the string: trailing empty
    /// syllables vanish, and a syllable emptied by the pop vanishes with
    /// them, except that a sole remaining syllable is kept even when
    /// empty. Returns `None` when there is nothing left to pop.
    pub fn pop_back(&mut self) -> (r: Option<Jamo>)
        ensures
            final(self)@ == old(self).pop_back_spec().0,
            r == old(self).pop_back_spec().1,
            old(self).wf() ==> final(self).wf(),
    {
        let n = self.syllables.len();
        if n > 1 {
            let last = self.syllables[n - 1];
            if last.is_empty() {
                let _ = self.syllables.pop();
            }
        }
        let n = self.syllables.len();
        if n == 0 {
            return None;
        }
        let mut last = self.syllables[n - 1];
        if last.is_empty() {
            return None;
        }
        let r = last.pop();
        if last.is_empty() && n > 1 {
            let _ = self.syllables.pop();
        } else {
            self.syllables[n - 1] = last;
        }
        r
    }

    /// Forces a hard syllable boundary: the letter seeds a brand-new
    /// syllable at the end of the string, whatever the current last
    /// syllable could still accept. A sole empty syllable is replaced
    /// instead, and a letter that cannot open a syllable is an error.
    pub fn break_with(&mut self, jamo: Jamo) -> (r: HangulResult<()>)
        ensures
            match Hangul::break_with_seq(old(self)@, jamo) {
                Ok(sq) => r == Ok::<(), HangulError>(()) && final(self)@ == sq,
                Err(e) => r == Err::<(), HangulError>(HangulError::Syllable(e))
                    && *final(self) == *old(self),
            },
            old(self).wf() ==> final(self).wf(),
    {
        proof {
            crate::syllable::lemma_push_spec_props(Syllable::empty_spec(), jamo);
        }
        match Syllable::from_jamo(jamo) {
            Ok(s) => {
                let n = self.syllables.len();
                if n > 0 && self.syllables[n - 1].is_empty() {
                    self.syllables[n - 1] = s;
                } else {
                    self.syllables.push(s);
                }
                Ok(())
            },
            Err(e) => Err(HangulError::Syllable(e)),
        }
    }

    /// The displayed text: each syllable's displayed character in order,
    /// empty syllables contributing nothing.
    pub fn display_string(&self) -> (r: String)
        ensures
            r@ == seq_display(self@),
    {
        let mut s = String::new();
        let mut i: usize = 0;
        proof {
            assert(self@.take(0) =~= Seq::<Syllable>::empty());
        }
        while i < self.syllables.len()
            invariant
                i <= self@.len(),
                s@ == seq_display(self@.take(i as int)),
            decreases self@.len() - i,
        {
            match self.syllables[i].display_char() {
                Some(c) => s.push(c),
                None => {},
            }
            proof {
                lemma_seq_display_snoc(self@, i as int);
            }
            i = i + 1;
        }
        proof {
            assert(self@.take(self@.len() as int) =~= self@);
        }
        s
    }

    /// Reads a displayed string back: each character must be a
    /// precomposed syllable block or the compatibility glyph of a leading
    /// consonant, and each becomes one syllable. `None` where any
    /// character has no such reading.
    pub fn from_display(text: &str) -> (r: Option<Hangul>)
        ensures
            r is Some <==> (forall|i: int| 0 <= i < text@.len()
                ==> (#[trigger] Syllable::from_char_spec(text@[i])) is Some),
            r matches Some(h) ==> h@.len() == text@.len() && (forall|i: int|
                0 <= i < text@.len()
                    ==> h@[i] == (#[trigger] Syllable::from_char_spec(text@[i]))->0) && h.wf(),
    {
        let n = text.unicode_len();
        let mut v: Vec<Syllable> = Vec::new();
        let mut i: usize = 0;
        while i < n
            invariant
                n == text@.len(),
                i <= n,
                v@.len() == i,
                forall|k: int| 0 <= k < i
                    ==> (#[trigger] Syllable::from_char_spec(text@[k])) is Some,
                forall|k: int| 0 <= k < i ==> v@[k] == Syllable::from_char_spec(text@[k])->0,
                forall|k: int| 0 <= k < i ==> (#[trigger] v@[k]).wf() && v@[k].initial is Some,
            decreases n - i,
        {
            let c = text.get_char(i);
            match Syllable::from_char(c) {
                Some(s) => v.push(s),
                None => {
                    return None;
                },
            }
            i = i + 1;
        }
        Some(Hangul { syllables: v })
    }
}

/// Displaying and reading back restore the syllables: for well-formed,
/// non-empty syllables the displayed text has exactly one character per
/// syllable, and each character reads back as the syllable it came from.
pub proof fn lemma_display_roundtrip(ss: Seq<Syllable>)
    requires
        forall|i: int| 0 <= i < ss.len() ==> (#[trigger] ss[i]).wf() && ss[i].initial is Some,
    ensures
        seq_display(ss).len() == ss.len(),
        forall|i: int| 0 <= i < ss.len()
            ==> Syllable::from_char_spec(#[trigger] seq_display(ss)[i]) == Some(ss[i]),
    decreases ss.len(),
{
    if ss.len() > 0 {
        let tail = ss.drop_first();
        assert(forall|i: int| 0 <= i < tail.len() ==> tail[i] == ss[i + 1]);
        lemma_display_roundtrip(tail);
        crate::syllable::lemma_display_char_roundtrip(ss[0]);
        assert(ss[0].display_seq().len() == 1);
        assert(seq_display(ss) == ss[0].display_seq() + seq_display(tail));
        assert(seq_display(ss)[0] == ss[0].display_char_spec()->0);
        assert forall|i: int| 0 <= i < ss.len()
            implies Syllable::from_char_spec(#[trigger] seq_display(ss)[i]) == Some(ss[i]) by {
            if i > 0 {
                assert(seq_display(ss)[i] == seq_display(tail)[i - 1]);
                assert(tail[i - 1] == ss[i]);
            }
        }
    }
}

} // verus!
