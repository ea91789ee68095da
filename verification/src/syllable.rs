//! The per-block finite-state machine: one Unicode Hangul syllable built
//! up letter by letter.
//!
//! A [`Syllable`] holds an optional leading consonant, vowel and trailing
//! consonant; [`Syllable::push`] feeds it one letter and either absorbs
//! it, spills it into a fresh syllable (the *overflow*), or rejects it,
//! and [`Syllable::pop`] takes the last letter back off.

use vstd::prelude::*;

use crate::jamo::{FinalJamo, InitialJamo, Jamo, JamoError, MedialJamo};

verus! {

/// What the syllable can accept next, derived from its contents.
#[derive(Clone, Copy, Debug, PartialEq, Eq, Structural)]
pub enum State {
    /// Nothing is set: the next letter must be a leading consonant or a
    /// vowel.
    Start,
    /// Only the leading consonant is set: the next letter must be a vowel.
    Medial,
    /// Leading consonant and vowel are set, and the vowel can still merge
    /// into a diphthong.
    Open,
    /// Leading consonant and vowel are set, and either no trailing
    /// consonant is set yet, or the one that is can still grow a cluster.
    OpenFinal,
    /// Nothing more can be absorbed in place.
    End,
}

/// One Unicode Hangul syllable block in the making.
///
/// Well-formedness ([`Syllable::wf`]): the vowel is set only if the
/// leading consonant is, and the trailing consonant only if the vowel is.
#[derive(Clone, Copy, Debug, PartialEq, Eq, Hash)]
pub struct Syllable {
    pub initial: Option<InitialJamo>,
    pub medial: Option<MedialJamo>,
    pub finale: Option<FinalJamo>,
}

/// A letter arrived that the syllable can make no use of, not even as the
/// start of a following syllable.
#[derive(Clone, Copy, Debug, PartialEq, Eq, Structural)]
pub enum SyllableError {
    /// The state accepts only a leading consonant or a vowel.
    ExpectedInitialOrMedial(Jamo),
    /// The state accepts only a vowel.
    ExpectedMedial(Jamo),
    /// A combination inside the syllable failed.
    Jamo(JamoError),
}

pub type SyllableResult<T> = Result<T, SyllableError>;

impl Default for Syllable {
    /// The empty syllable.
    fn default() -> (r: Syllable)
        ensures
            r == Syllable::empty_spec(),
    {
        Syllable { initial: None, medial: None, finale: None }
    }
}

impl Syllable {
    /// The empty syllable.
    pub open spec fn empty_spec() -> Syllable {
        Syllable { initial: None, medial: None, finale: None }
    }

    /// The vowel is set only below a leading consonant, and the trailing
    /// consonant only below a vowel.
    pub open spec fn wf(self) -> bool {
        &&& self.medial is Some ==> self.initial is Some
        &&& self.finale is Some ==> self.medial is Some
    }

    /// The state derived from the contents.
    pub open spec fn state_spec(self) -> State {
        match (self.initial, self.medial, self.finale) {
            (None, _, _) => State::Start,
            (Some(_), None, _) => State::Medial,
            (Some(_), Some(m), None) => if m.combine_possible_spec().len() > 0 {
                State::Open
            } else {
                State::OpenFinal
            },
            (Some(_), Some(_), Some(f)) => if f.append_possible_spec().len() > 0 {
                State::OpenFinal
            } else {
                State::End
            },
        }
    }

    /// The state derived from the contents.
    pub fn state(&self) -> (r: State)
        ensures
            r == self.state_spec(),
    {
        match (self.initial, self.medial, self.finale) {
            (None, _, _) => State::Start,
            (Some(_), None, _) => State::Medial,
            (Some(_), Some(m), None) => if m.combine_possible().len() > 0 {
                State::Open
            } else {
                State::OpenFinal
            },
            (Some(_), Some(_), Some(f)) => if f.append_possible().len() > 0 {
                State::OpenFinal
            } else {
                State::End
            },
        }
    }

    /// Whether nothing is set yet.
    pub fn is_empty(&self) -> (r: bool)
        ensures
            r == (self.state_spec() is Start),
    {
        matches!(self.state(), State::Start)
    }

    /// The leading consonant, where one is set.
    pub fn initial(&self) -> (r: Option<InitialJamo>)
        ensures
            r == self.initial,
    {
        self.initial
    }

    /// The vowel, where one is set.
    pub fn medial(&self) -> (r: Option<MedialJamo>)
        ensures
            r == self.medial,
    {
        self.medial
    }

    /// The trailing consonant, where one is set.
    pub fn finale(&self) -> (r: Option<FinalJamo>)
        ensures
            r == self.finale,
    {
        self.finale
    }

    /// A syllable holding just the given leading consonant.
    pub open spec fn from_initial_spec(ij: InitialJamo) -> Syllable {
        Syllable { initial: Some(ij), medial: None, finale: None }
    }

    /// A syllable holding just the given leading consonant.
    pub fn from_initial(ij: InitialJamo) -> (r: Syllable)
        ensures
            r == Syllable::from_initial_spec(ij),
    {
        Syllable { initial: Some(ij), medial: None, finale: None }
    }

    /// A syllable holding the given vowel under the silent leading
    /// consonant.
    pub open spec fn from_medial_spec(mj: MedialJamo) -> Syllable {
        Syllable { initial: Some(InitialJamo::Silent), medial: Some(mj), finale: None }
    }

    /// A syllable holding the given vowel under the silent leading
    /// consonant.
    pub fn from_medial(mj: MedialJamo) -> (r: Syllable)
        ensures
            r == Syllable::from_medial_spec(mj),
    {
        Syllable { initial: Some(InitialJamo::Silent), medial: Some(mj), finale: None }
    }

    /// What one push does: the syllable afterwards, together with the
    /// overflow — a fresh syllable seeded from the letter where it did not
    /// fit into this one — or the error for a letter that cannot even
    /// start a syllable.
    pub open spec fn push_spec(self, jamo: Jamo) -> Result<
        (Syllable, Option<Syllable>),
        SyllableError,
    > {
        match self.state_spec() {
            State::Start => match (jamo.as_initial(), jamo.as_medial()) {
                (Some(ij), _) => Ok((Syllable { initial: Some(ij), ..self }, None)),
                (None, Some(mj)) => Ok((
                    Syllable { initial: Some(InitialJamo::Silent), medial: Some(mj), ..self },
                    None,
                )),
                (None, None) => Err(SyllableError::ExpectedInitialOrMedial(jamo)),
            },
            State::Medial => match jamo.as_medial() {
                Some(mj) => Ok((Syllable { medial: Some(mj), ..self }, None)),
                None => Err(SyllableError::ExpectedMedial(jamo)),
            },
            State::Open => match (jamo.as_medial(), jamo.as_final(), jamo.as_initial()) {
                (Some(mj), _, _) => match self.medial->0.combine_spec(mj) {
                    Some(c) => Ok((Syllable { medial: Some(c), ..self }, None)),
                    None => Ok((self, Some(Syllable::from_medial_spec(mj)))),
                },
                (None, Some(fj), _) => Ok((Syllable { finale: Some(fj), ..self }, None)),
                (None, None, Some(ij)) => Ok((self, Some(Syllable::from_initial_spec(ij)))),
                (None, None, None) => Err(SyllableError::ExpectedInitialOrMedial(jamo)),
            },
            State::OpenFinal => match (jamo.as_final(), jamo.as_initial(), jamo.as_medial()) {
                (Some(fj), _, _) => match self.finale {
                    Some(f) => match f.append_spec(fj) {
                        Some(c) => Ok((Syllable { finale: Some(c), ..self }, None)),
                        None => match fj.jamo_spec().as_initial() {
                            Some(ij) => Ok((self, Some(Syllable::from_initial_spec(ij)))),
                            None => Err(SyllableError::Jamo(
                                JamoError::IncompatibleCombine(f.jamo_spec(), fj.jamo_spec()),
                            )),
                        },
                    },
                    None => Ok((Syllable { finale: Some(fj), ..self }, None)),
                },
                (None, Some(ij), _) => Ok((self, Some(Syllable::from_initial_spec(ij)))),
                (None, None, Some(mj)) => Ok((self, Some(Syllable::from_medial_spec(mj)))),
                (None, None, None) => Err(SyllableError::ExpectedInitialOrMedial(jamo)),
            },
            State::End => match (jamo.as_initial(), jamo.as_medial()) {
                (Some(ij), _) => Ok((self, Some(Syllable::from_initial_spec(ij)))),
                (None, Some(mj)) => Ok((self, Some(Syllable::from_medial_spec(mj)))),
                (None, None) => Err(SyllableError::ExpectedInitialOrMedial(jamo)),
            },
        }
    }

    /// Feeds one letter into the syllable.
    ///
    /// `Ok(None)` means the letter was absorbed in place; `Ok(Some(s))`
    /// means it did not fit here and instead seeded the fresh syllable
    /// `s`, to be appended after this one; an error means the letter
    /// cannot even start a syllable. On an error the syllable is
    /// unchanged.
    pub fn push(&mut self, jamo: Jamo) -> (r: SyllableResult<Option<Syllable>>)
        ensures
            match old(self).push_spec(jamo) {
                Ok((s, overflow)) => r == Ok::<Option<Syllable>, SyllableError>(overflow)
                    && *final(self) == s,
                Err(e) => r == Err::<Option<Syllable>, SyllableError>(e)
                    && *final(self) == *old(self),
            },
            old(self).wf() ==> final(self).wf(),
            old(self).wf() ==> match final(self).push_spec(jamo) {
                Ok((_, overflow)) => overflow matches Some(s) ==> s.wf(),
                Err(_) => true,
            },
    {
        match self.state() {
            State::Start => {
                if let Ok(ij) = jamo.to_initial() {
                    self.initial = Some(ij);
                    Ok(None)
                } else if let Ok(mj) = jamo.to_medial() {
                    self.initial = Some(InitialJamo::Silent);
                    self.medial = Some(mj);
                    Ok(None)
                } else {
                    Err(SyllableError::ExpectedInitialOrMedial(jamo))
                }
            },
            State::Medial => {
                if let Ok(mj) = jamo.to_medial() {
                    Ok(self.set_or_combine(mj))
                } else {
                    Err(SyllableError::ExpectedMedial(jamo))
                }
            },
            State::Open => {
                if let Ok(mj) = jamo.to_medial() {
                    Ok(self.set_or_combine(mj))
                } else if let Ok(fj) = jamo.to_final() {
                    self.finale = Some(fj);
                    Ok(None)
                } else if let Ok(ij) = jamo.to_initial() {
                    Ok(Some(Syllable::from_initial(ij)))
                } else {
                    proof {
                        crate::jamo::lemma_jamo_role_total();
                    }
                    vstd::pervasive::unreached()
                }
            },
            State::OpenFinal => {
                if let Ok(fj) = jamo.to_final() {
                    self.set_or_append(fj)
                } else if let Ok(ij) = jamo.to_initial() {
                    Ok(Some(Syllable::from_initial(ij)))
                } else if let Ok(mj) = jamo.to_medial() {
                    Ok(Some(Syllable::from_medial(mj)))
                } else {
                    proof {
                        crate::jamo::lemma_jamo_role_total();
                    }
                    vstd::pervasive::unreached()
                }
            },
            State::End => {
                if let Ok(ij) = jamo.to_initial() {
                    Ok(Some(Syllable::from_initial(ij)))
                } else if let Ok(mj) = jamo.to_medial() {
                    Ok(Some(Syllable::from_medial(mj)))
                } else {
                    Err(SyllableError::ExpectedInitialOrMedial(jamo))
                }
            },
        }
    }

    /// Sets the vowel, or merges it with the one already set; where the
    /// pair does not merge, the vowel seeds the overflow instead.
    fn set_or_combine(&mut self, medial: MedialJamo) -> (r: Option<Syllable>)
        ensures
            match old(self).medial {
                Some(m) => match m.combine_spec(medial) {
                    Some(c) => r is None
                        && *final(self) == (Syllable { medial: Some(c), ..*old(self) }),
                    None => r == Some(Syllable::from_medial_spec(medial))
                        && *final(self) == *old(self),
                },
                None => r is None
                    && *final(self) == (Syllable { medial: Some(medial), ..*old(self) }),
            },
    {
        match self.medial {
            Some(mj) => match mj.combine(medial) {
                Ok(nmj) => {
                    self.medial = Some(nmj);
                    None
                },
                Err(_) => Some(Syllable::from_medial(medial)),
            },
            None => {
                self.medial = Some(medial);
                None
            },
        }
    }

    /// Sets the trailing consonant, or grows the one already set into a
    /// cluster; where the pair does not merge, a consonant that could lead
    /// a syllable seeds the overflow, and any other reports the failed
    /// combination.
    fn set_or_append(&mut self, finale: FinalJamo) -> (r: SyllableResult<Option<Syllable>>)
        ensures
            match old(self).finale {
                Some(f) => match f.append_spec(finale) {
                    Some(c) => r == Ok::<Option<Syllable>, SyllableError>(None)
                        && *final(self) == (Syllable { finale: Some(c), ..*old(self) }),
                    None => *final(self) == *old(self) && match finale.jamo_spec().as_initial() {
                        Some(ij) => r == Ok::<Option<Syllable>, SyllableError>(
                            Some(Syllable::from_initial_spec(ij)),
                        ),
                        None => r == Err::<Option<Syllable>, SyllableError>(
                            SyllableError::Jamo(
                                JamoError::IncompatibleCombine(f.jamo_spec(), finale.jamo_spec()),
                            ),
                        ),
                    },
                },
                None => r == Ok::<Option<Syllable>, SyllableError>(None)
                    && *final(self) == (Syllable { finale: Some(finale), ..*old(self) }),
            },
    {
        match self.finale {
            Some(fj) => match fj.append(finale) {
                Ok(nfj) => {
                    self.finale = Some(nfj);
                    Ok(None)
                },
                Err(e) => {
                    if let Ok(ij) = finale.to_jamo().to_initial() {
                        Ok(Some(Syllable::from_initial(ij)))
                    } else {
                        Err(SyllableError::Jamo(e))
                    }
                },
            },
            None => {
                self.finale = Some(finale);
                Ok(None)
            },
        }
    }

    /// What one pop does: the syllable afterwards and the letter taken off
    /// its tail, `None` when it was empty. A cluster or diphthong gives up
    /// only its second part.
    pub open spec fn pop_spec(self) -> (Syllable, Option<Jamo>) {
        match self.finale {
            Some(fj) => match fj.components_spec() {
                (n1, None) => (
                    Syllable { finale: None, ..self },
                    Some(n1.jamo_spec()),
                ),
                (n1, Some(n2)) => (
                    Syllable { finale: Some(n1), ..self },
                    Some(n2.jamo_spec()),
                ),
            },
            None => match self.medial {
                Some(mj) => match mj.components_spec() {
                    (n1, None) => (
                        Syllable { medial: None, ..self },
                        Some(n1.jamo_spec()),
                    ),
                    (n1, Some(n2)) => (
                        Syllable { medial: Some(n1), ..self },
                        Some(n2.jamo_spec()),
                    ),
                },
                None => match self.initial {
                    Some(ij) => (Syllable { initial: None, ..self }, Some(ij.jamo_spec())),
                    None => (self, None),
                },
            },
        }
    }

    /// Takes the last letter off the tail of the syllable: a cluster or
    /// diphthong gives up its second part first. Returns `None` on an
    /// empty syllable.
    pub fn pop(&mut self) -> (r: Option<Jamo>)
        ensures
            *final(self) == old(self).pop_spec().0,
            r == old(self).pop_spec().1,
            old(self).wf() ==> final(self).wf(),
    {
        if let Some(fj) = self.finale {
            match fj.components() {
                (n1, None) => {
                    self.finale = None;
                    Some(n1.to_jamo())
                },
                (n1, Some(n2)) => {
                    self.finale = Some(n1);
                    Some(n2.to_jamo())
                },
            }
        } else if let Some(mj) = self.medial {
            match mj.components() {
                (n1, None) => {
                    self.medial = None;
                    Some(n1.to_jamo())
                },
                (n1, Some(n2)) => {
                    self.medial = Some(n1);
                    Some(n2.to_jamo())
                },
            }
        } else if let Some(ij) = self.initial {
            self.initial = None;
            Some(ij.to_jamo())
        } else {
            None
        }
    }
}

impl Syllable {
    /// The code point of the precomposed character for a syllable whose
    /// leading consonant and vowel are set; a missing trailing consonant
    /// counts as id 0.
    pub open spec fn codepoint_spec(self) -> nat
        recommends
            self.initial is Some,
            self.medial is Some,
    {
        0xAC00 + self.initial->0.id_spec() * 588 + self.medial->0.id_spec() * 28 + (
        match self.finale {
            Some(f) => f.id_spec(),
            None => 0,
        })
    }

    /// The single character the syllable displays as: nothing when empty,
    /// the bare compatibility glyph while only the leading consonant is
    /// set, and the precomposed character once the vowel is set.
    pub open spec fn display_char_spec(self) -> Option<char> {
        match (self.initial, self.medial) {
            (None, _) => None,
            (Some(ij), None) => Some(ij.jamo_spec().glyph_spec()),
            (Some(_), Some(_)) => Some(self.codepoint_spec() as char),
        }
    }

    /// Every codepoint the formula can produce stays inside the Hangul
    /// syllable block, below `0xD7A4`.
    pub proof fn lemma_codepoint_in_block(self)
        requires
            self.initial is Some,
            self.medial is Some,
        ensures
            0xAC00 <= self.codepoint_spec() < 0xD7A4,
    {
        assert(self.initial->0.id_spec() <= 18);
        assert(self.medial->0.id_spec() <= 20);
        assert(match self.finale {
            Some(f) => f.id_spec() <= 27,
            None => true,
        });
    }

    /// The character the syllable displays as, synthesized from the
    /// codepoint formula `0xAC00 + initial·588 + medial·28 + final`;
    /// `None` for the empty syllable.
    pub fn display_char(&self) -> (r: Option<char>)
        ensures
            r == self.display_char_spec(),
    {
        match (self.initial, self.medial) {
            (None, _) => None,
            (Some(ij), None) => Some(ij.to_jamo().glyph()),
            (Some(ij), Some(mj)) => {
                proof {
                    self.lemma_codepoint_in_block();
                }
                let fin: u32 = match self.finale {
                    Some(f) => f.id() as u32,
                    None => 0,
                };
                let u: u32 = 0xAC00 + ij.id() as u32 * 588 + mj.id() as u32 * 28 + fin;
                Some(crate::char_from_u32(u).unwrap())
            },
        }
    }

    /// The displayed character as a sequence: empty for the empty
    /// syllable, one character otherwise.
    pub open spec fn display_seq(self) -> Seq<char> {
        match self.display_char_spec() {
            None => Seq::empty(),
            Some(c) => seq![c],
        }
    }

    /// The displayed text of the syllable: empty for the empty syllable,
    /// one character otherwise.
    pub fn display_string(&self) -> (r: String)
        ensures
            r@ == self.display_seq(),
    {
        let mut s = String::new();
        match self.display_char() {
            None => {},
            Some(c) => {
                s.push(c);
                proof {
                    assert(s@ =~= self.display_seq());
                }
            },
        }
        s
    }

    /// A key ordering syllables as their displayed characters do: the
    /// empty syllable first, bare leading consonants next in id order,
    /// and composed blocks by their code point. Distinct syllables have
    /// distinct keys, so sorting by this key also groups equal syllables.
    pub open spec fn sort_key_spec(self) -> nat {
        match (self.initial, self.medial) {
            (None, _) => 0,
            (Some(ij), None) => 1 + ij.id_spec(),
            (Some(_), Some(_)) => self.codepoint_spec(),
        }
    }

    /// A key ordering syllables as their displayed characters do.
    pub fn sort_key(&self) -> (r: u32)
        ensures
            r == self.sort_key_spec(),
    {
        match (self.initial, self.medial) {
            (None, _) => 0,
            (Some(ij), None) => 1 + ij.id() as u32,
            (Some(ij), Some(mj)) => {
                proof {
                    self.lemma_codepoint_in_block();
                }
                let fin: u32 = match self.finale {
                    Some(f) => f.id() as u32,
                    None => 0,
                };
                0xAC00 + ij.id() as u32 * 588 + mj.id() as u32 * 28 + fin
            },
        }
    }

    /// Whether `push` would absorb the letter in place, with no overflow
    /// and no error.
    pub open spec fn possible_spec(self, j: Jamo) -> bool {
        match self.state_spec() {
            State::Start => j.role_possible(true, true, None, false, None),
            State::Medial => j.role_possible(false, true, None, false, None),
            State::Open => j.role_possible(false, true, self.medial, true, None),
            State::OpenFinal => j.role_possible(false, false, None, true, self.finale),
            State::End => false,
        }
    }

    /// Every letter that `push` would absorb in place from the current
    /// state, without overflow or error.
    pub fn possible(&self) -> (r: Vec<Jamo>)
        ensures
            forall|j: Jamo| #[trigger] r@.contains(j) <==> self.possible_spec(j),
            r@.no_duplicates(),
    {
        match self.state() {
            State::Start => Jamo::all_multi(true, true, false),
            State::Medial => Jamo::all_medial(),
            State::Open => Jamo::all_or_possible(false, (true, self.medial), (true, self.finale)),
            State::OpenFinal => Jamo::all_or_possible(
                false,
                (false, None),
                (true, self.finale),
            ),
            State::End => Vec::new(),
        }
    }

    /// How many simple letters the syllable holds, counting the two parts
    /// of a cluster or diphthong separately.
    pub open spec fn jamo_count(self) -> nat {
        (match self.initial {
            Some(_) => 1nat,
            None => 0nat,
        }) + (match self.medial {
            Some(m) => if m.components_spec().1 is Some {
                2nat
            } else {
                1nat
            },
            None => 0nat,
        }) + (match self.finale {
            Some(f) => if f.components_spec().1 is Some {
                2nat
            } else {
                1nat
            },
            None => 0nat,
        })
    }

    /// The letters that popping the syllable down to empty yields, in the
    /// order they come off.
    pub open spec fn pop_all(self) -> Seq<Jamo>
        decreases self.jamo_count(),
    {
        if self.jamo_count() == 0 {
            Seq::empty()
        } else {
            seq![self.pop_spec().1->0] + self.pop_spec().0.pop_all()
        }
    }

    /// Folds a sequence of letters into the syllable: `Some` of the final
    /// syllable where every push is absorbed in place, `None` where any
    /// push overflows or errors.
    pub open spec fn push_all(s: Syllable, js: Seq<Jamo>) -> Option<Syllable>
        decreases js.len(),
    {
        if js.len() == 0 {
            Some(s)
        } else {
            match s.push_spec(js[0]) {
                Ok((t, None)) => Syllable::push_all(t, js.drop_first()),
                _ => None,
            }
        }
    }
}

impl Syllable {
    /// A syllable seeded from a single letter: a leading consonant or a
    /// vowel opens one, any other letter is rejected.
    pub fn from_jamo(jamo: Jamo) -> (r: SyllableResult<Syllable>)
        ensures
            match Syllable::empty_spec().push_spec(jamo) {
                Ok((s, _)) => r == Ok::<Syllable, SyllableError>(s) && s.wf(),
                Err(e) => r == Err::<Syllable, SyllableError>(e),
            },
    {
        let mut syl = Syllable::default();
        match syl.push(jamo) {
            Ok(_) => Ok(syl),
            Err(e) => Err(e),
        }
    }

    /// The syllable that displays as the given character: a precomposed
    /// block character decomposes into its letters, a compatibility glyph
    /// of a leading consonant opens a bare-initial syllable, and any other
    /// character has no reading.
    pub open spec fn from_char_spec(c: char) -> Option<Syllable> {
        let u = c as int;
        if 0xAC00 <= u < 0xD7A4 {
            let x = u - 0xAC00;
            Some(
                Syllable {
                    initial: Some(InitialJamo::from_id_spec((x / 588) as nat)),
                    medial: Some(MedialJamo::from_id_spec(((x % 588) / 28) as nat)),
                    finale: if (x % 588) % 28 == 0 {
                        None
                    } else {
                        Some(FinalJamo::from_id_spec(((x % 588) % 28) as nat))
                    },
                },
            )
        } else if 0x3131 <= u <= 0x3163 {
            match Jamo::from_id_spec((u - 0x3131) as nat).as_initial() {
                Some(ij) => Some(Syllable::from_initial_spec(ij)),
                None => None,
            }
        } else {
            None
        }
    }

    /// The syllable that displays as the given character, where one does.
    pub fn from_char(c: char) -> (r: Option<Syllable>)
        ensures
            r == Syllable::from_char_spec(c),
            r matches Some(s) ==> s.wf() && s.initial is Some,
    {
        let u = c as u32;
        if 0xAC00 <= u && u < 0xD7A4 {
            let x = (u - 0xAC00) as usize;
            let y = x % 588;
            let ij = InitialJamo::from_id(x / 588);
            let mj = MedialJamo::from_id(y / 28);
            let f_id = y % 28;
            let fin = if f_id == 0 {
                None
            } else {
                Some(FinalJamo::from_id(f_id))
            };
            Some(Syllable { initial: Some(ij), medial: Some(mj), finale: fin })
        } else if 0x3131 <= u && u <= 0x3163 {
            proof {
                crate::jamo::lemma_jamo_id_injective();
            }
            match Jamo::from_id((u - 0x3131) as usize).to_initial() {
                Ok(ij) => Some(Syllable::from_initial(ij)),
                Err(_) => None,
            }
        } else {
            None
        }
    }
}

/// Reading a displayed character back recovers the syllable: for any
/// well-formed, non-empty syllable, `from_char` of its displayed
/// character yields the syllable itself.
pub proof fn lemma_display_char_roundtrip(s: Syllable)
    requires
        s.wf(),
        s.initial is Some,
    ensures
        Syllable::from_char_spec(s.display_char_spec()->0) == Some(s),
{
    crate::jamo::lemma_initial_id_injective();
    crate::jamo::lemma_medial_id_injective();
    crate::jamo::lemma_final_id_injective();
    crate::jamo::lemma_jamo_id_injective();
    crate::jamo::lemma_narrowing_roundtrip();
    match (s.initial, s.medial) {
        (Some(ij), None) => {
            let c = ij.jamo_spec().glyph_spec();
            assert(ij.jamo_spec().codepoint_spec() <= 0x3163);
            assert(c as int == 0x3131 + ij.jamo_spec().id_spec());
        },
        (Some(ij), Some(mj)) => {
            s.lemma_codepoint_in_block();
            let u = s.codepoint_spec() as int;
            let c = s.display_char_spec()->0;
            assert(c as int == u);
            let x = u - 0xAC00;
            let f = match s.finale {
                Some(fj) => fj.id_spec() as int,
                None => 0,
            };
            assert(x == ij.id_spec() * 588 + mj.id_spec() * 28 + f);
            assert(ij.id_spec() <= 18 && mj.id_spec() <= 20 && 0 <= f <= 27);
            vstd::arithmetic::div_mod::lemma_fundamental_div_mod_converse(
                x,
                588,
                ij.id_spec() as int,
                mj.id_spec() * 28 + f,
            );
            assert(x / 588 == ij.id_spec());
            assert(x % 588 == mj.id_spec() * 28 + f);
            vstd::arithmetic::div_mod::lemma_fundamental_div_mod_converse(
                mj.id_spec() * 28 + f,
                28,
                mj.id_spec() as int,
                f,
            );
            assert((x % 588) / 28 == mj.id_spec());
            assert((x % 588) % 28 == f);
        },
        _ => {},
    }
}

/// Every letter in `possible` is absorbed in place: pushing it neither
/// overflows nor errors.
pub proof fn lemma_possible_accepted(s: Syllable, j: Jamo)
    requires
        s.wf(),
        s.possible_spec(j),
    ensures
        s.push_spec(j) is Ok,
        s.push_spec(j)->Ok_0.1 is None,
{
}

/// Pushing preserves well-formedness; an absorbed letter leaves the
/// syllable non-empty, and an overflowing one leaves it untouched and
/// seeds a well-formed, non-empty syllable.
pub proof fn lemma_push_spec_props(s: Syllable, j: Jamo)
    requires
        s.wf(),
    ensures
        match s.push_spec(j) {
            Ok((s2, ov)) => s2.wf() && match ov {
                Some(o) => s2 == s && o.wf() && !(o.state_spec() is Start),
                None => !(s2.state_spec() is Start),
            },
            Err(_) => true,
        },
{
}

/// Popping one letter and pushing it back restores the syllable: the
/// popped letter is absorbed in place, with no overflow, and the result
/// equals the syllable popped from.
pub proof fn lemma_pop_push(s: Syllable)
    requires
        s.wf(),
        !(s.state_spec() is Start),
    ensures
        s.pop_spec().1 is Some,
        s.pop_spec().0.wf(),
        s.pop_spec().0.jamo_count() + 1 == s.jamo_count(),
        s.pop_spec().0.push_spec(s.pop_spec().1->0) == Ok::<(Syllable, Option<Syllable>),
            SyllableError,
        >((s, None)),
{
    crate::jamo::lemma_components_inverse();
    crate::jamo::lemma_combine_possible_exact();
    crate::jamo::lemma_append_possible_exact();
    let (s2, jo) = s.pop_spec();
    let j = jo->0;
    match s.finale {
        Some(fj) => {
            match fj.components_spec() {
                (n1, Some(n2)) => {
                    assert(n1.append_possible_spec().contains(n2));
                    assert(n1.append_possible_spec().len() > 0);
                },
                (n1, None) => {},
            }
        },
        None => match s.medial {
            Some(mj) => {
                match mj.components_spec() {
                    (n1, Some(n2)) => {
                        assert(n1.combine_possible_spec().contains(n2));
                        assert(n1.combine_possible_spec().len() > 0);
                    },
                    (n1, None) => {},
                }
            },
            None => {},
        },
    }
    assert(s2.push_spec(j) == Ok::<(Syllable, Option<Syllable>), SyllableError>((s, None)));
}

/// Popping a syllable down to empty and re-pushing the popped letters in
/// the reverse order — the order they were originally absorbed in —
/// rebuilds an equal syllable, with every push absorbed in place.
pub proof fn lemma_pop_all_push_all(s: Syllable)
    requires
        s.wf(),
    ensures
        Syllable::push_all(Syllable::empty_spec(), s.pop_all().reverse()) == Some(s),
    decreases s.jamo_count(),
{
    if s.jamo_count() == 0 {
        assert(s == Syllable::empty_spec());
        assert(s.pop_all().reverse() =~= Seq::<Jamo>::empty());
    } else {
        assert(!(s.state_spec() is Start));
        lemma_pop_push(s);
        let (s2, jo) = s.pop_spec();
        let j = jo->0;
        lemma_pop_all_push_all(s2);
        assert(s.pop_all() == seq![j] + s2.pop_all());
        assert(s.pop_all().reverse() =~= s2.pop_all().reverse().push(j));
        lemma_push_all_snoc(Syllable::empty_spec(), s2.pop_all().reverse(), j);
    }
}

/// Unrolls `push_all` from the tail: pushing `ks` and then one more
/// letter is pushing `ks.push(j)`.
proof fn lemma_push_all_snoc(s: Syllable, ks: Seq<Jamo>, j: Jamo)
    ensures
        Syllable::push_all(s, ks.push(j)) == match Syllable::push_all(s, ks) {
            Some(t) => match t.push_spec(j) {
                Ok((t2, None)) => Some(t2),
                _ => None::<Syllable>,
            },
            None => None::<Syllable>,
        },
    decreases ks.len(),
{
    let js = ks.push(j);
    if ks.len() == 0 {
        assert(js.len() == 1);
        assert(js[0] == j);
        assert(js.drop_first() =~= Seq::<Jamo>::empty());
        assert(Syllable::push_all(s, ks) == Some(s));
        match s.push_spec(j) {
            Ok((t2, None)) => {
                assert(Syllable::push_all(s, js) == Syllable::push_all(t2, js.drop_first()));
                assert(Syllable::push_all(s, js) == Some(t2));
            },
            _ => {
                assert(Syllable::push_all(s, js) is None);
            },
        }
    } else {
        assert(js[0] == ks[0]);
        assert(js.drop_first() =~= ks.drop_first().push(j));
        match s.push_spec(ks[0]) {
            Ok((t, None)) => {
                lemma_push_all_snoc(t, ks.drop_first(), j);
            },
            _ => {},
        }
    }
}

} // verus!
