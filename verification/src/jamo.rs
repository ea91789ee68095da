//! The closed sets of Hangul letters (jamo) and their combination tables.
//!
//! A generic [`Jamo`] names any letter of the compatibility block; the three
//! narrower types [`InitialJamo`], [`MedialJamo`] and [`FinalJamo`] name the
//! structural roles a letter can play inside one syllable block. Conversion
//! into a narrower type is partial, conversion back is total.

use vstd::prelude::*;

verus! {

/// Any Hangul letter, ordered as in the Unicode compatibility block
/// starting at `U+3131`; `id` gives the offset within that block.
#[derive(Clone, Copy, Debug, PartialEq, Eq, PartialOrd, Ord, Hash, Structural)]
pub enum Jamo {
    G,
    Gg,
    Gs,
    N,
    Nc,
    Nch,
    D,
    Dd,
    R,
    Lg,
    Lm,
    Lb,
    Ls,
    Lt,
    Lph,
    Lh,
    M,
    B,
    Bb,
    Bs,
    S,
    Ss,
    Silent,
    J,
    Jj,
    Ch,
    K,
    T,
    P,
    H,
    A,
    Ae,
    Ya,
    Yae,
    Eo,
    E,
    Yeo,
    Ye,
    O,
    Wa,
    Wae,
    Oe,
    Yo,
    U,
    Wo,
    We,
    Wi,
    Yu,
    Eu,
    Ui,
    I,
}

impl Jamo {
    /// Offset of this letter within the compatibility block at `U+3131`.
    pub open spec fn id_spec(self) -> nat {
        match self {
            Jamo::G => 0,
            Jamo::Gg => 1,
            Jamo::Gs => 2,
            Jamo::N => 3,
            Jamo::Nc => 4,
            Jamo::Nch => 5,
            Jamo::D => 6,
            Jamo::Dd => 7,
            Jamo::R => 8,
            Jamo::Lg => 9,
            Jamo::Lm => 10,
            Jamo::Lb => 11,
            Jamo::Ls => 12,
            Jamo::Lt => 13,
            Jamo::Lph => 14,
            Jamo::Lh => 15,
            Jamo::M => 16,
            Jamo::B => 17,
            Jamo::Bb => 18,
            Jamo::Bs => 19,
            Jamo::S => 20,
            Jamo::Ss => 21,
            Jamo::Silent => 22,
            Jamo::J => 23,
            Jamo::Jj => 24,
            Jamo::Ch => 25,
            Jamo::K => 26,
            Jamo::T => 27,
            Jamo::P => 28,
            Jamo::H => 29,
            Jamo::A => 30,
            Jamo::Ae => 31,
            Jamo::Ya => 32,
            Jamo::Yae => 33,
            Jamo::Eo => 34,
            Jamo::E => 35,
            Jamo::Yeo => 36,
            Jamo::Ye => 37,
            Jamo::O => 38,
            Jamo::Wa => 39,
            Jamo::Wae => 40,
            Jamo::Oe => 41,
            Jamo::Yo => 42,
            Jamo::U => 43,
            Jamo::Wo => 44,
            Jamo::We => 45,
            Jamo::Wi => 46,
            Jamo::Yu => 47,
            Jamo::Eu => 48,
            Jamo::Ui => 49,
            Jamo::I => 50,
        }
    }

    /// Offset of this letter within the compatibility block at `U+3131`.
    pub fn id(self) -> (r: usize)
        ensures
            r == self.id_spec(),
    {
        match self {
            Jamo::G => 0,
            Jamo::Gg => 1,
            Jamo::Gs => 2,
            Jamo::N => 3,
            Jamo::Nc => 4,
            Jamo::Nch => 5,
            Jamo::D => 6,
            Jamo::Dd => 7,
            Jamo::R => 8,
            Jamo::Lg => 9,
            Jamo::Lm => 10,
            Jamo::Lb => 11,
            Jamo::Ls => 12,
            Jamo::Lt => 13,
            Jamo::Lph => 14,
            Jamo::Lh => 15,
            Jamo::M => 16,
            Jamo::B => 17,
            Jamo::Bb => 18,
            Jamo::Bs => 19,
            Jamo::S => 20,
            Jamo::Ss => 21,
            Jamo::Silent => 22,
            Jamo::J => 23,
            Jamo::Jj => 24,
            Jamo::Ch => 25,
            Jamo::K => 26,
            Jamo::T => 27,
            Jamo::P => 28,
            Jamo::H => 29,
            Jamo::A => 30,
            Jamo::Ae => 31,
            Jamo::Ya => 32,
            Jamo::Yae => 33,
            Jamo::Eo => 34,
            Jamo::E => 35,
            Jamo::Yeo => 36,
            Jamo::Ye => 37,
            Jamo::O => 38,
            Jamo::Wa => 39,
            Jamo::Wae => 40,
            Jamo::Oe => 41,
            Jamo::Yo => 42,
            Jamo::U => 43,
            Jamo::Wo => 44,
            Jamo::We => 45,
            Jamo::Wi => 46,
            Jamo::Yu => 47,
            Jamo::Eu => 48,
            Jamo::Ui => 49,
            Jamo::I => 50,
        }
    }
}

/// A leading consonant, ordered as in the Unicode choseong block starting
/// at `U+1100`; `id` gives the offset within that block.
#[derive(Clone, Copy, Debug, PartialEq, Eq, Hash, Structural)]
pub enum InitialJamo {
    G,
    Gg,
    N,
    D,
    Dd,
    R,
    M,
    B,
    Bb,
    S,
    Ss,
    Silent,
    J,
    Jj,
    Ch,
    K,
    T,
    P,
    H,
}

/// A vowel, ordered as in the Unicode jungseong block starting at `U+1161`;
/// `id` gives the offset within that block.
#[derive(Clone, Copy, Debug, PartialEq, Eq, Hash, Structural)]
pub enum MedialJamo {
    A,
    Ae,
    Ya,
    Yae,
    Eo,
    E,
    Yeo,
    Ye,
    O,
    Wa,
    Wae,
    Oe,
    Yo,
    U,
    Wo,
    We,
    Wi,
    Yu,
    Eu,
    Ui,
    I,
}

/// The shape class of a vowel, deciding which pairs may merge into a
/// diphthong: exactly one `Wide` and one `Tall` vowel can combine, and a
/// `Full` vowel never combines further.
#[derive(Clone, Copy, Debug, PartialEq, Eq, Structural)]
pub enum MedialKind {
    Tall,
    Wide,
    Full,
}

/// A trailing consonant, ordered as in the Unicode jongseong block starting
/// at `U+11A8`. Ids are one-based because id 0 of that block means "no
/// trailing consonant".
#[derive(Clone, Copy, Debug, PartialEq, Eq, Hash, Structural)]
pub enum FinalJamo {
    G,
    Gg,
    Gs,
    N,
    Nc,
    Nch,
    D,
    R,
    Lg,
    Lm,
    Lb,
    Ls,
    Lt,
    Lph,
    Lh,
    M,
    B,
    Bs,
    S,
    Ss,
    Silent,
    J,
    Ch,
    K,
    T,
    P,
    H,
}

/// A conversion or combination over jamo that cannot be carried out.
#[derive(Clone, Copy, Debug, PartialEq, Eq, Structural)]
pub enum JamoError {
    /// The letter is not a member of the requested narrower role.
    UnexpectedJamo(Jamo),
    /// The two letters cannot legally merge into one cluster.
    IncompatibleCombine(Jamo, Jamo),
}

pub type JamoResult<T> = Result<T, JamoError>;

impl InitialJamo {
    /// Offset of this consonant within the choseong block at `U+1100`.
    pub open spec fn id_spec(self) -> nat {
        match self {
            InitialJamo::G => 0,
            InitialJamo::Gg => 1,
            InitialJamo::N => 2,
            InitialJamo::D => 3,
            InitialJamo::Dd => 4,
            InitialJamo::R => 5,
            InitialJamo::M => 6,
            InitialJamo::B => 7,
            InitialJamo::Bb => 8,
            InitialJamo::S => 9,
            InitialJamo::Ss => 10,
            InitialJamo::Silent => 11,
            InitialJamo::J => 12,
            InitialJamo::Jj => 13,
            InitialJamo::Ch => 14,
            InitialJamo::K => 15,
            InitialJamo::T => 16,
            InitialJamo::P => 17,
            InitialJamo::H => 18,
        }
    }

    /// Offset of this consonant within the choseong block at `U+1100`.
    pub fn id(self) -> (r: usize)
        ensures
            r == self.id_spec(),
    {
        match self {
            InitialJamo::G => 0,
            InitialJamo::Gg => 1,
            InitialJamo::N => 2,
            InitialJamo::D => 3,
            InitialJamo::Dd => 4,
            InitialJamo::R => 5,
            InitialJamo::M => 6,
            InitialJamo::B => 7,
            InitialJamo::Bb => 8,
            InitialJamo::S => 9,
            InitialJamo::Ss => 10,
            InitialJamo::Silent => 11,
            InitialJamo::J => 12,
            InitialJamo::Jj => 13,
            InitialJamo::Ch => 14,
            InitialJamo::K => 15,
            InitialJamo::T => 16,
            InitialJamo::P => 17,
            InitialJamo::H => 18,
        }
    }

    /// The generic letter that this leading consonant stands for.
    pub open spec fn jamo_spec(self) -> Jamo {
        match self {
            InitialJamo::G => Jamo::G,
            InitialJamo::Gg => Jamo::Gg,
            InitialJamo::N => Jamo::N,
            InitialJamo::D => Jamo::D,
            InitialJamo::Dd => Jamo::Dd,
            InitialJamo::R => Jamo::R,
            InitialJamo::M => Jamo::M,
            InitialJamo::B => Jamo::B,
            InitialJamo::Bb => Jamo::Bb,
            InitialJamo::S => Jamo::S,
            InitialJamo::Ss => Jamo::Ss,
            InitialJamo::Silent => Jamo::Silent,
            InitialJamo::J => Jamo::J,
            InitialJamo::Jj => Jamo::Jj,
            InitialJamo::Ch => Jamo::Ch,
            InitialJamo::K => Jamo::K,
            InitialJamo::T => Jamo::T,
            InitialJamo::P => Jamo::P,
            InitialJamo::H => Jamo::H,
        }
    }

    /// The generic letter that this leading consonant stands for.
    pub fn to_jamo(self) -> (r: Jamo)
        ensures
            r == self.jamo_spec(),
    {
        match self {
            InitialJamo::G => Jamo::G,
            InitialJamo::Gg => Jamo::Gg,
            InitialJamo::N => Jamo::N,
            InitialJamo::D => Jamo::D,
            InitialJamo::Dd => Jamo::Dd,
            InitialJamo::R => Jamo::R,
            InitialJamo::M => Jamo::M,
            InitialJamo::B => Jamo::B,
            InitialJamo::Bb => Jamo::Bb,
            InitialJamo::S => Jamo::S,
            InitialJamo::Ss => Jamo::Ss,
            InitialJamo::Silent => Jamo::Silent,
            InitialJamo::J => Jamo::J,
            InitialJamo::Jj => Jamo::Jj,
            InitialJamo::Ch => Jamo::Ch,
            InitialJamo::K => Jamo::K,
            InitialJamo::T => Jamo::T,
            InitialJamo::P => Jamo::P,
            InitialJamo::H => Jamo::H,
        }
    }

    /// Every leading consonant, in id order.
    pub open spec fn all_spec() -> Seq<InitialJamo> {
        seq![
            InitialJamo::G,
            InitialJamo::Gg,
            InitialJamo::N,
            InitialJamo::D,
            InitialJamo::Dd,
            InitialJamo::R,
            InitialJamo::M,
            InitialJamo::B,
            InitialJamo::Bb,
            InitialJamo::S,
            InitialJamo::Ss,
            InitialJamo::Silent,
            InitialJamo::J,
            InitialJamo::Jj,
            InitialJamo::Ch,
            InitialJamo::K,
            InitialJamo::T,
            InitialJamo::P,
            InitialJamo::H,
        ]
    }

    /// Every leading consonant, in id order.
    pub fn all() -> (r: Vec<InitialJamo>)
        ensures
            r@ == InitialJamo::all_spec(),
    {
        vec![
            InitialJamo::G,
            InitialJamo::Gg,
            InitialJamo::N,
            InitialJamo::D,
            InitialJamo::Dd,
            InitialJamo::R,
            InitialJamo::M,
            InitialJamo::B,
            InitialJamo::Bb,
            InitialJamo::S,
            InitialJamo::Ss,
            InitialJamo::Silent,
            InitialJamo::J,
            InitialJamo::Jj,
            InitialJamo::Ch,
            InitialJamo::K,
            InitialJamo::T,
            InitialJamo::P,
            InitialJamo::H,
        ]
    }
}

/// Every leading consonant appears in `InitialJamo::all_spec`, at the index
/// given by its id.
pub proof fn lemma_initial_all_complete()
    ensures
        forall|ij: InitialJamo| #![trigger ij.id_spec()]
            InitialJamo::all_spec()[ij.id_spec() as int] == ij
            && ij.id_spec() < InitialJamo::all_spec().len(),
{
}

impl MedialJamo {
    /// Offset of this vowel within the jungseong block at `U+1161`.
    pub open spec fn id_spec(self) -> nat {
        match self {
            MedialJamo::A => 0,
            MedialJamo::Ae => 1,
            MedialJamo::Ya => 2,
            MedialJamo::Yae => 3,
            MedialJamo::Eo => 4,
            MedialJamo::E => 5,
            MedialJamo::Yeo => 6,
            MedialJamo::Ye => 7,
            MedialJamo::O => 8,
            MedialJamo::Wa => 9,
            MedialJamo::Wae => 10,
            MedialJamo::Oe => 11,
            MedialJamo::Yo => 12,
            MedialJamo::U => 13,
            MedialJamo::Wo => 14,
            MedialJamo::We => 15,
            MedialJamo::Wi => 16,
            MedialJamo::Yu => 17,
            MedialJamo::Eu => 18,
            MedialJamo::Ui => 19,
            MedialJamo::I => 20,
        }
    }

    /// Offset of this vowel within the jungseong block at `U+1161`.
    pub fn id(self) -> (r: usize)
        ensures
            r == self.id_spec(),
    {
        match self {
            MedialJamo::A => 0,
            MedialJamo::Ae => 1,
            MedialJamo::Ya => 2,
            MedialJamo::Yae => 3,
            MedialJamo::Eo => 4,
            MedialJamo::E => 5,
            MedialJamo::Yeo => 6,
            MedialJamo::Ye => 7,
            MedialJamo::O => 8,
            MedialJamo::Wa => 9,
            MedialJamo::Wae => 10,
            MedialJamo::Oe => 11,
            MedialJamo::Yo => 12,
            MedialJamo::U => 13,
            MedialJamo::Wo => 14,
            MedialJamo::We => 15,
            MedialJamo::Wi => 16,
            MedialJamo::Yu => 17,
            MedialJamo::Eu => 18,
            MedialJamo::Ui => 19,
            MedialJamo::I => 20,
        }
    }

    /// The generic letter that this vowel stands for.
    pub open spec fn jamo_spec(self) -> Jamo {
        match self {
            MedialJamo::A => Jamo::A,
            MedialJamo::Ae => Jamo::Ae,
            MedialJamo::Ya => Jamo::Ya,
            MedialJamo::Yae => Jamo::Yae,
            MedialJamo::Eo => Jamo::Eo,
            MedialJamo::E => Jamo::E,
            MedialJamo::Yeo => Jamo::Yeo,
            MedialJamo::Ye => Jamo::Ye,
            MedialJamo::O => Jamo::O,
            MedialJamo::Wa => Jamo::Wa,
            MedialJamo::Wae => Jamo::Wae,
            MedialJamo::Oe => Jamo::Oe,
            MedialJamo::Yo => Jamo::Yo,
            MedialJamo::U => Jamo::U,
            MedialJamo::Wo => Jamo::Wo,
            MedialJamo::We => Jamo::We,
            MedialJamo::Wi => Jamo::Wi,
            MedialJamo::Yu => Jamo::Yu,
            MedialJamo::Eu => Jamo::Eu,
            MedialJamo::Ui => Jamo::Ui,
            MedialJamo::I => Jamo::I,
        }
    }

    /// The generic letter that this vowel stands for.
    pub fn to_jamo(self) -> (r: Jamo)
        ensures
            r == self.jamo_spec(),
    {
        match self {
            MedialJamo::A => Jamo::A,
            MedialJamo::Ae => Jamo::Ae,
            MedialJamo::Ya => Jamo::Ya,
            MedialJamo::Yae => Jamo::Yae,
            MedialJamo::Eo => Jamo::Eo,
            MedialJamo::E => Jamo::E,
            MedialJamo::Yeo => Jamo::Yeo,
            MedialJamo::Ye => Jamo::Ye,
            MedialJamo::O => Jamo::O,
            MedialJamo::Wa => Jamo::Wa,
            MedialJamo::Wae => Jamo::Wae,
            MedialJamo::Oe => Jamo::Oe,
            MedialJamo::Yo => Jamo::Yo,
            MedialJamo::U => Jamo::U,
            MedialJamo::Wo => Jamo::Wo,
            MedialJamo::We => Jamo::We,
            MedialJamo::Wi => Jamo::Wi,
            MedialJamo::Yu => Jamo::Yu,
            MedialJamo::Eu => Jamo::Eu,
            MedialJamo::Ui => Jamo::Ui,
            MedialJamo::I => Jamo::I,
        }
    }

    /// Every vowel, in id order.
    pub open spec fn all_spec() -> Seq<MedialJamo> {
        seq![
            MedialJamo::A,
            MedialJamo::Ae,
            MedialJamo::Ya,
            MedialJamo::Yae,
            MedialJamo::Eo,
            MedialJamo::E,
            MedialJamo::Yeo,
            MedialJamo::Ye,
            MedialJamo::O,
            MedialJamo::Wa,
            MedialJamo::Wae,
            MedialJamo::Oe,
            MedialJamo::Yo,
            MedialJamo::U,
            MedialJamo::Wo,
            MedialJamo::We,
            MedialJamo::Wi,
            MedialJamo::Yu,
            MedialJamo::Eu,
            MedialJamo::Ui,
            MedialJamo::I,
        ]
    }

    /// Every vowel, in id order.
    pub fn all() -> (r: Vec<MedialJamo>)
        ensures
            r@ == MedialJamo::all_spec(),
    {
        vec![
            MedialJamo::A,
            MedialJamo::Ae,
            MedialJamo::Ya,
            MedialJamo::Yae,
            MedialJamo::Eo,
            MedialJamo::E,
            MedialJamo::Yeo,
            MedialJamo::Ye,
            MedialJamo::O,
            MedialJamo::Wa,
            MedialJamo::Wae,
            MedialJamo::Oe,
            MedialJamo::Yo,
            MedialJamo::U,
            MedialJamo::Wo,
            MedialJamo::We,
            MedialJamo::Wi,
            MedialJamo::Yu,
            MedialJamo::Eu,
            MedialJamo::Ui,
            MedialJamo::I,
        ]
    }

    /// The shape class of this vowel.
    pub open spec fn kind_spec(self) -> MedialKind {
        match self {
            MedialJamo::A => MedialKind::Tall,
            MedialJamo::Ae => MedialKind::Tall,
            MedialJamo::Ya => MedialKind::Tall,
            MedialJamo::Yae => MedialKind::Tall,
            MedialJamo::Eo => MedialKind::Tall,
            MedialJamo::E => MedialKind::Tall,
            MedialJamo::Yeo => MedialKind::Tall,
            MedialJamo::Ye => MedialKind::Tall,
            MedialJamo::O => MedialKind::Wide,
            MedialJamo::Wa => MedialKind::Full,
            MedialJamo::Wae => MedialKind::Full,
            MedialJamo::Oe => MedialKind::Full,
            MedialJamo::Yo => MedialKind::Wide,
            MedialJamo::U => MedialKind::Wide,
            MedialJamo::Wo => MedialKind::Full,
            MedialJamo::We => MedialKind::Full,
            MedialJamo::Wi => MedialKind::Full,
            MedialJamo::Yu => MedialKind::Wide,
            MedialJamo::Eu => MedialKind::Wide,
            MedialJamo::Ui => MedialKind::Full,
            MedialJamo::I => MedialKind::Tall,
        }
    }

    /// The shape class of this vowel.
    pub fn kind(&self) -> (r: MedialKind)
        ensures
            r == self.kind_spec(),
    {
        match self {
            MedialJamo::A => MedialKind::Tall,
            MedialJamo::Ae => MedialKind::Tall,
            MedialJamo::Ya => MedialKind::Tall,
            MedialJamo::Yae => MedialKind::Tall,
            MedialJamo::Eo => MedialKind::Tall,
            MedialJamo::E => MedialKind::Tall,
            MedialJamo::Yeo => MedialKind::Tall,
            MedialJamo::Ye => MedialKind::Tall,
            MedialJamo::O => MedialKind::Wide,
            MedialJamo::Wa => MedialKind::Full,
            MedialJamo::Wae => MedialKind::Full,
            MedialJamo::Oe => MedialKind::Full,
            MedialJamo::Yo => MedialKind::Wide,
            MedialJamo::U => MedialKind::Wide,
            MedialJamo::Wo => MedialKind::Full,
            MedialJamo::We => MedialKind::Full,
            MedialJamo::Wi => MedialKind::Full,
            MedialJamo::Yu => MedialKind::Wide,
            MedialJamo::Eu => MedialKind::Wide,
            MedialJamo::Ui => MedialKind::Full,
            MedialJamo::I => MedialKind::Tall,
        }
    }

    /// The fixed diphthong table, after normalizing the pair so that the
    /// `Wide` vowel stands first. `None` means the pair does not merge.
    pub open spec fn combine_spec(self, other: MedialJamo) -> Option<MedialJamo> {
        match (self.kind_spec(), other.kind_spec()) {
            (MedialKind::Wide, MedialKind::Tall) => Self::pair_spec(self, other),
            (MedialKind::Tall, MedialKind::Wide) => Self::pair_spec(other, self),
            _ => None,
        }
    }

    /// The raw diphthong table: the `Wide` vowel first, the `Tall` second.
    pub open spec fn pair_spec(wide: MedialJamo, tall: MedialJamo) -> Option<MedialJamo> {
        match (wide, tall) {
            (MedialJamo::O, MedialJamo::A) => Some(MedialJamo::Wa),
            (MedialJamo::O, MedialJamo::Ae) => Some(MedialJamo::Wae),
            (MedialJamo::O, MedialJamo::I) => Some(MedialJamo::Oe),
            (MedialJamo::U, MedialJamo::Eo) => Some(MedialJamo::Wo),
            (MedialJamo::U, MedialJamo::E) => Some(MedialJamo::We),
            (MedialJamo::U, MedialJamo::I) => Some(MedialJamo::Wi),
            (MedialJamo::Eu, MedialJamo::I) => Some(MedialJamo::Ui),
            _ => None,
        }
    }

    /// Merges two vowels into a diphthong where the fixed table allows it,
    /// normalizing the order first, and reports `IncompatibleCombine`
    /// otherwise.
    pub fn combine(self, other: MedialJamo) -> (r: JamoResult<MedialJamo>)
        ensures
            match self.combine_spec(other) {
                Some(c) => r == Ok::<MedialJamo, JamoError>(c),
                None => r == Err::<MedialJamo, JamoError>(
                    JamoError::IncompatibleCombine(self.jamo_spec(), other.jamo_spec()),
                ),
            },
    {
        match (self.kind(), other.kind()) {
            (MedialKind::Wide, MedialKind::Tall) => match (self, other) {
                (MedialJamo::O, MedialJamo::A) => Ok(MedialJamo::Wa),
                (MedialJamo::O, MedialJamo::Ae) => Ok(MedialJamo::Wae),
                (MedialJamo::O, MedialJamo::I) => Ok(MedialJamo::Oe),
                (MedialJamo::U, MedialJamo::Eo) => Ok(MedialJamo::Wo),
                (MedialJamo::U, MedialJamo::E) => Ok(MedialJamo::We),
                (MedialJamo::U, MedialJamo::I) => Ok(MedialJamo::Wi),
                (MedialJamo::Eu, MedialJamo::I) => Ok(MedialJamo::Ui),
                _ => Err(JamoError::IncompatibleCombine(self.to_jamo(), other.to_jamo())),
            },
            (MedialKind::Tall, MedialKind::Wide) => match (other, self) {
                (MedialJamo::O, MedialJamo::A) => Ok(MedialJamo::Wa),
                (MedialJamo::O, MedialJamo::Ae) => Ok(MedialJamo::Wae),
                (MedialJamo::O, MedialJamo::I) => Ok(MedialJamo::Oe),
                (MedialJamo::U, MedialJamo::Eo) => Ok(MedialJamo::Wo),
                (MedialJamo::U, MedialJamo::E) => Ok(MedialJamo::We),
                (MedialJamo::U, MedialJamo::I) => Ok(MedialJamo::Wi),
                (MedialJamo::Eu, MedialJamo::I) => Ok(MedialJamo::Ui),
                _ => Err(JamoError::IncompatibleCombine(self.to_jamo(), other.to_jamo())),
            },
            _ => Err(JamoError::IncompatibleCombine(self.to_jamo(), other.to_jamo())),
        }
    }

    /// The vowels that this vowel can still accept, in id order.
    pub open spec fn combine_possible_spec(self) -> Seq<MedialJamo> {
        match self {
            MedialJamo::A => seq![MedialJamo::O],
            MedialJamo::Ae => seq![MedialJamo::O],
            MedialJamo::Eo => seq![MedialJamo::U],
            MedialJamo::E => seq![MedialJamo::U],
            MedialJamo::O => seq![MedialJamo::A, MedialJamo::Ae, MedialJamo::I],
            MedialJamo::U => seq![MedialJamo::Eo, MedialJamo::E, MedialJamo::I],
            MedialJamo::Eu => seq![MedialJamo::I],
            MedialJamo::I => seq![MedialJamo::O, MedialJamo::U, MedialJamo::Eu],
            _ => seq![],
        }
    }

    /// The vowels that this vowel can still accept.
    pub fn combine_possible(self) -> (r: Vec<MedialJamo>)
        ensures
            r@ == self.combine_possible_spec(),
    {
        match self {
            MedialJamo::A => vec![MedialJamo::O],
            MedialJamo::Ae => vec![MedialJamo::O],
            MedialJamo::Eo => vec![MedialJamo::U],
            MedialJamo::E => vec![MedialJamo::U],
            MedialJamo::O => vec![MedialJamo::A, MedialJamo::Ae, MedialJamo::I],
            MedialJamo::U => vec![MedialJamo::Eo, MedialJamo::E, MedialJamo::I],
            MedialJamo::Eu => vec![MedialJamo::I],
            MedialJamo::I => vec![MedialJamo::O, MedialJamo::U, MedialJamo::Eu],
            _ => vec![],
        }
    }

    /// The two simple vowels that this vowel decomposes into: a diphthong
    /// yields its `Wide` part and then its `Tall` part, a simple vowel
    /// yields itself alone.
    pub open spec fn components_spec(self) -> (MedialJamo, Option<MedialJamo>) {
        match self {
            MedialJamo::Wa => (MedialJamo::O, Some(MedialJamo::A)),
            MedialJamo::Wae => (MedialJamo::O, Some(MedialJamo::Ae)),
            MedialJamo::Oe => (MedialJamo::O, Some(MedialJamo::I)),
            MedialJamo::Wo => (MedialJamo::U, Some(MedialJamo::Eo)),
            MedialJamo::We => (MedialJamo::U, Some(MedialJamo::E)),
            MedialJamo::Wi => (MedialJamo::U, Some(MedialJamo::I)),
            MedialJamo::Ui => (MedialJamo::Eu, Some(MedialJamo::I)),
            _ => (self, None),
        }
    }

    /// The two simple vowels that this vowel decomposes into.
    pub fn components(self) -> (r: (MedialJamo, Option<MedialJamo>))
        ensures
            r == self.components_spec(),
    {
        match self {
            MedialJamo::Wa => (MedialJamo::O, Some(MedialJamo::A)),
            MedialJamo::Wae => (MedialJamo::O, Some(MedialJamo::Ae)),
            MedialJamo::Oe => (MedialJamo::O, Some(MedialJamo::I)),
            MedialJamo::Wo => (MedialJamo::U, Some(MedialJamo::Eo)),
            MedialJamo::We => (MedialJamo::U, Some(MedialJamo::E)),
            MedialJamo::Wi => (MedialJamo::U, Some(MedialJamo::I)),
            MedialJamo::Ui => (MedialJamo::Eu, Some(MedialJamo::I)),
            _ => (self, None),
        }
    }
}

/// Every vowel appears in `MedialJamo::all_spec`, at the index given by
/// its id.
pub proof fn lemma_medial_all_complete()
    ensures
        forall|mj: MedialJamo| #![trigger mj.id_spec()]
            MedialJamo::all_spec()[mj.id_spec() as int] == mj
            && mj.id_spec() < MedialJamo::all_spec().len(),
{
}

/// A vowel is listed in `combine_possible_spec` exactly when the
/// combination table merges the pair.
pub proof fn lemma_combine_possible_exact()
    ensures
        forall|m: MedialJamo, v: MedialJamo|
            #[trigger] m.combine_possible_spec().contains(v) <==> m.combine_spec(v) is Some,
{
    assert(MedialJamo::A.combine_possible_spec()[0] == MedialJamo::O);
    assert(MedialJamo::Ae.combine_possible_spec()[0] == MedialJamo::O);
    assert(MedialJamo::Eo.combine_possible_spec()[0] == MedialJamo::U);
    assert(MedialJamo::E.combine_possible_spec()[0] == MedialJamo::U);
    assert(MedialJamo::O.combine_possible_spec()[0] == MedialJamo::A);
    assert(MedialJamo::O.combine_possible_spec()[1] == MedialJamo::Ae);
    assert(MedialJamo::O.combine_possible_spec()[2] == MedialJamo::I);
    assert(MedialJamo::U.combine_possible_spec()[0] == MedialJamo::Eo);
    assert(MedialJamo::U.combine_possible_spec()[1] == MedialJamo::E);
    assert(MedialJamo::U.combine_possible_spec()[2] == MedialJamo::I);
    assert(MedialJamo::Eu.combine_possible_spec()[0] == MedialJamo::I);
    assert(MedialJamo::I.combine_possible_spec()[0] == MedialJamo::O);
    assert(MedialJamo::I.combine_possible_spec()[1] == MedialJamo::U);
    assert(MedialJamo::I.combine_possible_spec()[2] == MedialJamo::Eu);
    assert forall|m: MedialJamo, v: MedialJamo|
        #[trigger] m.combine_possible_spec().contains(v) <==> m.combine_spec(v) is Some by {
        if m.combine_possible_spec().contains(v) {
            assert(m.combine_spec(v) is Some);
        }
    }
}

/// Combining is symmetric whenever exactly one of the two vowels is `Wide`
/// and the other `Tall`: the internal normalization makes the order of the
/// arguments irrelevant.
pub proof fn lemma_combine_commutes(a: MedialJamo, b: MedialJamo)
    requires
        (a.kind_spec() is Wide && b.kind_spec() is Tall)
        || (a.kind_spec() is Tall && b.kind_spec() is Wide),
    ensures
        a.combine_spec(b) == b.combine_spec(a),
{
}

impl FinalJamo {
    /// One-based offset of this consonant within the jongseong block at
    /// `U+11A8`: id 0 of that block is reserved for "no trailing consonant".
    pub open spec fn id_spec(self) -> nat {
        match self {
            FinalJamo::G => 1,
            FinalJamo::Gg => 2,
            FinalJamo::Gs => 3,
            FinalJamo::N => 4,
            FinalJamo::Nc => 5,
            FinalJamo::Nch => 6,
            FinalJamo::D => 7,
            FinalJamo::R => 8,
            FinalJamo::Lg => 9,
            FinalJamo::Lm => 10,
            FinalJamo::Lb => 11,
            FinalJamo::Ls => 12,
            FinalJamo::Lt => 13,
            FinalJamo::Lph => 14,
            FinalJamo::Lh => 15,
            FinalJamo::M => 16,
            FinalJamo::B => 17,
            FinalJamo::Bs => 18,
            FinalJamo::S => 19,
            FinalJamo::Ss => 20,
            FinalJamo::Silent => 21,
            FinalJamo::J => 22,
            FinalJamo::Ch => 23,
            FinalJamo::K => 24,
            FinalJamo::T => 25,
            FinalJamo::P => 26,
            FinalJamo::H => 27,
        }
    }

    /// One-based offset of this consonant within the jongseong block.
    pub fn id(self) -> (r: usize)
        ensures
            r == self.id_spec(),
    {
        match self {
            FinalJamo::G => 1,
            FinalJamo::Gg => 2,
            FinalJamo::Gs => 3,
            FinalJamo::N => 4,
            FinalJamo::Nc => 5,
            FinalJamo::Nch => 6,
            FinalJamo::D => 7,
            FinalJamo::R => 8,
            FinalJamo::Lg => 9,
            FinalJamo::Lm => 10,
            FinalJamo::Lb => 11,
            FinalJamo::Ls => 12,
            FinalJamo::Lt => 13,
            FinalJamo::Lph => 14,
            FinalJamo::Lh => 15,
            FinalJamo::M => 16,
            FinalJamo::B => 17,
            FinalJamo::Bs => 18,
            FinalJamo::S => 19,
            FinalJamo::Ss => 20,
            FinalJamo::Silent => 21,
            FinalJamo::J => 22,
            FinalJamo::Ch => 23,
            FinalJamo::K => 24,
            FinalJamo::T => 25,
            FinalJamo::P => 26,
            FinalJamo::H => 27,
        }
    }

    /// The generic letter that this trailing consonant stands for.
    pub open spec fn jamo_spec(self) -> Jamo {
        match self {
            FinalJamo::G => Jamo::G,
            FinalJamo::Gg => Jamo::Gg,
            FinalJamo::Gs => Jamo::Gs,
            FinalJamo::N => Jamo::N,
            FinalJamo::Nc => Jamo::Nc,
            FinalJamo::Nch => Jamo::Nch,
            FinalJamo::D => Jamo::D,
            FinalJamo::R => Jamo::R,
            FinalJamo::Lg => Jamo::Lg,
            FinalJamo::Lm => Jamo::Lm,
            FinalJamo::Lb => Jamo::Lb,
            FinalJamo::Ls => Jamo::Ls,
            FinalJamo::Lt => Jamo::Lt,
            FinalJamo::Lph => Jamo::Lph,
            FinalJamo::Lh => Jamo::Lh,
            FinalJamo::M => Jamo::M,
            FinalJamo::B => Jamo::B,
            FinalJamo::Bs => Jamo::Bs,
            FinalJamo::S => Jamo::S,
            FinalJamo::Ss => Jamo::Ss,
            FinalJamo::Silent => Jamo::Silent,
            FinalJamo::J => Jamo::J,
            FinalJamo::Ch => Jamo::Ch,
            FinalJamo::K => Jamo::K,
            FinalJamo::T => Jamo::T,
            FinalJamo::P => Jamo::P,
            FinalJamo::H => Jamo::H,
        }
    }

    /// The generic letter that this trailing consonant stands for.
    pub fn to_jamo(self) -> (r: Jamo)
        ensures
            r == self.jamo_spec(),
    {
        match self {
            FinalJamo::G => Jamo::G,
            FinalJamo::Gg => Jamo::Gg,
            FinalJamo::Gs => Jamo::Gs,
            FinalJamo::N => Jamo::N,
            FinalJamo::Nc => Jamo::Nc,
            FinalJamo::Nch => Jamo::Nch,
            FinalJamo::D => Jamo::D,
            FinalJamo::R => Jamo::R,
            FinalJamo::Lg => Jamo::Lg,
            FinalJamo::Lm => Jamo::Lm,
            FinalJamo::Lb => Jamo::Lb,
            FinalJamo::Ls => Jamo::Ls,
            FinalJamo::Lt => Jamo::Lt,
            FinalJamo::Lph => Jamo::Lph,
            FinalJamo::Lh => Jamo::Lh,
            FinalJamo::M => Jamo::M,
            FinalJamo::B => Jamo::B,
            FinalJamo::Bs => Jamo::Bs,
            FinalJamo::S => Jamo::S,
            FinalJamo::Ss => Jamo::Ss,
            FinalJamo::Silent => Jamo::Silent,
            FinalJamo::J => Jamo::J,
            FinalJamo::Ch => Jamo::Ch,
            FinalJamo::K => Jamo::K,
            FinalJamo::T => Jamo::T,
            FinalJamo::P => Jamo::P,
            FinalJamo::H => Jamo::H,
        }
    }

    /// Every trailing consonant, in id order.
    pub open spec fn all_spec() -> Seq<FinalJamo> {
        seq![
            FinalJamo::G,
            FinalJamo::Gg,
            FinalJamo::Gs,
            FinalJamo::N,
            FinalJamo::Nc,
            FinalJamo::Nch,
            FinalJamo::D,
            FinalJamo::R,
            FinalJamo::Lg,
            FinalJamo::Lm,
            FinalJamo::Lb,
            FinalJamo::Ls,
            FinalJamo::Lt,
            FinalJamo::Lph,
            FinalJamo::Lh,
            FinalJamo::M,
            FinalJamo::B,
            FinalJamo::Bs,
            FinalJamo::S,
            FinalJamo::Ss,
            FinalJamo::Silent,
            FinalJamo::J,
            FinalJamo::Ch,
            FinalJamo::K,
            FinalJamo::T,
            FinalJamo::P,
            FinalJamo::H,
        ]
    }

    /// Every trailing consonant, in id order.
    pub fn all() -> (r: Vec<FinalJamo>)
        ensures
            r@ == FinalJamo::all_spec(),
    {
        vec![
            FinalJamo::G,
            FinalJamo::Gg,
            FinalJamo::Gs,
            FinalJamo::N,
            FinalJamo::Nc,
            FinalJamo::Nch,
            FinalJamo::D,
            FinalJamo::R,
            FinalJamo::Lg,
            FinalJamo::Lm,
            FinalJamo::Lb,
            FinalJamo::Ls,
            FinalJamo::Lt,
            FinalJamo::Lph,
            FinalJamo::Lh,
            FinalJamo::M,
            FinalJamo::B,
            FinalJamo::Bs,
            FinalJamo::S,
            FinalJamo::Ss,
            FinalJamo::Silent,
            FinalJamo::J,
            FinalJamo::Ch,
            FinalJamo::K,
            FinalJamo::T,
            FinalJamo::P,
            FinalJamo::H,
        ]
    }

    /// The fixed consonant-cluster table: a base consonant plus an addendum
    /// merging into one cluster. `None` means the pair does not merge.
    pub open spec fn append_spec(self, other: FinalJamo) -> Option<FinalJamo> {
        match (self, other) {
            (FinalJamo::G, FinalJamo::S) => Some(FinalJamo::Gs),
            (FinalJamo::N, FinalJamo::J) => Some(FinalJamo::Nc),
            (FinalJamo::N, FinalJamo::H) => Some(FinalJamo::Nch),
            (FinalJamo::R, FinalJamo::G) => Some(FinalJamo::Lg),
            (FinalJamo::R, FinalJamo::M) => Some(FinalJamo::Lm),
            (FinalJamo::R, FinalJamo::B) => Some(FinalJamo::Lb),
            (FinalJamo::R, FinalJamo::S) => Some(FinalJamo::Ls),
            (FinalJamo::R, FinalJamo::T) => Some(FinalJamo::Lt),
            (FinalJamo::R, FinalJamo::P) => Some(FinalJamo::Lph),
            (FinalJamo::R, FinalJamo::H) => Some(FinalJamo::Lh),
            (FinalJamo::B, FinalJamo::S) => Some(FinalJamo::Bs),
            _ => None,
        }
    }

    /// Merges a base consonant with an addendum into a cluster where the
    /// fixed table allows it, and reports `IncompatibleCombine` otherwise.
    pub fn append(self, other: FinalJamo) -> (r: JamoResult<FinalJamo>)
        ensures
            match self.append_spec(other) {
                Some(c) => r == Ok::<FinalJamo, JamoError>(c),
                None => r == Err::<FinalJamo, JamoError>(
                    JamoError::IncompatibleCombine(self.jamo_spec(), other.jamo_spec()),
                ),
            },
    {
        match (self, other) {
            (FinalJamo::G, FinalJamo::S) => Ok(FinalJamo::Gs),
            (FinalJamo::N, FinalJamo::J) => Ok(FinalJamo::Nc),
            (FinalJamo::N, FinalJamo::H) => Ok(FinalJamo::Nch),
            (FinalJamo::R, FinalJamo::G) => Ok(FinalJamo::Lg),
            (FinalJamo::R, FinalJamo::M) => Ok(FinalJamo::Lm),
            (FinalJamo::R, FinalJamo::B) => Ok(FinalJamo::Lb),
            (FinalJamo::R, FinalJamo::S) => Ok(FinalJamo::Ls),
            (FinalJamo::R, FinalJamo::T) => Ok(FinalJamo::Lt),
            (FinalJamo::R, FinalJamo::P) => Ok(FinalJamo::Lph),
            (FinalJamo::R, FinalJamo::H) => Ok(FinalJamo::Lh),
            (FinalJamo::B, FinalJamo::S) => Ok(FinalJamo::Bs),
            _ => Err(JamoError::IncompatibleCombine(self.to_jamo(), other.to_jamo())),
        }
    }

    /// The addenda that this consonant can still accept, in id order.
    pub open spec fn append_possible_spec(self) -> Seq<FinalJamo> {
        match self {
            FinalJamo::G => seq![FinalJamo::S],
            FinalJamo::N => seq![FinalJamo::J, FinalJamo::H],
            FinalJamo::R => seq![
                FinalJamo::G,
                FinalJamo::M,
                FinalJamo::B,
                FinalJamo::S,
                FinalJamo::T,
                FinalJamo::P,
                FinalJamo::H,
            ],
            FinalJamo::B => seq![FinalJamo::S],
            _ => seq![],
        }
    }

    /// The addenda that this consonant can still accept.
    pub fn append_possible(self) -> (r: Vec<FinalJamo>)
        ensures
            r@ == self.append_possible_spec(),
    {
        match self {
            FinalJamo::G => vec![FinalJamo::S],
            FinalJamo::N => vec![FinalJamo::J, FinalJamo::H],
            FinalJamo::R => vec![
                FinalJamo::G,
                FinalJamo::M,
                FinalJamo::B,
                FinalJamo::S,
                FinalJamo::T,
                FinalJamo::P,
                FinalJamo::H,
            ],
            FinalJamo::B => vec![FinalJamo::S],
            _ => vec![],
        }
    }

    /// The two simple consonants that this consonant decomposes into: a
    /// cluster yields its base and then its addendum, a simple consonant
    /// yields itself alone.
    pub open spec fn components_spec(self) -> (FinalJamo, Option<FinalJamo>) {
        match self {
            FinalJamo::Gs => (FinalJamo::G, Some(FinalJamo::S)),
            FinalJamo::Nc => (FinalJamo::N, Some(FinalJamo::J)),
            FinalJamo::Nch => (FinalJamo::N, Some(FinalJamo::H)),
            FinalJamo::Lg => (FinalJamo::R, Some(FinalJamo::G)),
            FinalJamo::Lm => (FinalJamo::R, Some(FinalJamo::M)),
            FinalJamo::Lb => (FinalJamo::R, Some(FinalJamo::B)),
            FinalJamo::Ls => (FinalJamo::R, Some(FinalJamo::S)),
            FinalJamo::Lt => (FinalJamo::R, Some(FinalJamo::T)),
            FinalJamo::Lph => (FinalJamo::R, Some(FinalJamo::P)),
            FinalJamo::Lh => (FinalJamo::R, Some(FinalJamo::H)),
            FinalJamo::Bs => (FinalJamo::B, Some(FinalJamo::S)),
            _ => (self, None),
        }
    }

    /// The two simple consonants that this consonant decomposes into.
    pub fn components(self) -> (r: (FinalJamo, Option<FinalJamo>))
        ensures
            r == self.components_spec(),
    {
        match self {
            FinalJamo::Gs => (FinalJamo::G, Some(FinalJamo::S)),
            FinalJamo::Nc => (FinalJamo::N, Some(FinalJamo::J)),
            FinalJamo::Nch => (FinalJamo::N, Some(FinalJamo::H)),
            FinalJamo::Lg => (FinalJamo::R, Some(FinalJamo::G)),
            FinalJamo::Lm => (FinalJamo::R, Some(FinalJamo::M)),
            FinalJamo::Lb => (FinalJamo::R, Some(FinalJamo::B)),
            FinalJamo::Ls => (FinalJamo::R, Some(FinalJamo::S)),
            FinalJamo::Lt => (FinalJamo::R, Some(FinalJamo::T)),
            FinalJamo::Lph => (FinalJamo::R, Some(FinalJamo::P)),
            FinalJamo::Lh => (FinalJamo::R, Some(FinalJamo::H)),
            FinalJamo::Bs => (FinalJamo::B, Some(FinalJamo::S)),
            _ => (self, None),
        }
    }
}

/// Every trailing consonant appears in `FinalJamo::all_spec`, at the index
/// one below its one-based id.
pub proof fn lemma_final_all_complete()
    ensures
        forall|fj: FinalJamo| #![trigger fj.id_spec()]
            FinalJamo::all_spec()[fj.id_spec() as int - 1] == fj
            && 1 <= fj.id_spec() <= FinalJamo::all_spec().len(),
{
}

/// A consonant is listed in `append_possible_spec` exactly when the cluster
/// table merges the pair.
pub proof fn lemma_append_possible_exact()
    ensures
        forall|f: FinalJamo, g: FinalJamo|
            #[trigger] f.append_possible_spec().contains(g) <==> f.append_spec(g) is Some,
{
    assert(FinalJamo::G.append_possible_spec()[0] == FinalJamo::S);
    assert(FinalJamo::N.append_possible_spec()[0] == FinalJamo::J);
    assert(FinalJamo::N.append_possible_spec()[1] == FinalJamo::H);
    assert(FinalJamo::R.append_possible_spec()[0] == FinalJamo::G);
    assert(FinalJamo::R.append_possible_spec()[1] == FinalJamo::M);
    assert(FinalJamo::R.append_possible_spec()[2] == FinalJamo::B);
    assert(FinalJamo::R.append_possible_spec()[3] == FinalJamo::S);
    assert(FinalJamo::R.append_possible_spec()[4] == FinalJamo::T);
    assert(FinalJamo::R.append_possible_spec()[5] == FinalJamo::P);
    assert(FinalJamo::R.append_possible_spec()[6] == FinalJamo::H);
    assert(FinalJamo::B.append_possible_spec()[0] == FinalJamo::S);
    assert forall|f: FinalJamo, g: FinalJamo|
        #[trigger] f.append_possible_spec().contains(g) <==> f.append_spec(g) is Some by {
        if f.append_possible_spec().contains(g) {
            assert(f.append_spec(g) is Some);
        }
    }
}

impl Jamo {
    /// The canonical Latin spelling of this letter, as a character sequence.
    pub open spec fn rr_spec(self) -> Seq<char> {
        match self {
            Jamo::G => seq!['g'],
            Jamo::Gg => seq!['g', 'g'],
            Jamo::Gs => seq!['g', 's'],
            Jamo::N => seq!['n'],
            Jamo::Nc => seq!['n', 'c'],
            Jamo::Nch => seq!['n', 'c', 'h'],
            Jamo::D => seq!['d'],
            Jamo::Dd => seq!['d', 'd'],
            Jamo::R => seq!['r'],
            Jamo::Lg => seq!['l', 'g'],
            Jamo::Lm => seq!['l', 'm'],
            Jamo::Lb => seq!['l', 'b'],
            Jamo::Ls => seq!['l', 's'],
            Jamo::Lt => seq!['l', 't'],
            Jamo::Lph => seq!['l', 'p', 'h'],
            Jamo::Lh => seq!['l', 'h'],
            Jamo::M => seq!['m'],
            Jamo::B => seq!['b'],
            Jamo::Bb => seq!['b', 'b'],
            Jamo::Bs => seq!['b', 's'],
            Jamo::S => seq!['s'],
            Jamo::Ss => seq!['s', 's'],
            Jamo::Silent => seq!['n', 'g'],
            Jamo::J => seq!['j'],
            Jamo::Jj => seq!['j', 'j'],
            Jamo::Ch => seq!['c', 'h'],
            Jamo::K => seq!['k'],
            Jamo::T => seq!['t'],
            Jamo::P => seq!['p'],
            Jamo::H => seq!['h'],
            Jamo::A => seq!['a'],
            Jamo::Ae => seq!['a', 'e'],
            Jamo::Ya => seq!['y', 'a'],
            Jamo::Yae => seq!['y', 'a', 'e'],
            Jamo::Eo => seq!['e', 'o'],
            Jamo::E => seq!['e'],
            Jamo::Yeo => seq!['y', 'e', 'o'],
            Jamo::Ye => seq!['y', 'e'],
            Jamo::O => seq!['o'],
            Jamo::Wa => seq!['w', 'a'],
            Jamo::Wae => seq!['w', 'a', 'e'],
            Jamo::Oe => seq!['o', 'e'],
            Jamo::Yo => seq!['y', 'o'],
            Jamo::U => seq!['u'],
            Jamo::Wo => seq!['w', 'o'],
            Jamo::We => seq!['w', 'e'],
            Jamo::Wi => seq!['w', 'i'],
            Jamo::Yu => seq!['y', 'u'],
            Jamo::Eu => seq!['e', 'u'],
            Jamo::Ui => seq!['u', 'i'],
            Jamo::I => seq!['i'],
        }
    }

    /// The canonical Latin spelling of this letter.
    pub fn rr(self) -> (r: &'static str)
        ensures
            r@ == self.rr_spec(),
    {
        match self {
            Jamo::G => {
                proof {
                    reveal_strlit("g");
                    assert("g"@ =~= seq!['g']);
                }
                "g"
            },
            Jamo::Gg => {
                proof {
                    reveal_strlit("gg");
                    assert("gg"@ =~= seq!['g', 'g']);
                }
                "gg"
            },
            Jamo::Gs => {
                proof {
                    reveal_strlit("gs");
                    assert("gs"@ =~= seq!['g', 's']);
                }
                "gs"
            },
            Jamo::N => {
                proof {
                    reveal_strlit("n");
                    assert("n"@ =~= seq!['n']);
                }
                "n"
            },
            Jamo::Nc => {
                proof {
                    reveal_strlit("nc");
                    assert("nc"@ =~= seq!['n', 'c']);
                }
                "nc"
            },
            Jamo::Nch => {
                proof {
                    reveal_strlit("nch");
                    assert("nch"@ =~= seq!['n', 'c', 'h']);
                }
                "nch"
            },
            Jamo::D => {
                proof {
                    reveal_strlit("d");
                    assert("d"@ =~= seq!['d']);
                }
                "d"
            },
            Jamo::Dd => {
                proof {
                    reveal_strlit("dd");
                    assert("dd"@ =~= seq!['d', 'd']);
                }
                "dd"
            },
            Jamo::R => {
                proof {
                    reveal_strlit("r");
                    assert("r"@ =~= seq!['r']);
                }
                "r"
            },
            Jamo::Lg => {
                proof {
                    reveal_strlit("lg");
                    assert("lg"@ =~= seq!['l', 'g']);
                }
                "lg"
            },
            Jamo::Lm => {
                proof {
                    reveal_strlit("lm");
                    assert("lm"@ =~= seq!['l', 'm']);
                }
                "lm"
            },
            Jamo::Lb => {
                proof {
                    reveal_strlit("lb");
                    assert("lb"@ =~= seq!['l', 'b']);
                }
                "lb"
            },
            Jamo::Ls => {
                proof {
                    reveal_strlit("ls");
                    assert("ls"@ =~= seq!['l', 's']);
                }
                "ls"
            },
            Jamo::Lt => {
                proof {
                    reveal_strlit("lt");
                    assert("lt"@ =~= seq!['l', 't']);
                }
                "lt"
            },
            Jamo::Lph => {
                proof {
                    reveal_strlit("lph");
                    assert("lph"@ =~= seq!['l', 'p', 'h']);
                }
                "lph"
            },
            Jamo::Lh => {
                proof {
                    reveal_strlit("lh");
                    assert("lh"@ =~= seq!['l', 'h']);
                }
                "lh"
            },
            Jamo::M => {
                proof {
                    reveal_strlit("m");
                    assert("m"@ =~= seq!['m']);
                }
                "m"
            },
            Jamo::B => {
                proof {
                    reveal_strlit("b");
                    assert("b"@ =~= seq!['b']);
                }
                "b"
            },
            Jamo::Bb => {
                proof {
                    reveal_strlit("bb");
                    assert("bb"@ =~= seq!['b', 'b']);
                }
                "bb"
            },
            Jamo::Bs => {
                proof {
                    reveal_strlit("bs");
                    assert("bs"@ =~= seq!['b', 's']);
                }
                "bs"
            },
            Jamo::S => {
                proof {
                    reveal_strlit("s");
                    assert("s"@ =~= seq!['s']);
                }
                "s"
            },
            Jamo::Ss => {
                proof {
                    reveal_strlit("ss");
                    assert("ss"@ =~= seq!['s', 's']);
                }
                "ss"
            },
            Jamo::Silent => {
                proof {
                    reveal_strlit("ng");
                    assert("ng"@ =~= seq!['n', 'g']);
                }
                "ng"
            },
            Jamo::J => {
                proof {
                    reveal_strlit("j");
                    assert("j"@ =~= seq!['j']);
                }
                "j"
            },
            Jamo::Jj => {
                proof {
                    reveal_strlit("jj");
                    assert("jj"@ =~= seq!['j', 'j']);
                }
                "jj"
            },
            Jamo::Ch => {
                proof {
                    reveal_strlit("ch");
                    assert("ch"@ =~= seq!['c', 'h']);
                }
                "ch"
            },
            Jamo::K => {
                proof {
                    reveal_strlit("k");
                    assert("k"@ =~= seq!['k']);
                }
                "k"
            },
            Jamo::T => {
                proof {
                    reveal_strlit("t");
                    assert("t"@ =~= seq!['t']);
                }
                "t"
            },
            Jamo::P => {
                proof {
                    reveal_strlit("p");
                    assert("p"@ =~= seq!['p']);
                }
                "p"
            },
            Jamo::H => {
                proof {
                    reveal_strlit("h");
                    assert("h"@ =~= seq!['h']);
                }
                "h"
            },
            Jamo::A => {
                proof {
                    reveal_strlit("a");
                    assert("a"@ =~= seq!['a']);
                }
                "a"
            },
            Jamo::Ae => {
                proof {
                    reveal_strlit("ae");
                    assert("ae"@ =~= seq!['a', 'e']);
                }
                "ae"
            },
            Jamo::Ya => {
                proof {
                    reveal_strlit("ya");
                    assert("ya"@ =~= seq!['y', 'a']);
                }
                "ya"
            },
            Jamo::Yae => {
                proof {
                    reveal_strlit("yae");
                    assert("yae"@ =~= seq!['y', 'a', 'e']);
                }
                "yae"
            },
            Jamo::Eo => {
                proof {
                    reveal_strlit("eo");
                    assert("eo"@ =~= seq!['e', 'o']);
                }
                "eo"
            },
            Jamo::E => {
                proof {
                    reveal_strlit("e");
                    assert("e"@ =~= seq!['e']);
                }
                "e"
            },
            Jamo::Yeo => {
                proof {
                    reveal_strlit("yeo");
                    assert("yeo"@ =~= seq!['y', 'e', 'o']);
                }
                "yeo"
            },
            Jamo::Ye => {
                proof {
                    reveal_strlit("ye");
                    assert("ye"@ =~= seq!['y', 'e']);
                }
                "ye"
            },
            Jamo::O => {
                proof {
                    reveal_strlit("o");
                    assert("o"@ =~= seq!['o']);
                }
                "o"
            },
            Jamo::Wa => {
                proof {
                    reveal_strlit("wa");
                    assert("wa"@ =~= seq!['w', 'a']);
                }
                "wa"
            },
            Jamo::Wae => {
                proof {
                    reveal_strlit("wae");
                    assert("wae"@ =~= seq!['w', 'a', 'e']);
                }
                "wae"
            },
            Jamo::Oe => {
                proof {
                    reveal_strlit("oe");
                    assert("oe"@ =~= seq!['o', 'e']);
                }
                "oe"
            },
            Jamo::Yo => {
                proof {
                    reveal_strlit("yo");
                    assert("yo"@ =~= seq!['y', 'o']);
                }
                "yo"
            },
            Jamo::U => {
                proof {
                    reveal_strlit("u");
                    assert("u"@ =~= seq!['u']);
                }
                "u"
            },
            Jamo::Wo => {
                proof {
                    reveal_strlit("wo");
                    assert("wo"@ =~= seq!['w', 'o']);
                }
                "wo"
            },
            Jamo::We => {
                proof {
                    reveal_strlit("we");
                    assert("we"@ =~= seq!['w', 'e']);
                }
                "we"
            },
            Jamo::Wi => {
                proof {
                    reveal_strlit("wi");
                    assert("wi"@ =~= seq!['w', 'i']);
                }
                "wi"
            },
            Jamo::Yu => {
                proof {
                    reveal_strlit("yu");
                    assert("yu"@ =~= seq!['y', 'u']);
                }
                "yu"
            },
            Jamo::Eu => {
                proof {
                    reveal_strlit("eu");
                    assert("eu"@ =~= seq!['e', 'u']);
                }
                "eu"
            },
            Jamo::Ui => {
                proof {
                    reveal_strlit("ui");
                    assert("ui"@ =~= seq!['u', 'i']);
                }
                "ui"
            },
            Jamo::I => {
                proof {
                    reveal_strlit("i");
                    assert("i"@ =~= seq!['i']);
                }
                "i"
            },
        }
    }

    /// The leading-consonant reading of this letter, where it has one.
    pub open spec fn as_initial(self) -> Option<InitialJamo> {
        match self {
            Jamo::G => Some(InitialJamo::G),
            Jamo::Gg => Some(InitialJamo::Gg),
            Jamo::N => Some(InitialJamo::N),
            Jamo::D => Some(InitialJamo::D),
            Jamo::Dd => Some(InitialJamo::Dd),
            Jamo::R => Some(InitialJamo::R),
            Jamo::M => Some(InitialJamo::M),
            Jamo::B => Some(InitialJamo::B),
            Jamo::Bb => Some(InitialJamo::Bb),
            Jamo::S => Some(InitialJamo::S),
            Jamo::Ss => Some(InitialJamo::Ss),
            Jamo::Silent => Some(InitialJamo::Silent),
            Jamo::J => Some(InitialJamo::J),
            Jamo::Jj => Some(InitialJamo::Jj),
            Jamo::Ch => Some(InitialJamo::Ch),
            Jamo::K => Some(InitialJamo::K),
            Jamo::T => Some(InitialJamo::T),
            Jamo::P => Some(InitialJamo::P),
            Jamo::H => Some(InitialJamo::H),
            _ => None,
        }
    }

    /// The vowel reading of this letter, where it has one.
    pub open spec fn as_medial(self) -> Option<MedialJamo> {
        match self {
            Jamo::A => Some(MedialJamo::A),
            Jamo::Ae => Some(MedialJamo::Ae),
            Jamo::Ya => Some(MedialJamo::Ya),
            Jamo::Yae => Some(MedialJamo::Yae),
            Jamo::Eo => Some(MedialJamo::Eo),
            Jamo::E => Some(MedialJamo::E),
            Jamo::Yeo => Some(MedialJamo::Yeo),
            Jamo::Ye => Some(MedialJamo::Ye),
            Jamo::O => Some(MedialJamo::O),
            Jamo::Wa => Some(MedialJamo::Wa),
            Jamo::Wae => Some(MedialJamo::Wae),
            Jamo::Oe => Some(MedialJamo::Oe),
            Jamo::Yo => Some(MedialJamo::Yo),
            Jamo::U => Some(MedialJamo::U),
            Jamo::Wo => Some(MedialJamo::Wo),
            Jamo::We => Some(MedialJamo::We),
            Jamo::Wi => Some(MedialJamo::Wi),
            Jamo::Yu => Some(MedialJamo::Yu),
            Jamo::Eu => Some(MedialJamo::Eu),
            Jamo::Ui => Some(MedialJamo::Ui),
            Jamo::I => Some(MedialJamo::I),
            _ => None,
        }
    }

    /// The trailing-consonant reading of this letter, where it has one.
    pub open spec fn as_final(self) -> Option<FinalJamo> {
        match self {
            Jamo::G => Some(FinalJamo::G),
            Jamo::Gg => Some(FinalJamo::Gg),
            Jamo::Gs => Some(FinalJamo::Gs),
            Jamo::N => Some(FinalJamo::N),
            Jamo::Nc => Some(FinalJamo::Nc),
            Jamo::Nch => Some(FinalJamo::Nch),
            Jamo::D => Some(FinalJamo::D),
            Jamo::R => Some(FinalJamo::R),
            Jamo::Lg => Some(FinalJamo::Lg),
            Jamo::Lm => Some(FinalJamo::Lm),
            Jamo::Lb => Some(FinalJamo::Lb),
            Jamo::Ls => Some(FinalJamo::Ls),
            Jamo::Lt => Some(FinalJamo::Lt),
            Jamo::Lph => Some(FinalJamo::Lph),
            Jamo::Lh => Some(FinalJamo::Lh),
            Jamo::M => Some(FinalJamo::M),
            Jamo::B => Some(FinalJamo::B),
            Jamo::Bs => Some(FinalJamo::Bs),
            Jamo::S => Some(FinalJamo::S),
            Jamo::Ss => Some(FinalJamo::Ss),
            Jamo::Silent => Some(FinalJamo::Silent),
            Jamo::J => Some(FinalJamo::J),
            Jamo::Ch => Some(FinalJamo::Ch),
            Jamo::K => Some(FinalJamo::K),
            Jamo::T => Some(FinalJamo::T),
            Jamo::P => Some(FinalJamo::P),
            Jamo::H => Some(FinalJamo::H),
            _ => None,
        }
    }

    /// Narrows this letter to a leading consonant, or reports
    /// `UnexpectedJamo` where it is not one.
    pub fn to_initial(self) -> (r: JamoResult<InitialJamo>)
        ensures
            match self.as_initial() {
                Some(ij) => r == Ok::<InitialJamo, JamoError>(ij),
                None => r == Err::<InitialJamo, JamoError>(JamoError::UnexpectedJamo(self)),
            },
    {
        match self {
            Jamo::G => Ok(InitialJamo::G),
            Jamo::Gg => Ok(InitialJamo::Gg),
            Jamo::N => Ok(InitialJamo::N),
            Jamo::D => Ok(InitialJamo::D),
            Jamo::Dd => Ok(InitialJamo::Dd),
            Jamo::R => Ok(InitialJamo::R),
            Jamo::M => Ok(InitialJamo::M),
            Jamo::B => Ok(InitialJamo::B),
            Jamo::Bb => Ok(InitialJamo::Bb),
            Jamo::S => Ok(InitialJamo::S),
            Jamo::Ss => Ok(InitialJamo::Ss),
            Jamo::Silent => Ok(InitialJamo::Silent),
            Jamo::J => Ok(InitialJamo::J),
            Jamo::Jj => Ok(InitialJamo::Jj),
            Jamo::Ch => Ok(InitialJamo::Ch),
            Jamo::K => Ok(InitialJamo::K),
            Jamo::T => Ok(InitialJamo::T),
            Jamo::P => Ok(InitialJamo::P),
            Jamo::H => Ok(InitialJamo::H),
            _ => Err(JamoError::UnexpectedJamo(self)),
        }
    }

    /// Narrows this letter to a vowel, or reports `UnexpectedJamo` where it
    /// is not one.
    pub fn to_medial(self) -> (r: JamoResult<MedialJamo>)
        ensures
            match self.as_medial() {
                Some(mj) => r == Ok::<MedialJamo, JamoError>(mj),
                None => r == Err::<MedialJamo, JamoError>(JamoError::UnexpectedJamo(self)),
            },
    {
        match self {
            Jamo::A => Ok(MedialJamo::A),
            Jamo::Ae => Ok(MedialJamo::Ae),
            Jamo::Ya => Ok(MedialJamo::Ya),
            Jamo::Yae => Ok(MedialJamo::Yae),
            Jamo::Eo => Ok(MedialJamo::Eo),
            Jamo::E => Ok(MedialJamo::E),
            Jamo::Yeo => Ok(MedialJamo::Yeo),
            Jamo::Ye => Ok(MedialJamo::Ye),
            Jamo::O => Ok(MedialJamo::O),
            Jamo::Wa => Ok(MedialJamo::Wa),
            Jamo::Wae => Ok(MedialJamo::Wae),
            Jamo::Oe => Ok(MedialJamo::Oe),
            Jamo::Yo => Ok(MedialJamo::Yo),
            Jamo::U => Ok(MedialJamo::U),
            Jamo::Wo => Ok(MedialJamo::Wo),
            Jamo::We => Ok(MedialJamo::We),
            Jamo::Wi => Ok(MedialJamo::Wi),
            Jamo::Yu => Ok(MedialJamo::Yu),
            Jamo::Eu => Ok(MedialJamo::Eu),
            Jamo::Ui => Ok(MedialJamo::Ui),
            Jamo::I => Ok(MedialJamo::I),
            _ => Err(JamoError::UnexpectedJamo(self)),
        }
    }

    /// Narrows this letter to a trailing consonant, or reports
    /// `UnexpectedJamo` where it is not one.
    pub fn to_final(self) -> (r: JamoResult<FinalJamo>)
        ensures
            match self.as_final() {
                Some(fj) => r == Ok::<FinalJamo, JamoError>(fj),
                None => r == Err::<FinalJamo, JamoError>(JamoError::UnexpectedJamo(self)),
            },
    {
        match self {
            Jamo::G => Ok(FinalJamo::G),
            Jamo::Gg => Ok(FinalJamo::Gg),
            Jamo::Gs => Ok(FinalJamo::Gs),
            Jamo::N => Ok(FinalJamo::N),
            Jamo::Nc => Ok(FinalJamo::Nc),
            Jamo::Nch => Ok(FinalJamo::Nch),
            Jamo::D => Ok(FinalJamo::D),
            Jamo::R => Ok(FinalJamo::R),
            Jamo::Lg => Ok(FinalJamo::Lg),
            Jamo::Lm => Ok(FinalJamo::Lm),
            Jamo::Lb => Ok(FinalJamo::Lb),
            Jamo::Ls => Ok(FinalJamo::Ls),
            Jamo::Lt => Ok(FinalJamo::Lt),
            Jamo::Lph => Ok(FinalJamo::Lph),
            Jamo::Lh => Ok(FinalJamo::Lh),
            Jamo::M => Ok(FinalJamo::M),
            Jamo::B => Ok(FinalJamo::B),
            Jamo::Bs => Ok(FinalJamo::Bs),
            Jamo::S => Ok(FinalJamo::S),
            Jamo::Ss => Ok(FinalJamo::Ss),
            Jamo::Silent => Ok(FinalJamo::Silent),
            Jamo::J => Ok(FinalJamo::J),
            Jamo::Ch => Ok(FinalJamo::Ch),
            Jamo::K => Ok(FinalJamo::K),
            Jamo::T => Ok(FinalJamo::T),
            Jamo::P => Ok(FinalJamo::P),
            Jamo::H => Ok(FinalJamo::H),
            _ => Err(JamoError::UnexpectedJamo(self)),
        }
    }
}

/// Narrowing undoes widening: a narrow letter taken to its generic letter
/// narrows back to itself, and a successful narrowing widens back to the
/// letter it came from.
pub proof fn lemma_narrowing_roundtrip()
    ensures
        forall|ij: InitialJamo| (#[trigger] ij.jamo_spec()).as_initial() == Some(ij),
        forall|mj: MedialJamo| (#[trigger] mj.jamo_spec()).as_medial() == Some(mj),
        forall|fj: FinalJamo| (#[trigger] fj.jamo_spec()).as_final() == Some(fj),
        forall|j: Jamo| (#[trigger] j.as_initial()) is Some ==> j.as_initial()->0.jamo_spec() == j,
        forall|j: Jamo| (#[trigger] j.as_medial()) is Some ==> j.as_medial()->0.jamo_spec() == j,
        forall|j: Jamo| (#[trigger] j.as_final()) is Some ==> j.as_final()->0.jamo_spec() == j,
{
}

impl Jamo {
    /// Every letter, in id order.
    pub open spec fn all_spec() -> Seq<Jamo> {
        seq![
            Jamo::G,
            Jamo::Gg,
            Jamo::Gs,
            Jamo::N,
            Jamo::Nc,
            Jamo::Nch,
            Jamo::D,
            Jamo::Dd,
            Jamo::R,
            Jamo::Lg,
            Jamo::Lm,
            Jamo::Lb,
            Jamo::Ls,
            Jamo::Lt,
            Jamo::Lph,
            Jamo::Lh,
            Jamo::M,
            Jamo::B,
            Jamo::Bb,
            Jamo::Bs,
            Jamo::S,
            Jamo::Ss,
            Jamo::Silent,
            Jamo::J,
            Jamo::Jj,
            Jamo::Ch,
            Jamo::K,
            Jamo::T,
            Jamo::P,
            Jamo::H,
            Jamo::A,
            Jamo::Ae,
            Jamo::Ya,
            Jamo::Yae,
            Jamo::Eo,
            Jamo::E,
            Jamo::Yeo,
            Jamo::Ye,
            Jamo::O,
            Jamo::Wa,
            Jamo::Wae,
            Jamo::Oe,
            Jamo::Yo,
            Jamo::U,
            Jamo::Wo,
            Jamo::We,
            Jamo::Wi,
            Jamo::Yu,
            Jamo::Eu,
            Jamo::Ui,
            Jamo::I,
        ]
    }

    /// Every letter, in id order.
    pub fn all() -> (r: Vec<Jamo>)
        ensures
            r@ == Jamo::all_spec(),
    {
        vec![
            Jamo::G,
            Jamo::Gg,
            Jamo::Gs,
            Jamo::N,
            Jamo::Nc,
            Jamo::Nch,
            Jamo::D,
            Jamo::Dd,
            Jamo::R,
            Jamo::Lg,
            Jamo::Lm,
            Jamo::Lb,
            Jamo::Ls,
            Jamo::Lt,
            Jamo::Lph,
            Jamo::Lh,
            Jamo::M,
            Jamo::B,
            Jamo::Bb,
            Jamo::Bs,
            Jamo::S,
            Jamo::Ss,
            Jamo::Silent,
            Jamo::J,
            Jamo::Jj,
            Jamo::Ch,
            Jamo::K,
            Jamo::T,
            Jamo::P,
            Jamo::H,
            Jamo::A,
            Jamo::Ae,
            Jamo::Ya,
            Jamo::Yae,
            Jamo::Eo,
            Jamo::E,
            Jamo::Yeo,
            Jamo::Ye,
            Jamo::O,
            Jamo::Wa,
            Jamo::Wae,
            Jamo::Oe,
            Jamo::Yo,
            Jamo::U,
            Jamo::Wo,
            Jamo::We,
            Jamo::Wi,
            Jamo::Yu,
            Jamo::Eu,
            Jamo::Ui,
            Jamo::I,
        ]
    }

    /// Every letter that can stand as a leading consonant, in id order.
    pub fn all_initial() -> (r: Vec<Jamo>)
        ensures
            forall|j: Jamo| #[trigger] r@.contains(j) <==> j.as_initial() is Some,
            r@.no_duplicates(),
    {
        Jamo::filtered(true, false, None, false, None)
    }

    /// Every letter that can stand as a vowel, in id order.
    pub fn all_medial() -> (r: Vec<Jamo>)
        ensures
            forall|j: Jamo| #[trigger] r@.contains(j) <==> j.as_medial() is Some,
            r@.no_duplicates(),
    {
        Jamo::filtered(false, true, None, false, None)
    }

    /// Every letter that can stand as a trailing consonant, in id order.
    pub fn all_finale() -> (r: Vec<Jamo>)
        ensures
            forall|j: Jamo| #[trigger] r@.contains(j) <==> j.as_final() is Some,
            r@.no_duplicates(),
    {
        Jamo::filtered(false, false, None, true, None)
    }

    /// The letters of the chosen roles, in id order and without repetition:
    /// a letter that plays several of the chosen roles appears once.
    pub fn all_multi(initial: bool, medial: bool, finale: bool) -> (r: Vec<Jamo>)
        ensures
            forall|j: Jamo| #[trigger] r@.contains(j) <==> (initial && j.as_initial() is Some)
                || (medial && j.as_medial() is Some)
                || (finale && j.as_final() is Some),
            r@.no_duplicates(),
    {
        Jamo::filtered(initial, medial, None, finale, None)
    }

    /// Whether a letter is kept by [`Jamo::all_multi`] and
    /// [`Jamo::all_or_possible`]: it plays one of the chosen roles, and
    /// where a current vowel or trailing consonant is given, the letter can
    /// still legally combine with it.
    pub open spec fn role_possible(
        self,
        initial: bool,
        medial: bool,
        med_of: Option<MedialJamo>,
        finale: bool,
        fin_of: Option<FinalJamo>,
    ) -> bool {
        ||| (initial && self.as_initial() is Some)
        ||| (medial && match med_of {
            Some(m) => self.as_medial() is Some && m.combine_spec(self.as_medial()->0) is Some,
            None => self.as_medial() is Some,
        })
        ||| (finale && match fin_of {
            Some(f) => self.as_final() is Some && f.append_spec(self.as_final()->0) is Some,
            None => self.as_final() is Some,
        })
    }

    /// Whether this letter is kept by the given role choice.
    fn role_check(
        self,
        initial: bool,
        medial: bool,
        med_of: Option<MedialJamo>,
        finale: bool,
        fin_of: Option<FinalJamo>,
    ) -> (r: bool)
        ensures
            r == self.role_possible(initial, medial, med_of, finale, fin_of),
    {
        let mut keep = false;
        if initial && self.to_initial().is_ok() {
            keep = true;
        }
        if medial {
            match self.to_medial() {
                Ok(v) => match med_of {
                    Some(m) => if m.combine(v).is_ok() {
                        keep = true;
                    },
                    None => {
                        keep = true;
                    },
                },
                Err(_) => {},
            }
        }
        if finale {
            match self.to_final() {
                Ok(g) => match fin_of {
                    Some(f) => if f.append(g).is_ok() {
                        keep = true;
                    },
                    None => {
                        keep = true;
                    },
                },
                Err(_) => {},
            }
        }
        keep
    }

    /// Walks the full letter list once, keeping the letters of the chosen
    /// roles and dropping repetitions.
    fn filtered(
        initial: bool,
        medial: bool,
        med_of: Option<MedialJamo>,
        finale: bool,
        fin_of: Option<FinalJamo>,
    ) -> (r: Vec<Jamo>)
        ensures
            forall|j: Jamo| #[trigger] r@.contains(j)
                <==> j.role_possible(initial, medial, med_of, finale, fin_of),
            r@.no_duplicates(),
    {
        let all = Jamo::all();
        let mut v: Vec<Jamo> = Vec::new();
        let mut idx: usize = 0;
        while idx < all.len()
            invariant
                all@ == Jamo::all_spec(),
                idx <= all@.len(),
                v@.no_duplicates(),
                forall|j: Jamo| #[trigger] v@.contains(j) <==> all@.take(idx as int).contains(j)
                    && j.role_possible(initial, medial, med_of, finale, fin_of),
            decreases all@.len() - idx,
        {
            let j = all[idx];
            let keep = j.role_check(initial, medial, med_of, finale, fin_of);
            let ghost pre = v@;
            if keep && !vec_contains(&v, j) {
                v.push(j);
            }
            proof {
                let s0 = all@.take(idx as int);
                let s1 = all@.take(idx as int + 1);
                assert(s1 =~= s0.push(all@[idx as int]));
                assert forall|x: Jamo| #[trigger] s1.contains(x)
                    implies s0.contains(x) || x == j by {
                    let i = choose|i: int| 0 <= i < s1.len() && s1[i] == x;
                    if i < s0.len() {
                        assert(s0[i] == x);
                    }
                }
                assert forall|x: Jamo| #[trigger] s0.contains(x) implies s1.contains(x) by {
                    let i = choose|i: int| 0 <= i < s0.len() && s0[i] == x;
                    assert(s1[i] == x);
                }
                assert(s1[idx as int] == j);
                assert(s1.contains(j));
                assert forall|x: Jamo| #[trigger] v@.contains(x)
                    implies pre.contains(x) || x == j by {
                    if v@ != pre {
                        let i = choose|i: int| 0 <= i < v@.len() && v@[i] == x;
                        if i < pre.len() {
                            assert(pre[i] == x);
                        }
                    }
                }
                assert forall|x: Jamo| #[trigger] pre.contains(x) implies v@.contains(x) by {
                    let i = choose|i: int| 0 <= i < pre.len() && pre[i] == x;
                    assert(v@[i] == x);
                }
                if v@ != pre {
                    assert(v@[pre.len() as int] == j);
                    assert(v@.contains(j));
                }
                assert forall|x: Jamo| #[trigger] v@.contains(x) <==> (s1.contains(x)
                    && x.role_possible(initial, medial, med_of, finale, fin_of)) by {
                    assert(pre.contains(x) <==> (s0.contains(x)
                        && x.role_possible(initial, medial, med_of, finale, fin_of)));
                }
            }
            idx = idx + 1;
        }
        proof {
            assert(all@.take(51) =~= all@);
            lemma_jamo_all_complete();
        }
        v
    }
}

impl Jamo {
    /// The letters of the chosen roles, where for the vowel and
    /// trailing-consonant roles a current letter may be given: then only
    /// the letters that can still combine with it are kept. The result is
    /// in id order and without repetition.
    pub fn all_or_possible(
        initial: bool,
        medial: (bool, Option<MedialJamo>),
        finale: (bool, Option<FinalJamo>),
    ) -> (r: Vec<Jamo>)
        ensures
            forall|j: Jamo| #[trigger] r@.contains(j)
                <==> j.role_possible(initial, medial.0, medial.1, finale.0, finale.1),
            r@.no_duplicates(),
    {
        Jamo::filtered(initial, medial.0, medial.1, finale.0, finale.1)
    }

    /// The vowels that the given vowel can still accept, as generic
    /// letters, in the order of the combination table.
    pub fn possible_medial(jamo: MedialJamo) -> (r: Vec<Jamo>)
        ensures
            r@.len() == jamo.combine_possible_spec().len(),
            forall|k: int| 0 <= k < r@.len()
                ==> r@[k] == jamo.combine_possible_spec()[k].jamo_spec(),
    {
        let vs = jamo.combine_possible();
        let mut r: Vec<Jamo> = Vec::new();
        let mut i: usize = 0;
        while i < vs.len()
            invariant
                vs@ == jamo.combine_possible_spec(),
                i <= vs@.len(),
                r@.len() == i,
                forall|k: int| 0 <= k < i ==> r@[k] == vs@[k].jamo_spec(),
            decreases vs@.len() - i,
        {
            r.push(vs[i].to_jamo());
            i = i + 1;
        }
        r
    }

    /// The trailing consonants that the given one can still accept, as
    /// generic letters, in the order of the cluster table.
    pub fn possible_finale(jamo: FinalJamo) -> (r: Vec<Jamo>)
        ensures
            r@.len() == jamo.append_possible_spec().len(),
            forall|k: int| 0 <= k < r@.len()
                ==> r@[k] == jamo.append_possible_spec()[k].jamo_spec(),
    {
        let gs = jamo.append_possible();
        let mut r: Vec<Jamo> = Vec::new();
        let mut i: usize = 0;
        while i < gs.len()
            invariant
                gs@ == jamo.append_possible_spec(),
                i <= gs@.len(),
                r@.len() == i,
                forall|k: int| 0 <= k < i ==> r@[k] == gs@[k].jamo_spec(),
            decreases gs@.len() - i,
        {
            r.push(gs[i].to_jamo());
            i = i + 1;
        }
        r
    }
}

impl Jamo {
    /// The code point of this letter's glyph in the compatibility block.
    pub open spec fn codepoint_spec(self) -> nat {
        0x3131 + self.id_spec()
    }

    /// The glyph of this letter in the compatibility block.
    pub open spec fn glyph_spec(self) -> char {
        self.codepoint_spec() as char
    }

    /// The glyph of this letter in the compatibility block.
    pub fn glyph(self) -> (c: char)
        ensures
            c == self.glyph_spec(),
    {
        let u = 0x3131u32 + self.id() as u32;
        crate::char_from_u32(u).unwrap()
    }
}

/// Distinct letters have distinct Latin spellings: the romanization table
/// maps each spelling back to one letter.
pub proof fn lemma_rr_injective()
    ensures
        forall|j1: Jamo, j2: Jamo|
            j1 != j2 ==> #[trigger] j1.rr_spec() !=  #[trigger] j2.rr_spec(),
{
    assert forall|j1: Jamo, j2: Jamo| j1 != j2
        implies #[trigger] j1.rr_spec() != #[trigger] j2.rr_spec() by {
        if j1.rr_spec() == j2.rr_spec() {
            assert(j1.rr_spec().len() == j2.rr_spec().len());
            assert(j1.rr_spec()[0] == j2.rr_spec()[0]);
            if j1.rr_spec().len() >= 2 {
                assert(j1.rr_spec()[1] == j2.rr_spec()[1]);
            }
            if j1.rr_spec().len() >= 3 {
                assert(j1.rr_spec()[2] == j2.rr_spec()[2]);
            }
        }
    }
}

/// Every letter plays at least one of the three roles.
pub proof fn lemma_jamo_role_total()
    ensures
        forall|j: Jamo| (#[trigger] j.as_initial()) is Some || j.as_medial() is Some
            || j.as_final() is Some,
{
}

/// Decomposing a cluster or diphthong undoes combining: the two parts that
/// `components_spec` yields merge back into the value they came from, with
/// the expected shape classes.
pub proof fn lemma_components_inverse()
    ensures
        forall|m: MedialJamo| (#[trigger] m.components_spec()).1 is Some
            ==> m.components_spec().0.kind_spec() is Wide
                && m.components_spec().1->0.kind_spec() is Tall
                && m.components_spec().0.combine_spec(m.components_spec().1->0) == Some(m),
        forall|m: MedialJamo| (#[trigger] m.components_spec()).1 is None
            ==> m.components_spec().0 == m,
        forall|f: FinalJamo| (#[trigger] f.components_spec()).1 is Some
            ==> f.components_spec().0.append_spec(f.components_spec().1->0) == Some(f),
        forall|f: FinalJamo| (#[trigger] f.components_spec()).1 is None
            ==> f.components_spec().0 == f,
{
}

/// Every letter appears in `Jamo::all_spec`.
pub proof fn lemma_jamo_all_complete()
    ensures
        forall|j: Jamo| #[trigger] Jamo::all_spec().contains(j),
{
    assert forall|j: Jamo| #[trigger] Jamo::all_spec().contains(j) by {
        assert(Jamo::all_spec()[j.id_spec() as int] == j);
    }
}

/// Whether the vector holds the given letter.
fn vec_contains(v: &Vec<Jamo>, j: Jamo) -> (r: bool)
    ensures
        r == v@.contains(j),
{
    let mut i: usize = 0;
    while i < v.len()
        invariant
            i <= v@.len(),
            forall|k: int| 0 <= k < i ==> v@[k] != j,
        decreases v@.len() - i,
    {
        if v[i] == j {
            return true;
        }
        i = i + 1;
    }
    false
}

impl InitialJamo {
    /// The leading consonant with the given id; ids outside the class yield its first letter.
    pub open spec fn from_id_spec(i: nat) -> InitialJamo {
        if i == 0 {
            InitialJamo::G
        } else if i == 1 {
            InitialJamo::Gg
        } else if i == 2 {
            InitialJamo::N
        } else if i == 3 {
            InitialJamo::D
        } else if i == 4 {
            InitialJamo::Dd
        } else if i == 5 {
            InitialJamo::R
        } else if i == 6 {
            InitialJamo::M
        } else if i == 7 {
            InitialJamo::B
        } else if i == 8 {
            InitialJamo::Bb
        } else if i == 9 {
            InitialJamo::S
        } else if i == 10 {
            InitialJamo::Ss
        } else if i == 11 {
            InitialJamo::Silent
        } else if i == 12 {
            InitialJamo::J
        } else if i == 13 {
            InitialJamo::Jj
        } else if i == 14 {
            InitialJamo::Ch
        } else if i == 15 {
            InitialJamo::K
        } else if i == 16 {
            InitialJamo::T
        } else if i == 17 {
            InitialJamo::P
        } else if i == 18 {
            InitialJamo::H
        } else {
            InitialJamo::G
        }
    }
    /// The leading consonant with the given id.
    pub fn from_id(i: usize) -> (r: InitialJamo)
        requires
            i < 19,
        ensures
            r.id_spec() == i,
            r == InitialJamo::from_id_spec(i as nat),
    {
        match i {
            0 => InitialJamo::G,
            1 => InitialJamo::Gg,
            2 => InitialJamo::N,
            3 => InitialJamo::D,
            4 => InitialJamo::Dd,
            5 => InitialJamo::R,
            6 => InitialJamo::M,
            7 => InitialJamo::B,
            8 => InitialJamo::Bb,
            9 => InitialJamo::S,
            10 => InitialJamo::Ss,
            11 => InitialJamo::Silent,
            12 => InitialJamo::J,
            13 => InitialJamo::Jj,
            14 => InitialJamo::Ch,
            15 => InitialJamo::K,
            16 => InitialJamo::T,
            17 => InitialJamo::P,
            18 => InitialJamo::H,
            _ => vstd::pervasive::unreached(),
        }
    }
}

/// Ids are unique within each letter class: equal ids mean equal letters.
pub proof fn lemma_initial_id_injective()
    ensures
        forall|a: InitialJamo, b: InitialJamo| a.id_spec() == b.id_spec() ==> a == b,
{
}
impl MedialJamo {
    /// The vowel with the given id; ids outside the class yield its first letter.
    pub open spec fn from_id_spec(i: nat) -> MedialJamo {
        if i == 0 {
            MedialJamo::A
        } else if i == 1 {
            MedialJamo::Ae
        } else if i == 2 {
            MedialJamo::Ya
        } else if i == 3 {
            MedialJamo::Yae
        } else if i == 4 {
            MedialJamo::Eo
        } else if i == 5 {
            MedialJamo::E
        } else if i == 6 {
            MedialJamo::Yeo
        } else if i == 7 {
            MedialJamo::Ye
        } else if i == 8 {
            MedialJamo::O
        } else if i == 9 {
            MedialJamo::Wa
        } else if i == 10 {
            MedialJamo::Wae
        } else if i == 11 {
            MedialJamo::Oe
        } else if i == 12 {
            MedialJamo::Yo
        } else if i == 13 {
            MedialJamo::U
        } else if i == 14 {
            MedialJamo::Wo
        } else if i == 15 {
            MedialJamo::We
        } else if i == 16 {
            MedialJamo::Wi
        } else if i == 17 {
            MedialJamo::Yu
        } else if i == 18 {
            MedialJamo::Eu
        } else if i == 19 {
            MedialJamo::Ui
        } else if i == 20 {
            MedialJamo::I
        } else {
            MedialJamo::A
        }
    }
    /// The vowel with the given id.
    pub fn from_id(i: usize) -> (r: MedialJamo)
        requires
            i < 21,
        ensures
            r.id_spec() == i,
            r == MedialJamo::from_id_spec(i as nat),
    {
        match i {
            0 => MedialJamo::A,
            1 => MedialJamo::Ae,
            2 => MedialJamo::Ya,
            3 => MedialJamo::Yae,
            4 => MedialJamo::Eo,
            5 => MedialJamo::E,
            6 => MedialJamo::Yeo,
            7 => MedialJamo::Ye,
            8 => MedialJamo::O,
            9 => MedialJamo::Wa,
            10 => MedialJamo::Wae,
            11 => MedialJamo::Oe,
            12 => MedialJamo::Yo,
            13 => MedialJamo::U,
            14 => MedialJamo::Wo,
            15 => MedialJamo::We,
            16 => MedialJamo::Wi,
            17 => MedialJamo::Yu,
            18 => MedialJamo::Eu,
            19 => MedialJamo::Ui,
            20 => MedialJamo::I,
            _ => vstd::pervasive::unreached(),
        }
    }
}

/// Ids are unique within each letter class: equal ids mean equal letters.
pub proof fn lemma_medial_id_injective()
    ensures
        forall|a: MedialJamo, b: MedialJamo| a.id_spec() == b.id_spec() ==> a == b,
{
}
impl FinalJamo {
    /// The trailing consonant with the given id; ids outside the class yield its first letter.
    pub open spec fn from_id_spec(i: nat) -> FinalJamo {
        if i == 1 {
            FinalJamo::G
        } else if i == 2 {
            FinalJamo::Gg
        } else if i == 3 {
            FinalJamo::Gs
        } else if i == 4 {
            FinalJamo::N
        } else if i == 5 {
            FinalJamo::Nc
        } else if i == 6 {
            FinalJamo::Nch
        } else if i == 7 {
            FinalJamo::D
        } else if i == 8 {
            FinalJamo::R
        } else if i == 9 {
            FinalJamo::Lg
        } else if i == 10 {
            FinalJamo::Lm
        } else if i == 11 {
            FinalJamo::Lb
        } else if i == 12 {
            FinalJamo::Ls
        } else if i == 13 {
            FinalJamo::Lt
        } else if i == 14 {
            FinalJamo::Lph
        } else if i == 15 {
            FinalJamo::Lh
        } else if i == 16 {
            FinalJamo::M
        } else if i == 17 {
            FinalJamo::B
        } else if i == 18 {
            FinalJamo::Bs
        } else if i == 19 {
            FinalJamo::S
        } else if i == 20 {
            FinalJamo::Ss
        } else if i == 21 {
            FinalJamo::Silent
        } else if i == 22 {
            FinalJamo::J
        } else if i == 23 {
            FinalJamo::Ch
        } else if i == 24 {
            FinalJamo::K
        } else if i == 25 {
            FinalJamo::T
        } else if i == 26 {
            FinalJamo::P
        } else if i == 27 {
            FinalJamo::H
        } else {
            FinalJamo::G
        }
    }
    /// The trailing consonant with the given id.
    pub fn from_id(i: usize) -> (r: FinalJamo)
        requires
            1 <= i <= 27,
        ensures
            r.id_spec() == i,
            r == FinalJamo::from_id_spec(i as nat),
    {
        match i {
            1 => FinalJamo::G,
            2 => FinalJamo::Gg,
            3 => FinalJamo::Gs,
            4 => FinalJamo::N,
            5 => FinalJamo::Nc,
            6 => FinalJamo::Nch,
            7 => FinalJamo::D,
            8 => FinalJamo::R,
            9 => FinalJamo::Lg,
            10 => FinalJamo::Lm,
            11 => FinalJamo::Lb,
            12 => FinalJamo::Ls,
            13 => FinalJamo::Lt,
            14 => FinalJamo::Lph,
            15 => FinalJamo::Lh,
            16 => FinalJamo::M,
            17 => FinalJamo::B,
            18 => FinalJamo::Bs,
            19 => FinalJamo::S,
            20 => FinalJamo::Ss,
            21 => FinalJamo::Silent,
            22 => FinalJamo::J,
            23 => FinalJamo::Ch,
            24 => FinalJamo::K,
            25 => FinalJamo::T,
            26 => FinalJamo::P,
            27 => FinalJamo::H,
            _ => vstd::pervasive::unreached(),
        }
    }
}

/// Ids are unique within each letter class: equal ids mean equal letters.
pub proof fn lemma_final_id_injective()
    ensures
        forall|a: FinalJamo, b: FinalJamo| a.id_spec() == b.id_spec() ==> a == b,
{
}
impl Jamo {
    /// The letter with the given id; ids outside the class yield its first letter.
    pub open spec fn from_id_spec(i: nat) -> Jamo {
        if i == 0 {
            Jamo::G
        } else if i == 1 {
            Jamo::Gg
        } else if i == 2 {
            Jamo::Gs
        } else if i == 3 {
            Jamo::N
        } else if i == 4 {
            Jamo::Nc
        } else if i == 5 {
            Jamo::Nch
        } else if i == 6 {
            Jamo::D
        } else if i == 7 {
            Jamo::Dd
        } else if i == 8 {
            Jamo::R
        } else if i == 9 {
            Jamo::Lg
        } else if i == 10 {
            Jamo::Lm
        } else if i == 11 {
            Jamo::Lb
        } else if i == 12 {
            Jamo::Ls
        } else if i == 13 {
            Jamo::Lt
        } else if i == 14 {
            Jamo::Lph
        } else if i == 15 {
            Jamo::Lh
        } else if i == 16 {
            Jamo::M
        } else if i == 17 {
            Jamo::B
        } else if i == 18 {
            Jamo::Bb
        } else if i == 19 {
            Jamo::Bs
        } else if i == 20 {
            Jamo::S
        } else if i == 21 {
            Jamo::Ss
        } else if i == 22 {
            Jamo::Silent
        } else if i == 23 {
            Jamo::J
        } else if i == 24 {
            Jamo::Jj
        } else if i == 25 {
            Jamo::Ch
        } else if i == 26 {
            Jamo::K
        } else if i == 27 {
            Jamo::T
        } else if i == 28 {
            Jamo::P
        } else if i == 29 {
            Jamo::H
        } else if i == 30 {
            Jamo::A
        } else if i == 31 {
            Jamo::Ae
        } else if i == 32 {
            Jamo::Ya
        } else if i == 33 {
            Jamo::Yae
        } else if i == 34 {
            Jamo::Eo
        } else if i == 35 {
            Jamo::E
        } else if i == 36 {
            Jamo::Yeo
        } else if i == 37 {
            Jamo::Ye
        } else if i == 38 {
            Jamo::O
        } else if i == 39 {
            Jamo::Wa
        } else if i == 40 {
            Jamo::Wae
        } else if i == 41 {
            Jamo::Oe
        } else if i == 42 {
            Jamo::Yo
        } else if i == 43 {
            Jamo::U
        } else if i == 44 {
            Jamo::Wo
        } else if i == 45 {
            Jamo::We
        } else if i == 46 {
            Jamo::Wi
        } else if i == 47 {
            Jamo::Yu
        } else if i == 48 {
            Jamo::Eu
        } else if i == 49 {
            Jamo::Ui
        } else if i == 50 {
            Jamo::I
        } else {
            Jamo::G
        }
    }
    /// The letter with the given id.
    pub fn from_id(i: usize) -> (r: Jamo)
        requires
            i < 51,
        ensures
            r.id_spec() == i,
            r == Jamo::from_id_spec(i as nat),
    {
        match i {
            0 => Jamo::G,
            1 => Jamo::Gg,
            2 => Jamo::Gs,
            3 => Jamo::N,
            4 => Jamo::Nc,
            5 => Jamo::Nch,
            6 => Jamo::D,
            7 => Jamo::Dd,
            8 => Jamo::R,
            9 => Jamo::Lg,
            10 => Jamo::Lm,
            11 => Jamo::Lb,
            12 => Jamo::Ls,
            13 => Jamo::Lt,
            14 => Jamo::Lph,
            15 => Jamo::Lh,
            16 => Jamo::M,
            17 => Jamo::B,
            18 => Jamo::Bb,
            19 => Jamo::Bs,
            20 => Jamo::S,
            21 => Jamo::Ss,
            22 => Jamo::Silent,
            23 => Jamo::J,
            24 => Jamo::Jj,
            25 => Jamo::Ch,
            26 => Jamo::K,
            27 => Jamo::T,
            28 => Jamo::P,
            29 => Jamo::H,
            30 => Jamo::A,
            31 => Jamo::Ae,
            32 => Jamo::Ya,
            33 => Jamo::Yae,
            34 => Jamo::Eo,
            35 => Jamo::E,
            36 => Jamo::Yeo,
            37 => Jamo::Ye,
            38 => Jamo::O,
            39 => Jamo::Wa,
            40 => Jamo::Wae,
            41 => Jamo::Oe,
            42 => Jamo::Yo,
            43 => Jamo::U,
            44 => Jamo::Wo,
            45 => Jamo::We,
            46 => Jamo::Wi,
            47 => Jamo::Yu,
            48 => Jamo::Eu,
            49 => Jamo::Ui,
            50 => Jamo::I,
            _ => vstd::pervasive::unreached(),
        }
    }
}

/// Ids are unique within each letter class: equal ids mean equal letters.
pub proof fn lemma_jamo_id_injective()
    ensures
        forall|a: Jamo, b: Jamo| a.id_spec() == b.id_spec() ==> a == b,
{
}

} // verus!
