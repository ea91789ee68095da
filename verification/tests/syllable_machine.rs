use hangul::jamo::{FinalJamo, InitialJamo, Jamo, JamoError, MedialJamo};
use hangul::syllable::{State, Syllable, SyllableError};

fn composed(i: InitialJamo, m: MedialJamo, f: Option<FinalJamo>) -> Syllable {
    Syllable { initial: Some(i), medial: Some(m), finale: f }
}

#[test]
fn codepoint_formula_over_the_full_cross_product() {
    for i in InitialJamo::all() {
        for m in MedialJamo::all() {
            let bare = composed(i, m, None);
            let c = bare.display_char().unwrap();
            assert_eq!(c as u32, 0xAC00 + (i.id() as u32) * 588 + (m.id() as u32) * 28);
            for f in FinalJamo::all() {
                let full = composed(i, m, Some(f));
                let c = full.display_char().unwrap();
                let expected =
                    0xAC00 + (i.id() as u32) * 588 + (m.id() as u32) * 28 + f.id() as u32;
                assert_eq!(c as u32, expected);
                assert!(expected < 0xD7A4);
            }
        }
    }
}

#[test]
fn pushing_g_a_g_displays_the_growing_block() {
    let mut syl = Syllable::default();
    assert_eq!(syl.push(Jamo::G), Ok(None));
    assert_eq!(syl.display_char(), Some('\u{3131}'));
    assert_eq!(syl.push(Jamo::A), Ok(None));
    assert_eq!(syl.display_char(), Some('\u{AC00}'));
    assert_eq!(syl.push(Jamo::G), Ok(None));
    assert_eq!(syl.display_char(), Some('\u{AC01}'));
    assert_eq!(syl.finale(), Some(FinalJamo::G));
}

#[test]
fn vowel_only_syllables_take_the_silent_initial() {
    let mut syl = Syllable::default();
    assert_eq!(syl.push(Jamo::A), Ok(None));
    assert_eq!(syl.initial(), Some(InitialJamo::Silent));
    assert_eq!(syl.medial(), Some(MedialJamo::A));
    // 아
    assert_eq!(syl.display_char(), Some('\u{C544}'));
    // the combination table merges A with O into WA: 와
    assert_eq!(syl.push(Jamo::O), Ok(None));
    assert_eq!(syl.medial(), Some(MedialJamo::Wa));
    assert_eq!(syl.display_char(), Some('\u{C640}'));
    // a full vowel accepts no further vowel: the third O overflows
    let overflow = syl.push(Jamo::O).unwrap().unwrap();
    assert_eq!(overflow.initial(), Some(InitialJamo::Silent));
    assert_eq!(overflow.medial(), Some(MedialJamo::O));
    assert_eq!(syl.medial(), Some(MedialJamo::Wa));
}

#[test]
fn push_rejects_letters_that_cannot_start_a_syllable() {
    let mut syl = Syllable::default();
    assert_eq!(
        syl.push(Jamo::Gs),
        Err(SyllableError::ExpectedInitialOrMedial(Jamo::Gs))
    );
    assert!(syl.is_empty());
    syl.push(Jamo::G).unwrap();
    assert_eq!(syl.push(Jamo::D), Err(SyllableError::ExpectedMedial(Jamo::D)));
    assert_eq!(syl.initial(), Some(InitialJamo::G));
}

#[test]
fn incompatible_final_without_initial_reading_is_an_error() {
    // 간 + Gs: N·GS is no cluster, and GS cannot lead a syllable either
    let mut syl = composed(InitialJamo::G, MedialJamo::A, Some(FinalJamo::N));
    assert_eq!(
        syl.push(Jamo::Gs),
        Err(SyllableError::Jamo(JamoError::IncompatibleCombine(Jamo::N, Jamo::Gs)))
    );
    assert_eq!(syl.finale(), Some(FinalJamo::N));
    // 각 + Gg: G·GG is no cluster, but GG leads the next syllable
    let mut syl = composed(InitialJamo::G, MedialJamo::A, Some(FinalJamo::G));
    let overflow = syl.push(Jamo::Gg).unwrap().unwrap();
    assert_eq!(overflow.initial(), Some(InitialJamo::Gg));
    assert_eq!(syl.finale(), Some(FinalJamo::G));
    // after G+S the final is the cluster GS
    let mut syl = composed(InitialJamo::G, MedialJamo::A, Some(FinalJamo::G));
    assert_eq!(syl.push(Jamo::S), Ok(None));
    assert_eq!(syl.finale(), Some(FinalJamo::Gs));
}

#[test]
fn overflow_rather_than_error_on_unabsorbable_starters() {
    // in the end state, an initial seeds the next syllable
    let mut syl = composed(InitialJamo::G, MedialJamo::Wa, Some(FinalJamo::Gs));
    assert_eq!(syl.state(), State::End);
    let overflow = syl.push(Jamo::D).unwrap().unwrap();
    assert_eq!(overflow.initial(), Some(InitialJamo::D));
    // but a cluster-only consonant cannot start anything
    assert_eq!(
        syl.push(Jamo::Gs),
        Err(SyllableError::ExpectedInitialOrMedial(Jamo::Gs))
    );
}

#[test]
fn every_possible_letter_is_absorbed_in_place() {
    let states = [
        Syllable::default(),
        Syllable { initial: Some(InitialJamo::G), medial: None, finale: None },
        composed(InitialJamo::G, MedialJamo::A, None),
        composed(InitialJamo::G, MedialJamo::Wa, None),
        composed(InitialJamo::G, MedialJamo::A, Some(FinalJamo::N)),
        composed(InitialJamo::G, MedialJamo::A, Some(FinalJamo::Gs)),
    ];
    for base in states {
        for j in base.possible() {
            let mut syl = base;
            assert_eq!(syl.push(j), Ok(None), "possible letter must be absorbed");
        }
    }
    // the end state accepts nothing in place
    let done = composed(InitialJamo::G, MedialJamo::Wa, Some(FinalJamo::Gs));
    assert_eq!(done.state(), State::End);
    assert!(done.possible().is_empty());
}

#[test]
fn pop_and_push_round_trip() {
    // 닭: D + A + LG, popped down to empty and rebuilt
    let full = composed(InitialJamo::D, MedialJamo::A, Some(FinalJamo::Lg));
    let mut syl = full;
    let mut popped = Vec::new();
    while let Some(j) = syl.pop() {
        popped.push(j);
    }
    assert!(syl.is_empty());
    assert_eq!(popped, vec![Jamo::G, Jamo::R, Jamo::A, Jamo::D]);
    let mut rebuilt = Syllable::default();
    for j in popped.iter().rev() {
        assert_eq!(rebuilt.push(*j), Ok(None));
    }
    assert_eq!(rebuilt, full);
    // a diphthong gives its tall part back first: 과 pops A, then O, then G
    let mut syl = composed(InitialJamo::G, MedialJamo::Wa, None);
    assert_eq!(syl.pop(), Some(Jamo::A));
    assert_eq!(syl.medial(), Some(MedialJamo::O));
    assert_eq!(syl.pop(), Some(Jamo::O));
    assert_eq!(syl.pop(), Some(Jamo::G));
    assert_eq!(syl.pop(), None);
}

#[test]
fn round_trip_for_every_two_letter_block() {
    for i in InitialJamo::all() {
        for m in MedialJamo::all() {
            let full = composed(i, m, None);
            let mut syl = full;
            let mut popped = Vec::new();
            while let Some(j) = syl.pop() {
                popped.push(j);
            }
            let mut rebuilt = Syllable::default();
            for j in popped.iter().rev() {
                assert_eq!(rebuilt.push(*j), Ok(None));
            }
            assert_eq!(rebuilt, full);
        }
    }
}

#[test]
fn from_char_reads_displayed_characters_back() {
    // 각
    let syl = Syllable::from_char('\u{AC01}').unwrap();
    assert_eq!(syl, composed(InitialJamo::G, MedialJamo::A, Some(FinalJamo::G)));
    // 아
    let syl = Syllable::from_char('\u{C544}').unwrap();
    assert_eq!(syl, composed(InitialJamo::Silent, MedialJamo::A, None));
    // bare ㄱ glyph
    let syl = Syllable::from_char('\u{3131}').unwrap();
    assert_eq!(syl, Syllable { initial: Some(InitialJamo::G), medial: None, finale: None });
    // an ordinary letter has no reading
    assert_eq!(Syllable::from_char('x'), None);
    // display then read back, over the full cross product
    for i in InitialJamo::all() {
        for m in MedialJamo::all() {
            for f in [None, Some(FinalJamo::Nch), Some(FinalJamo::H)] {
                let syl = composed(i, m, f);
                let c = syl.display_char().unwrap();
                assert_eq!(Syllable::from_char(c), Some(syl));
            }
        }
    }
}

#[test]
fn from_jamo_seeds_a_syllable() {
    assert_eq!(
        Syllable::from_jamo(Jamo::G),
        Ok(Syllable { initial: Some(InitialJamo::G), medial: None, finale: None })
    );
    assert_eq!(
        Syllable::from_jamo(Jamo::A),
        Ok(composed(InitialJamo::Silent, MedialJamo::A, None))
    );
    assert_eq!(
        Syllable::from_jamo(Jamo::Gs),
        Err(SyllableError::ExpectedInitialOrMedial(Jamo::Gs))
    );
}

#[test]
fn display_of_the_empty_syllable_is_nothing() {
    let syl = Syllable::default();
    assert_eq!(syl.display_char(), None);
    assert_eq!(syl.display_string(), "");
    assert_eq!(syl.state(), State::Start);
}

#[test]
fn sort_keys_follow_the_displayed_characters() {
    let empty = Syllable::default();
    let bare_g = Syllable { initial: Some(InitialJamo::G), medial: None, finale: None };
    let bare_h = Syllable { initial: Some(InitialJamo::H), medial: None, finale: None };
    let ga = composed(InitialJamo::G, MedialJamo::A, None);
    let gak = composed(InitialJamo::G, MedialJamo::A, Some(FinalJamo::G));
    let hih = composed(InitialJamo::H, MedialJamo::I, Some(FinalJamo::H));
    assert!(empty.sort_key() < bare_g.sort_key());
    assert!(bare_g.sort_key() < bare_h.sort_key());
    assert!(bare_h.sort_key() < ga.sort_key());
    assert!(ga.sort_key() < gak.sort_key());
    assert!(gak.sort_key() < hih.sort_key());
    assert_eq!(ga.sort_key(), 0xAC00);
    // 힣, the last block
    assert_eq!(hih.sort_key(), 0xD7A3);
    let mut h = hangul::hangul::Hangul::default();
    h.push_back(Jamo::G).unwrap();
    h.push_back(Jamo::A).unwrap();
    assert_eq!(h.sort_key(), vec![0xAC00]);
}
