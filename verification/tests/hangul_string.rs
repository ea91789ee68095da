use hangul::hangul::{Hangul, HangulError};
use hangul::jamo::{InitialJamo, Jamo, MedialJamo};
use hangul::syllable::SyllableError;

#[test]
fn push_back_grows_the_last_syllable_and_appends_overflow() {
    let mut h = Hangul::default();
    assert!(h.is_empty());
    h.push_back(Jamo::G).unwrap();
    assert_eq!(h.len(), 1);
    h.push_back(Jamo::A).unwrap();
    assert_eq!(h.len(), 1);
    assert_eq!(h.display_string(), "\u{AC00}");
    // D is absorbed as the final of the open syllable; the next vowel
    // cannot fit and spills into a new syllable
    h.push_back(Jamo::D).unwrap();
    assert_eq!(h.len(), 1);
    h.push_back(Jamo::A).unwrap();
    assert_eq!(h.len(), 2);
    assert_eq!(h.display_string(), "\u{AC07}\u{C544}");
    // an error leaves the string unchanged
    let mut fresh = Hangul::default();
    assert_eq!(
        fresh.push_back(Jamo::Lt),
        Err(HangulError::Syllable(SyllableError::ExpectedInitialOrMedial(Jamo::Lt)))
    );
    assert!(fresh.is_empty());
    let before = h.clone();
    assert_eq!(
        h.break_with(Jamo::Lt),
        Err(HangulError::Syllable(SyllableError::ExpectedInitialOrMedial(Jamo::Lt)))
    );
    assert_eq!(h, before);
}

#[test]
fn vowels_after_full_vowels_open_new_syllables() {
    // A, then O merges into WA; the next O cannot merge and opens 오
    let mut h = Hangul::default();
    h.push_back(Jamo::A).unwrap();
    assert_eq!(h.display_string(), "\u{C544}");
    h.push_back(Jamo::O).unwrap();
    assert_eq!(h.display_string(), "\u{C640}");
    h.push_back(Jamo::O).unwrap();
    assert_eq!(h.len(), 2);
    assert_eq!(h.display_string(), "\u{C640}\u{C624}");
}

#[test]
fn pop_back_undoes_letters_and_drops_emptied_syllables() {
    let mut h = Hangul::default();
    for j in [Jamo::G, Jamo::A, Jamo::G, Jamo::D, Jamo::A] {
        h.push_back(j).unwrap();
    }
    assert_eq!(h.display_string(), "\u{AC01}\u{B2E4}");
    assert_eq!(h.pop_back(), Some(Jamo::A));
    // the emptied second syllable vanishes with the next pop
    assert_eq!(h.pop_back(), Some(Jamo::D));
    assert_eq!(h.len(), 1);
    assert_eq!(h.pop_back(), Some(Jamo::G));
    assert_eq!(h.pop_back(), Some(Jamo::A));
    assert_eq!(h.pop_back(), Some(Jamo::G));
    // the sole remaining syllable stays, empty, for the empty string
    assert_eq!(h.len(), 1);
    assert_eq!(h.display_string(), "");
    assert_eq!(h.pop_back(), None);
}

#[test]
fn break_with_forces_a_boundary() {
    let mut h = Hangul::default();
    h.push_back(Jamo::G).unwrap();
    h.push_back(Jamo::A).unwrap();
    // 가 could still absorb a final G, but the break forces 가가
    h.break_with(Jamo::G).unwrap();
    assert_eq!(h.len(), 2);
    h.push_back(Jamo::A).unwrap();
    assert_eq!(h.display_string(), "\u{AC00}\u{AC00}");
    assert_eq!(
        h.break_with(Jamo::Gs),
        Err(HangulError::Syllable(SyllableError::ExpectedInitialOrMedial(Jamo::Gs)))
    );
}

#[test]
fn display_round_trips_through_from_display() {
    let mut h = Hangul::default();
    for j in [Jamo::D, Jamo::A, Jamo::R, Jamo::G, Jamo::G, Jamo::Wa] {
        h.push_back(j).unwrap();
    }
    let text = h.display_string();
    let back = Hangul::from_display(text.as_str()).unwrap();
    assert_eq!(back, h);
    // a bare-initial last syllable round-trips through its glyph
    let mut h = Hangul::default();
    h.push_back(Jamo::G).unwrap();
    h.push_back(Jamo::A).unwrap();
    h.break_with(Jamo::D).unwrap();
    let text = h.display_string();
    assert_eq!(text, "\u{AC00}\u{3137}");
    assert_eq!(Hangul::from_display(text.as_str()).unwrap(), h);
    // a character outside the block has no reading
    assert_eq!(Hangul::from_display("ab"), None);
}

#[test]
fn syllable_accessors() {
    let mut h = Hangul::default();
    h.push_back(Jamo::A).unwrap();
    assert_eq!(h.syllable_at(0).initial(), Some(InitialJamo::Silent));
    assert_eq!(h.syllable_at(0).medial(), Some(MedialJamo::A));
    assert_eq!(h.syllables().len(), 1);
    h.clear();
    assert!(h.is_empty());
}
