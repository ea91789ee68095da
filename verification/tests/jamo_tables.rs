use hangul::jamo::{FinalJamo, InitialJamo, Jamo, JamoError, MedialJamo};

#[test]
fn jamo_ids_cover_the_compatibility_block() {
    let all = Jamo::all();
    assert_eq!(all.len(), 51);
    for (i, j) in all.iter().enumerate() {
        assert_eq!(j.id(), i);
    }
}

#[test]
fn narrow_ids_are_block_offsets() {
    assert_eq!(InitialJamo::G.id(), 0);
    assert_eq!(InitialJamo::H.id(), 18);
    assert_eq!(MedialJamo::A.id(), 0);
    assert_eq!(MedialJamo::I.id(), 20);
    // trailing consonants are one-based: id 0 means "no final present"
    assert_eq!(FinalJamo::G.id(), 1);
    assert_eq!(FinalJamo::H.id(), 27);
    assert_eq!(InitialJamo::all().len(), 19);
    assert_eq!(MedialJamo::all().len(), 21);
    assert_eq!(FinalJamo::all().len(), 27);
}

#[test]
fn narrowing_accepts_members_and_rejects_others() {
    assert_eq!(Jamo::G.to_initial(), Ok(InitialJamo::G));
    assert_eq!(Jamo::A.to_medial(), Ok(MedialJamo::A));
    assert_eq!(Jamo::Gs.to_final(), Ok(FinalJamo::Gs));
    // a cluster is never a leading consonant, a vowel never a consonant
    assert_eq!(Jamo::Gs.to_initial(), Err(JamoError::UnexpectedJamo(Jamo::Gs)));
    assert_eq!(Jamo::G.to_medial(), Err(JamoError::UnexpectedJamo(Jamo::G)));
    assert_eq!(Jamo::A.to_final(), Err(JamoError::UnexpectedJamo(Jamo::A)));
    // widening undoes narrowing
    assert_eq!(InitialJamo::Jj.to_jamo(), Jamo::Jj);
    assert_eq!(MedialJamo::Wae.to_jamo(), Jamo::Wae);
    assert_eq!(FinalJamo::Lg.to_jamo(), Jamo::Lg);
}

#[test]
fn combine_follows_the_diphthong_table() {
    assert_eq!(MedialJamo::O.combine(MedialJamo::A), Ok(MedialJamo::Wa));
    assert_eq!(MedialJamo::O.combine(MedialJamo::Ae), Ok(MedialJamo::Wae));
    assert_eq!(MedialJamo::O.combine(MedialJamo::I), Ok(MedialJamo::Oe));
    assert_eq!(MedialJamo::U.combine(MedialJamo::Eo), Ok(MedialJamo::Wo));
    assert_eq!(MedialJamo::U.combine(MedialJamo::E), Ok(MedialJamo::We));
    assert_eq!(MedialJamo::U.combine(MedialJamo::I), Ok(MedialJamo::Wi));
    assert_eq!(MedialJamo::Eu.combine(MedialJamo::I), Ok(MedialJamo::Ui));
    assert_eq!(
        MedialJamo::A.combine(MedialJamo::Ae),
        Err(JamoError::IncompatibleCombine(Jamo::A, Jamo::Ae))
    );
    // a full vowel never combines further
    assert_eq!(
        MedialJamo::Wa.combine(MedialJamo::I),
        Err(JamoError::IncompatibleCombine(Jamo::Wa, Jamo::I))
    );
}

#[test]
fn combine_is_order_independent_for_wide_tall_pairs() {
    let pairs = [
        (MedialJamo::O, MedialJamo::A),
        (MedialJamo::O, MedialJamo::Ae),
        (MedialJamo::O, MedialJamo::I),
        (MedialJamo::U, MedialJamo::Eo),
        (MedialJamo::U, MedialJamo::E),
        (MedialJamo::U, MedialJamo::I),
        (MedialJamo::Eu, MedialJamo::I),
        (MedialJamo::O, MedialJamo::E),
        (MedialJamo::Yo, MedialJamo::A),
    ];
    for (wide, tall) in pairs {
        assert_eq!(wide.combine(tall).ok(), tall.combine(wide).ok());
        assert_eq!(wide.combine(tall).is_err(), tall.combine(wide).is_err());
    }
}

#[test]
fn append_follows_the_cluster_table() {
    assert_eq!(FinalJamo::G.append(FinalJamo::S), Ok(FinalJamo::Gs));
    assert_eq!(FinalJamo::N.append(FinalJamo::J), Ok(FinalJamo::Nc));
    assert_eq!(FinalJamo::N.append(FinalJamo::H), Ok(FinalJamo::Nch));
    assert_eq!(FinalJamo::R.append(FinalJamo::G), Ok(FinalJamo::Lg));
    assert_eq!(FinalJamo::R.append(FinalJamo::M), Ok(FinalJamo::Lm));
    assert_eq!(FinalJamo::R.append(FinalJamo::B), Ok(FinalJamo::Lb));
    assert_eq!(FinalJamo::R.append(FinalJamo::S), Ok(FinalJamo::Ls));
    assert_eq!(FinalJamo::R.append(FinalJamo::T), Ok(FinalJamo::Lt));
    assert_eq!(FinalJamo::R.append(FinalJamo::P), Ok(FinalJamo::Lph));
    assert_eq!(FinalJamo::R.append(FinalJamo::H), Ok(FinalJamo::Lh));
    assert_eq!(FinalJamo::B.append(FinalJamo::S), Ok(FinalJamo::Bs));
    assert_eq!(
        FinalJamo::G.append(FinalJamo::G),
        Err(JamoError::IncompatibleCombine(Jamo::G, Jamo::G))
    );
}

#[test]
fn possible_lists_match_the_tables() {
    assert_eq!(MedialJamo::O.combine_possible(), vec![MedialJamo::A, MedialJamo::Ae, MedialJamo::I]);
    assert_eq!(MedialJamo::Wa.combine_possible(), vec![]);
    assert_eq!(FinalJamo::N.append_possible(), vec![FinalJamo::J, FinalJamo::H]);
    assert_eq!(FinalJamo::Gs.append_possible(), vec![]);
    for m in MedialJamo::all() {
        for v in m.combine_possible() {
            assert!(m.combine(v).is_ok());
        }
    }
    for f in FinalJamo::all() {
        for g in f.append_possible() {
            assert!(f.append(g).is_ok());
        }
    }
}

#[test]
fn components_undo_combining() {
    assert_eq!(MedialJamo::Wa.components(), (MedialJamo::O, Some(MedialJamo::A)));
    assert_eq!(MedialJamo::A.components(), (MedialJamo::A, None));
    assert_eq!(FinalJamo::Lg.components(), (FinalJamo::R, Some(FinalJamo::G)));
    assert_eq!(FinalJamo::N.components(), (FinalJamo::N, None));
    for m in MedialJamo::all() {
        if let (base, Some(add)) = m.components() {
            assert_eq!(base.combine(add), Ok(m));
        }
    }
    for f in FinalJamo::all() {
        if let (base, Some(add)) = f.components() {
            assert_eq!(base.append(add), Ok(f));
        }
    }
}

#[test]
fn aggregate_lists_respect_roles() {
    let both = Jamo::all_multi(true, true, false);
    assert!(both.contains(&Jamo::G));
    assert!(both.contains(&Jamo::A));
    assert!(!both.contains(&Jamo::Gs));
    let finals = Jamo::all_finale();
    assert!(finals.contains(&Jamo::Gs));
    assert!(!finals.contains(&Jamo::Dd));
    let open = Jamo::all_or_possible(false, (true, Some(MedialJamo::A)), (true, None));
    assert!(open.contains(&Jamo::O));
    assert!(!open.contains(&Jamo::U));
    assert!(open.contains(&Jamo::G));
    let fin = Jamo::all_or_possible(false, (false, None), (true, Some(FinalJamo::N)));
    assert_eq!(fin, vec![Jamo::J, Jamo::H]);
}

#[test]
fn glyphs_and_spellings() {
    assert_eq!(Jamo::G.glyph(), '\u{3131}');
    assert_eq!(Jamo::I.glyph(), '\u{3163}');
    assert_eq!(Jamo::G.rr(), "g");
    assert_eq!(Jamo::Silent.rr(), "ng");
    assert_eq!(Jamo::Nch.rr(), "nch");
    assert_eq!(Jamo::Wae.rr(), "wae");
    // spellings are pairwise distinct
    let all = Jamo::all();
    for a in &all {
        for b in &all {
            if a != b {
                assert_ne!(a.rr(), b.rr());
            }
        }
    }
}
