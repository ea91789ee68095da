use hangul::hangul::Hangul;
use hangul::hangul_parser::HangulParser;
use hangul::jamo::Jamo;
use hangul::parser::Parser;

#[test]
fn every_table_spelling_parses_to_its_letter() {
    let parser = HangulParser::new();
    for j in Jamo::all() {
        let (matched, had_break, rest) = parser.parse_jamo(j.rr());
        assert_eq!(matched, Some(j), "spelling {:?}", j.rr());
        assert!(!had_break);
        assert_eq!(rest, "");
    }
}

#[test]
fn longest_match_wins() {
    let parser = HangulParser::new();
    let (matched, _, rest) = parser.parse_jamo("ggwae");
    assert_eq!(matched, Some(Jamo::Gg));
    assert_eq!(rest, "wae");
    let (matched, _, rest) = parser.parse_jamo(rest);
    assert_eq!(matched, Some(Jamo::Wae));
    assert_eq!(rest, "");
    // "nch" beats "nc" beats "n"
    let (matched, _, rest) = parser.parse_jamo("nch");
    assert_eq!(matched, Some(Jamo::Nch));
    assert_eq!(rest, "");
}

#[test]
fn parse_token_composes_the_double_consonant_diphthong_block() {
    let parser = HangulParser::new();
    let mut h = Hangul::default();
    let rest = parser.parse_token(&mut h, "ggwae").unwrap();
    assert_eq!(rest, "wae");
    let rest = parser.parse_token(&mut h, rest).unwrap();
    assert_eq!(rest, "");
    // 꽤: GG + WAE via the direct table entry, not runtime combination
    assert_eq!(h.display_string(), "\u{AF64}");
    assert_eq!(h.len(), 1);
}

#[test]
fn breaks_force_syllable_boundaries() {
    let parser = HangulParser::new();
    let mut h = Hangul::default();
    let rest = parser.parse(&mut h, "gyaed-danjja").unwrap();
    assert_eq!(rest, "");
    // 걛 단 짜: the hyphen splits D off into a fresh syllable
    assert_eq!(h.len(), 3);
    assert_eq!(h.display_string(), "\u{AC5B}\u{B2E8}\u{C9DC}");
    // spaces break too
    let mut h = Hangul::default();
    parser.parse(&mut h, "ga ga").unwrap();
    assert_eq!(h.display_string(), "\u{AC00}\u{AC00}");
}

#[test]
fn unmatched_runs_are_skipped_silently() {
    let parser = HangulParser::new();
    let mut h = Hangul::default();
    // 'x' spells nothing; parsing stops there without an error
    let rest = parser.parse(&mut h, "gaxga").unwrap();
    assert_eq!(rest, "xga");
    assert_eq!(h.display_string(), "\u{AC00}");
    // an empty input parses to nothing
    let mut h = Hangul::default();
    let rest = parser.parse(&mut h, "").unwrap();
    assert_eq!(rest, "");
    assert!(h.is_empty());
}

#[test]
fn parse_syllable_stops_at_the_first_overflow() {
    let parser = HangulParser::new();
    let (syl, rest) = parser.parse_syllable("gan");
    assert_eq!(syl.display_char(), Some('\u{AC04}'));
    assert_eq!(rest, "");
    // the D of "gada" is absorbed as a final; the second A would
    // overflow, so it stays unconsumed
    let (syl, rest) = parser.parse_syllable("gada");
    assert_eq!(syl.display_char(), Some('\u{AC07}'));
    assert_eq!(rest, "a");
    // an unmatched run stops the syllable too
    let (syl, rest) = parser.parse_syllable("gax");
    assert_eq!(syl.display_char(), Some('\u{AC00}'));
    assert_eq!(rest, "x");
}

#[test]
fn with_prefix_lists_reachable_spellings() {
    let parser = HangulParser::new();
    let mut hits = parser.with_prefix("w");
    hits.sort();
    let spellings: Vec<&str> = hits.iter().map(|(s, _)| s.as_str()).collect();
    assert_eq!(spellings, vec!["wa", "wae", "we", "wi", "wo"]);
    for (s, j) in &hits {
        assert_eq!(j.rr(), s.as_str());
    }
    assert!(parser.with_prefix("zzz").is_empty());
}

#[test]
fn the_compact_parser_matches_the_tokenizer() {
    let parser = Parser::new();
    let mut h = Hangul::default();
    let rest = parser.parse(&mut h, "han-geur").unwrap();
    assert_eq!(rest, "");
    // 한글
    assert_eq!(h.display_string(), "\u{D55C}\u{AE00}");
    let mut hints = parser.with_prefix("w");
    hints.sort();
    assert_eq!(hints, vec![Jamo::Wa, Jamo::Wae, Jamo::Wo, Jamo::We, Jamo::Wi]);
}
