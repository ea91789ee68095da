use hangul::elements::{HangulInput, HangulResult, JamoInfo, PossibleInfo};
use hangul::jamo::Jamo;
use hangul::syllable::Syllable;
use hangul::tui::button::Button;
use hangul::tui::code::{Key, TerminalCode};
use hangul::tui::ext::{gt_iu, lt_iu, range_with_mid, saturate_range};
use hangul::tui::line_horizontal::LineHorizontal;
use hangul::tui::line_vertical::LineVertical;
use hangul::tui::rectangle::Rectangle;
use hangul::tui::text_line::TextLine;

#[test]
fn range_with_mid_centers_the_window() {
    let r = range_with_mid(35, 7);
    assert_eq!((r.start, r.end), (32, 39));
    let r = range_with_mid(35, 8);
    assert_eq!((r.start, r.end), (32, 40));
    let r = range_with_mid(5, 0);
    assert_eq!((r.start, r.end), (5, 5));
}

#[test]
fn saturate_range_clamps_into_the_domain() {
    let r = saturate_range(-4..12, 0..24);
    assert_eq!((r.start, r.end), (0, 16));
    let r = saturate_range(10..26, 0..24);
    assert_eq!((r.start, r.end), (8, 24));
    let r = saturate_range(5..21, 0..24);
    assert_eq!((r.start, r.end), (5, 21));
    assert!(lt_iu(-1, 0));
    assert!(!lt_iu(3, 3));
    assert!(gt_iu(4, 3));
    assert!(!gt_iu(3, 3));
}

#[test]
fn text_line_edits_at_the_cursor() {
    let mut line = TextLine::default().with_width(16);
    for c in "hello".chars() {
        assert_eq!(line.feed(Key::Char(c)), TerminalCode::Idle);
    }
    assert_eq!(line.value(), "hello");
    assert_eq!(line.char_count(), 5);
    assert_eq!(line.feed(Key::Left), TerminalCode::Idle);
    assert_eq!(line.feed(Key::Char('!')), TerminalCode::Idle);
    assert_eq!(line.value(), "hell!o");
    assert_eq!(line.feed(Key::Backspace), TerminalCode::Idle);
    assert_eq!(line.value(), "hello");
    assert_eq!(line.feed(Key::Other), TerminalCode::UnhandledKey(Key::Other));
    line.clear();
    assert_eq!(line.value(), "");
    // backspace at the start is handed back
    assert_eq!(line.feed(Key::Backspace), TerminalCode::UnhandledKey(Key::Backspace));
}

#[test]
fn text_line_windows_follow_the_cursor() {
    let value = "abcdefghijklmnopqrstuvwx";
    let line = TextLine::default().with_width(16).with_value(String::from(value));
    let line = line.with_index(3);
    assert_eq!(line.rel_line(0).unwrap(), "abcdefghijklmno\u{2026}");
    assert!(!line.prefix_overflow());
    let line = line.with_index(12);
    assert_eq!(line.rel_line(0).unwrap(), "\u{2026}ghijklmnopqrst\u{2026}");
    assert!(line.prefix_overflow());
    let line = line.with_index(17);
    assert_eq!(line.rel_line(0).unwrap(), "\u{2026}jklmnopqrstuvwx");
    assert_eq!(line.rel_line(1), None);
    // a short value shows whole
    let line = TextLine::default().with_width(16).with_value(String::from("abc"));
    assert_eq!(line.rel_line(0).unwrap(), "abc");
    assert_eq!(line.rel_cursor_pos(), Some((3, 0)));
}

#[test]
fn simple_blocks_draw_their_rows() {
    let v = LineVertical::default().with_x(2).with_line_start(1).with_length(3);
    assert_eq!(v.rel_line(0).unwrap(), "+");
    assert_eq!(v.rel_line(1).unwrap(), "\u{2502}");
    assert_eq!(v.rel_line(2).unwrap(), "+");
    assert_eq!(v.rel_line(3), None);
    assert_eq!(v.pos(), (2, 1, 0));

    let hl = LineHorizontal::default().with_y(4).with_line_start(0).with_length(5);
    assert_eq!(hl.rel_line(0).unwrap(), "+\u{2015}\u{2015}\u{2015}+");
    assert_eq!(hl.rel_line(1), None);

    let rect = Rectangle::new((0, 0, 0), (4, 3), true);
    assert_eq!(rect.rel_line(0).unwrap(), "+\u{2015}\u{2015}+");
    assert_eq!(rect.rel_line(1).unwrap(), "\u{2502}  \u{2502}");
    assert_eq!(rect.rel_line(2).unwrap(), "+\u{2015}\u{2015}+");
    assert_eq!(rect.rel_line(3), None);
    let blank = Rectangle::new((0, 0, 0), (3, 2), false);
    assert_eq!(blank.rel_line(0).unwrap(), "   ");
    assert_eq!(blank.rel_line(2), None);
}

#[test]
fn buttons_pad_their_label_and_report_activation() {
    let b = Button::new((0, 0, 0), String::from("ok"), 8, 2);
    let row = b.rel_line(0).unwrap();
    assert_eq!(row, "  ok  ");
    assert_eq!(b.rel_line(1), None);
    assert!(Button::activates(Key::Enter));
    assert!(!Button::activates(Key::Char('x')));
    let mut b = b;
    b.focus();
    assert!(b.focused);
    b.unfocus();
    assert!(!b.focused);
}

#[test]
fn info_panels_list_combinations() {
    let info = PossibleInfo::new((0, 0, 0));
    // 간: the final N can still grow with J or H
    let mut syl = Syllable::default();
    syl.push(Jamo::G).unwrap();
    syl.push(Jamo::A).unwrap();
    syl.push(Jamo::N).unwrap();
    assert_eq!(info.rel_line(0, &syl).unwrap(), "Combinations:");
    assert_eq!(info.rel_line(1, &syl).unwrap(), "\u{3148}  \u{314E}  ");
    assert_eq!(info.rel_line(2, &syl).unwrap(), "j   h   ");
    assert_eq!(info.rel_line(3, &syl), None);
    // 가: the vowel A still combines with O
    let mut syl = Syllable::default();
    syl.push(Jamo::G).unwrap();
    syl.push(Jamo::A).unwrap();
    assert_eq!(info.rel_line(1, &syl).unwrap(), "\u{3157}  ");
    assert_eq!(info.rel_line(2, &syl).unwrap(), "o   ");

    let legend = JamoInfo::new((0, 0, 0));
    for i in 0..15 {
        assert!(legend.rel_line(i).is_some());
    }
    assert!(legend.rel_line(15).is_none());
}

#[test]
fn hangul_result_collects_parsed_syllables() {
    let mut res = HangulResult::new((0, 0, 0));
    assert!(res.is_empty());
    res.set_rr("gan");
    assert_eq!(res.syllable().display_char(), Some('\u{AC04}'));
    assert_eq!(res.overflow(), "");
    res.push();
    assert!(!res.is_empty());
    res.set_rr("gada");
    assert_eq!(res.syllable().display_char(), Some('\u{AC07}'));
    assert_eq!(res.overflow(), "a");
    assert_eq!(res.rel_line(0).unwrap(), "\u{AC04}\u{AC07}");
    res.clear();
    assert!(res.is_empty());
    assert_eq!(res.rel_line(0).unwrap(), "");
}

#[test]
fn hangul_input_types_commits_and_undoes() {
    let mut input = HangulInput::new((0, 0, 0), 20);
    for c in "gan".chars() {
        assert_eq!(input.feed(Key::Char(c)), TerminalCode::Idle);
    }
    assert_eq!(input.syllable().display_char(), Some('\u{AC04}'));
    // enter commits the syllable and restarts from the empty overflow
    assert_eq!(input.feed(Key::Enter), TerminalCode::Idle);
    assert_eq!(input.str.len(), 1);
    assert_eq!(input.rel_line(0).unwrap(), "\u{AC04}");
    // typing past one syllable keeps the overflow for the next
    for c in "gada".chars() {
        input.feed(Key::Char(c));
    }
    assert_eq!(input.syllable().display_char(), Some('\u{AC07}'));
    assert_eq!(input.overflow, "a");
    // backspace with an empty line drops the last committed syllable
    let mut fresh = HangulInput::new((0, 0, 0), 20);
    fresh.feed(Key::Char('g'));
    fresh.feed(Key::Char('a'));
    fresh.feed(Key::Enter);
    fresh.feed(Key::Backspace);
    assert_eq!(fresh.str.len(), 0);
    assert_eq!(fresh.feed(Key::Backspace), TerminalCode::UnhandledKey(Key::Backspace));
}
