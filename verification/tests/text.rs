use launch::claims::{attach_server, attach_watcher, NameClaim};
use launch::layout::{find_index, LastLayout, LineHit};
use launch::number::{decimal, read_digit, read_signed, read_unsigned, write_number};
use launch::osd::{stack_height, CardBounds, ReportedRegion};
use launch::scrollbar::{ScrollbarAction, ScrollbarState};
use launch::text::{
    chars_of, find_from, is_white_space, lower, same, starts_with, string_between, strip_prefix,
    trim, trim_end, trim_end_of, trim_start,
};
use launch::utf8::{byte_len, char_width};

#[test]
fn numbers_are_written_and_read() {
    assert_eq!(decimal(0), "0");
    assert_eq!(decimal(u64::MAX), "18446744073709551615");
    assert_eq!(write_number(255, 16), "ff");
    assert_eq!(read_digit('f', 16), Some(15));
    assert_eq!(read_digit('F', 16), Some(15));
    assert_eq!(read_digit('8', 8), None);
    assert_eq!(read_unsigned(&chars_of("10FFFF"), 0, 16, 0x10ffff), Some(0x10ffff));
    assert_eq!(read_unsigned(&chars_of("110000"), 0, 16, 0x10ffff), None);
    assert_eq!(read_unsigned(&chars_of(""), 0, 10, 9), None);
    assert_eq!(read_signed(&chars_of("-12")), Some((12, true)));
    assert_eq!(read_signed(&chars_of("+12")), Some((12, false)));
    assert_eq!(read_signed(&chars_of("-")), None);
}

#[test]
fn numbers_read_back() {
    for n in [0u64, 1, 9, 10, 1_700_000_000, u64::MAX] {
        assert_eq!(read_unsigned(&chars_of(&decimal(n)), 0, 10, u64::MAX), Some(n));
    }
}

#[test]
fn strings_are_cut_and_trimmed() {
    assert!(same("é", "é") && !same("a", "b"));
    assert_eq!(trim("\u{a0} a b \n"), "a b");
    assert_eq!(trim_start("  a "), "a ");
    assert_eq!(trim_end("  a "), "  a");
    assert_eq!(trim_end_of(&chars_of("a::"), ':'), 1);
    assert!(starts_with("launch", "lau") && !starts_with("la", "lau"));
    assert_eq!(strip_prefix("file://x", "file://").as_deref(), Some("x"));
    assert_eq!(strip_prefix("x", "file://"), None);
    assert_eq!(string_between(&chars_of("naïve"), 1, 4), "aïv");
    assert_eq!(find_from(&chars_of("a>b>"), 2, '>'), 3);
    assert_eq!(lower('Q'), 'q');
    assert!(is_white_space('\u{2003}') && !is_white_space('x'));
}

#[test]
fn widths_are_those_of_the_encoding() {
    assert_eq!(byte_len("aé€😀"), 10);
    for c in ['a', 'é', '€', '😀'] {
        assert_eq!(char_width(c), c.len_utf8());
    }
}

#[test]
fn only_visible_lines_are_laid_out() {
    let layout = LastLayout { visible_start: 3, visible_end: 5, lines: vec!["a", "b"] };
    assert_eq!(layout.line(2), None);
    assert_eq!(layout.line(3), Some(&"a"));
    assert_eq!(layout.line(4), Some(&"b"));
    assert_eq!(layout.line(5), None);
}

#[test]
fn the_pointer_is_looked_for_line_by_line() {
    let hits = vec![LineHit::Below(4), LineHit::Unlaid { ends: false }, LineHit::At(2)];
    assert_eq!(find_index(&hits, 10, false), 17);
    assert_eq!(find_index(&vec![LineHit::Below(4), LineHit::Above], 10, false), 15);
    assert_eq!(find_index(&vec![LineHit::Unlaid { ends: true }, LineHit::At(2)], 10, false), 10);
    assert_eq!(find_index(&vec![LineHit::At(2)], 10, true), 2);
    assert_eq!(find_index(&Vec::new(), 10, false), 10);
}

#[test]
fn a_thumb_is_dragged_while_it_is_held() {
    let mut bar = ScrollbarState::new();
    assert_eq!(bar.thumb_color(), 0xFFFFFF33);
    assert_eq!(bar.mouse_move(true, false), ScrollbarAction::Repaint);
    assert_eq!(bar.thumb_color(), 0xFFFFFF55);
    assert_eq!(bar.mouse_move(true, false), ScrollbarAction::Nothing);
    assert_eq!(bar.mouse_down(true, true, true, false), ScrollbarAction::Jump);
    assert_eq!(bar.mouse_down(true, false, true, true), ScrollbarAction::Nothing);
    assert_eq!(bar.mouse_down(true, true, true, true), ScrollbarAction::Hold);
    assert_eq!(bar.thumb_color(), 0xFFFFFF77);
    assert!(bar.mouse_move(false, true).stops_propagation());
    assert_eq!(bar.mouse_up(false), ScrollbarAction::Nothing);
    assert_eq!(bar.mouse_up(true), ScrollbarAction::Repaint);
    assert_eq!(bar.mouse_move(false, true), ScrollbarAction::Nothing);
}

#[test]
fn cards_span_a_height() {
    let card = |top: i32, bottom: i32| CardBounds { top, bottom };
    assert_eq!(stack_height(&Vec::new()), None);
    assert_eq!(stack_height(&vec![card(12, 80), card(-4, 10), card(90, 140)]), Some(144));
    let mut reported = ReportedRegion::new();
    assert!(reported.changed(None));
    assert!(!reported.changed(None));
    assert!(reported.changed(Some(144)));
    assert!(!reported.changed(Some(144)));
    assert!(reported.changed(Some(0)));
}

#[test]
fn places_on_the_bus_are_claimed() {
    assert_eq!(attach_watcher(true, NameClaim::PrimaryOwner), Ok(()));
    assert_eq!(attach_watcher(true, NameClaim::Taken("held".to_string())), Ok(()));
    assert_eq!(attach_watcher(true, NameClaim::Failed("no bus".to_string())), Err("no bus".to_string()));
    assert_eq!(
        attach_watcher(false, NameClaim::PrimaryOwner),
        Err("Object already exists at /StatusNotifierWatcher -- is StatusNotifierWatcher already running?".to_string())
    );
    assert_eq!(attach_server(true, NameClaim::PrimaryOwner), Ok(()));
    assert_eq!(
        attach_server(true, NameClaim::AlreadyOwner),
        Err("could not become owner of org.freedesktop.Notifications: AlreadyOwner".to_string())
    );
    assert_eq!(attach_server(true, NameClaim::Taken("held".to_string())), Err("held".to_string()));
    assert_eq!(
        attach_server(false, NameClaim::PrimaryOwner),
        Err("Object already exists at /org/freedesktop/Notifications -- is another notification daemon running?".to_string())
    );
}
