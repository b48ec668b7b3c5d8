use launch::history::{Change, History};
use launch::input::{InputMode, InputState, Selection, Surroundings};
use launch::layout::{line_and_position_for_offset, offsets_in_lines, LineHit};
use launch::position::{
    clip_to_left, clip_to_right, offset_from_utf16, offset_to_utf16, read_char_at,
};

const HERE: Surroundings = Surroundings { valid: true, now: 0, lines: 1 };

fn at(now: u64) -> Surroundings {
    Surroundings { now, ..HERE }
}

fn field(text: &str) -> InputState {
    let mut field = InputState::new().default_value(text);
    field.move_to(text.len());
    field
}

fn lines(text: &str) -> InputState {
    let mut field = InputState::new().multi_line().default_value(text);
    field.move_to(text.len());
    field
}

#[test]
fn offsets_are_converted() {
    let text: Vec<char> = "aé😀b".chars().collect();
    assert_eq!(offset_to_utf16(&text, 7), 4);
    assert_eq!(offset_from_utf16(&text, 4), 7);
    // Within a character, the offset before it is meant.
    assert_eq!(offset_from_utf16(&text, 3), 3);
    assert_eq!(clip_to_left(&text, 5), 3);
    assert_eq!(clip_to_right(&text, 5), 7);
    assert_eq!(read_char_at(&text, 3), Some('😀'));
    assert_eq!(read_char_at(&text, 8), None);
}

#[test]
fn typing_replaces_what_is_selected() {
    let mut input = field("hello");
    assert!(input.replace_text_in_range(None, " there", HERE));
    assert_eq!(input.value(), "hello there");
    assert_eq!(input.cursor(), 11);
    input.select_all();
    assert_eq!(input.selected_text(), "hello there");
    input.replace("é", HERE);
    assert_eq!(input.value(), "é");
    assert_eq!(input.selection(), Selection { start: 2, end: 2 });
    input.move_to(0);
    input.insert("x", HERE);
    assert_eq!(input.value(), "xé");
    assert_eq!(input.cursor(), 1);
    assert!(input.replace_text_in_range(Some((1, 2)), "y", HERE));
    assert_eq!(input.value(), "xy");
}

#[test]
fn refused_text_changes_nothing() {
    let mut input = field("12");
    assert_eq!(input.to_validate(None, "x").as_deref(), Some("12x"));
    let refused = Surroundings { valid: false, ..HERE };
    assert!(!input.replace_text_in_range(None, "x", refused));
    assert_eq!(input.value(), "12");
    // An empty text is always fine.
    input.select_all();
    assert!(input.to_validate(None, "").is_none());
    assert!(input.backspace(refused));
    assert_eq!(input.value(), "");
    let mut input = field("12").disabled(true);
    assert!(!input.replace_text_in_range(None, "x", HERE));
    assert_eq!(input.value(), "12");
}

#[test]
fn characters_are_deleted_whole() {
    let mut input = field("a😀");
    assert!(input.backspace(HERE));
    assert_eq!(input.value(), "a");
    let mut input = field("😀a");
    input.move_to(0);
    assert!(input.delete(HERE));
    assert_eq!(input.value(), "a");
}

#[test]
fn words_are_deleted() {
    let mut input = field("one two  ");
    assert_eq!(input.previous_start_of_word(), 4);
    assert!(input.delete_previous_word(HERE));
    assert_eq!(input.value(), "one ");
    input.move_to(0);
    assert_eq!(input.next_end_of_word(), 3);
    assert!(input.delete_next_word(HERE));
    assert_eq!(input.value(), " ");
}

#[test]
fn lines_are_deleted() {
    let mut input = lines("one\ntwo\nthree");
    input.move_to(5);
    assert_eq!((input.start_of_line(), input.end_of_line()), (4, 7));
    assert!(input.delete_to_end_of_line(HERE));
    assert_eq!(input.value(), "one\nt\nthree");
    assert!(input.delete_to_beginning_of_line(HERE));
    assert_eq!(input.value(), "one\n\nthree");
    // At the start of a line, its line break goes.
    assert!(input.delete_to_beginning_of_line(HERE));
    assert_eq!(input.value(), "one\nthree");
    let mut input = field("a\nb");
    assert_eq!((input.start_of_line(), input.end_of_line()), (0, 3));
    assert!(!input.enter(HERE) || input.value() == "a\nb");
}

#[test]
fn selections_follow_the_cursor() {
    let mut input = field("hello");
    input.select_left();
    input.select_left();
    assert_eq!(input.selection(), Selection { start: 3, end: 5 });
    assert_eq!(input.cursor(), 3);
    input.select_right();
    assert_eq!(input.copy().as_deref(), Some("o"));
    input.unselect();
    assert_eq!(input.copy(), None);
    input.select_to_start();
    assert_eq!(input.selected_text(), "hell");
    input.select_to_end();
    assert_eq!(input.selected_text(), "o");
    assert_eq!(input.cut(HERE).as_deref(), Some("o"));
    assert_eq!(input.value(), "hell");
    assert_eq!(input.cut(HERE), None);
}

#[test]
fn pasted_text_fits_the_field() {
    let mut input = field("");
    input.paste("a\nb", HERE);
    assert_eq!(input.value(), "ab");
    let mut input = lines("");
    input.paste("a\nb", HERE);
    assert_eq!(input.value(), "a\nb");
}

#[test]
fn setting_a_value_leaves_no_trace() {
    let mut input = field("old").disabled(true);
    input.set_value("new", HERE);
    assert_eq!(input.value(), "new");
    assert_eq!(input.selection(), Selection { start: 0, end: 0 });
    input.undo(&Vec::new(), HERE);
    assert_eq!(input.value(), "new");
}

#[test]
fn changes_are_undone_and_redone() {
    let mut input = field("");
    input.replace_text_in_range(None, "a", at(0));
    input.replace_text_in_range(None, "b", at(5000));
    input.replace_text_in_range(None, "c", at(10_000));
    assert_eq!(input.value(), "abc");
    input.undo(&Vec::new(), at(10_001));
    assert_eq!(input.value(), "ab");
    input.undo(&Vec::new(), at(10_001));
    assert_eq!(input.value(), "a");
    input.redo(&Vec::new(), at(10_001));
    assert_eq!(input.value(), "ab");
    input.redo(&Vec::new(), at(10_001));
    assert_eq!(input.value(), "abc");
    input.redo(&Vec::new(), at(10_001));
    assert_eq!(input.value(), "abc");
}

#[test]
fn quick_changes_are_undone_together() {
    let mut input = field("");
    input.replace_text_in_range(None, "a", at(5000));
    input.replace_text_in_range(None, "b", at(5100));
    input.undo(&Vec::new(), at(6000));
    assert_eq!(input.value(), "");
    input.redo(&Vec::new(), at(6000));
    assert_eq!(input.value(), "ab");
}

#[test]
fn each_change_of_a_group_is_judged_on_its_own() {
    let mut input = field("");
    for (i, letter) in ["a", "b", "c"].into_iter().enumerate() {
        input.replace_text_in_range(None, letter, at(5000 + i as u64));
    }
    let valid = |text: &str| text != "ab";
    let mut verdicts = Vec::new();
    let mut asked = Vec::new();
    while let Some(text) = input.undo_to_validate(&verdicts, at(6000)) {
        verdicts.push(valid(&text));
        asked.push(text);
    }
    // Without the `c` the text is refused, so the `b` is taken out from before it.
    assert_eq!(asked, vec!["ab", "ac", "c"]);
    assert_eq!(verdicts, vec![false, true, true]);
    input.undo(&verdicts, at(6000));
    assert_eq!(input.value(), "c");

    let mut verdicts = Vec::new();
    let mut asked = Vec::new();
    while let Some(text) = input.redo_to_validate(&verdicts, at(6000)) {
        verdicts.push(text != "abc");
        asked.push(text);
    }
    assert_eq!(asked, vec!["ac", "abc", "acc"]);
    input.redo(&verdicts, at(6000));
    assert_eq!(input.value(), "acc");
    assert_eq!(input.redo_to_validate(&Vec::new(), at(6000)), None);
}

#[test]
fn a_history_forgets_what_was_undone() {
    let change = |text: &str| Change {
        start: 0,
        old_end: 0,
        old_text: String::new(),
        new_end: text.len(),
        new_text: text.to_string(),
        version: 0,
    };
    let mut history = History::new();
    assert!(history.undo().is_empty());
    history.push(change("a"), 0);
    history.push(change("b"), 9000);
    assert_eq!(history.undo().len(), 1);
    history.push(change("c"), 18_000);
    assert!(history.redo().is_empty());
    history.set_ignore(true);
    assert!(history.is_ignoring());
}

#[test]
fn composed_text_is_marked() {
    let mut input = field("ab");
    input.move_to(1);
    assert!(input.replace_and_mark_text_in_range(None, "ni", None, HERE));
    assert_eq!(input.value(), "anib");
    assert_eq!(input.marked_text_range(), Some((1, 3)));
    assert!(input.replace_and_mark_text_in_range(None, "你", None, HERE));
    assert_eq!(input.value(), "a你b");
    assert_eq!(input.marked(), Some(Selection { start: 1, end: 4 }));
    assert!(input.replace_text_in_range(None, "你", HERE));
    assert_eq!(input.marked(), None);
    assert_eq!(input.selected_text_range(), (2, 2));
    input.unmark_text();
    assert_eq!(input.text_for_range((1, 2)), ("你".to_string(), (1, 2)));
}

#[test]
fn escape_cleans_where_asked() {
    let mut input = field("text");
    assert!(input.escape(HERE));
    assert_eq!(input.value(), "text");
    let mut input = field("text").clean_on_escape();
    assert!(!input.escape(HERE));
    assert_eq!(input.value(), "");
}

#[test]
fn enter_breaks_lines() {
    let mut input = lines("ab");
    input.move_to(1);
    assert!(!input.enter(HERE));
    assert_eq!(input.value(), "a\nb");
    let mut input = field("ab");
    assert!(input.enter(HERE));
    assert_eq!(input.value(), "ab");
}

#[test]
fn double_clicks_select_words() {
    let mut input = field("say héllo_1, you");
    input.on_mouse_down(6, true, false);
    assert_eq!(input.selected_text(), "héllo_1");
    // Dragging keeps the word.
    input.on_drag_move(2, true, true);
    assert_eq!(input.selected_text(), "y héllo_1");
    input.on_mouse_up();
    input.on_drag_move(0, true, true);
    assert_eq!(input.selected_text(), "y héllo_1");
    input.on_mouse_down(3, false, false);
    assert_eq!(input.selection(), Selection { start: 3, end: 3 });
    input.on_mouse_down(0, false, true);
    assert_eq!(input.selected_text(), "say");
}

#[test]
fn masked_text_is_drawn_in_dots() {
    let input = field("aé😀").masked(true);
    assert_eq!(input.offset_for_index(6), 3);
    assert_eq!(input.offset_for_index(99), 7);
    assert_eq!(field("abc").offset_for_index(99), 3);
    let hits = vec![LineHit::At(6)];
    assert_eq!(input.index_for_mouse_position(Some((0, &hits))), 3);
    assert_eq!(input.index_for_mouse_position(None), 0);
    assert_eq!(field("").index_for_mouse_position(Some((0, &hits))), 0);
}

#[test]
fn lines_are_indented_alike() {
    let mut input = lines("  a\n    b\nc");
    input.move_to(3);
    assert_eq!(input.indent_of_next_line(), "    ");
    input.move_to(8);
    assert_eq!(input.indent_of_next_line(), "    ");
    assert_eq!(field("  a").indent_of_next_line(), "");
}

#[test]
fn the_first_line_of_a_selection_is_found() {
    let mut input = lines("\none\ntwo");
    input.move_to(7);
    input.select_to(2);
    assert_eq!(input.start_of_line_of_selection(), 1);
    input.select_to(0);
    assert_eq!(input.start_of_line_of_selection(), 0);
    assert_eq!(field("abc").start_of_line_of_selection(), 0);
}

#[test]
fn rows_follow_the_mode() {
    let mut mode = InputMode::AutoGrow { rows: 2, min_rows: 2, max_rows: 5 };
    mode.update_auto_grow(9);
    assert_eq!((mode.rows(), mode.min_rows(), mode.max_rows()), (5, 2, 5));
    mode.set_rows(0);
    assert_eq!(mode.rows(), 2);
    let mut mode = InputMode::SingleLine;
    mode.set_rows(4);
    assert_eq!((mode.rows(), mode.min_rows(), mode.max_rows()), (1, 1, 1));
    assert!(mode.is_single_line() && !mode.is_multi_line() && !mode.is_auto_grow());
    let mode = InputMode::MultiLine { rows: 0 };
    assert_eq!((mode.rows(), mode.max_rows()), (1, usize::MAX));
    assert_eq!(InputState::new().multi_line().mode(), InputMode::MultiLine { rows: 2 });
    assert_eq!(InputState::new().multi_line().rows(7).mode(), InputMode::MultiLine { rows: 7 });
    assert_eq!(
        InputState::new().auto_grow(2, 4).rows(3).mode(),
        InputMode::AutoGrow { rows: 3, min_rows: 2, max_rows: 3 }
    );
    assert!(InputState::show_cursor(true, true, true) && !InputState::show_cursor(true, true, false));
}

#[test]
fn offsets_are_found_in_lines() {
    // Lines of 3, 0 and 4 bytes, below 10 bytes that are out of sight.
    let lengths = vec![3, 0, 4];
    assert_eq!(offsets_in_lines(&lengths, 10, 16), vec![6, 2, 1]);
    assert_eq!(offsets_in_lines(&lengths, 10, 12), vec![2, 0, 0]);
    assert_eq!(line_and_position_for_offset(&vec![None, None, Some(2)]), (2, 2, true));
    assert_eq!(line_and_position_for_offset(&vec![None, Some(0), Some(1)]), (1, 0, true));
    assert_eq!(line_and_position_for_offset(&vec![None]), (0, 0, false));
}

#[test]
fn selections_reach_lines_and_words() {
    let mut input = lines("one two\nthree four\nfive");
    input.move_to(12);
    input.select_to_start_of_line();
    assert_eq!(input.selected_text(), "thre");
    input.move_to(12);
    input.select_to_end_of_line();
    assert_eq!(input.selected_text(), "e four");
    input.move_to(18);
    input.select_to_previous_word();
    assert_eq!(input.selected_text(), "four");
    input.move_to(8);
    input.select_to_next_word();
    assert_eq!(input.selected_text(), "three");
    input.move_to(12);
    input.select_up();
    assert_eq!(input.selected_text(), "o\nthre");
    input.move_to(12);
    input.select_down();
    assert_eq!(input.selected_text(), "e four\nf");
    let mut single = field("one");
    single.select_up();
    single.select_down();
    assert_eq!(single.selected_text(), "");
}

#[test]
fn ranges_are_converted() {
    let mut input = field("aé😀b");
    assert_eq!(input.range_to_utf16((1, 7)), (1, 4));
    assert_eq!(input.range_from_utf16((1, 4)), (1, 7));
    input.replace_text_in_range_silent(Some((1, 4)), "x", HERE);
    assert_eq!(input.value(), "axb");
    let mut wrapped = lines("text");
    assert!(!wrapped.set_soft_wrap(false));
    assert!(wrapped.set_soft_wrap(true));
}
