use launch::icon::IconName;
use launch::launcher::{
    best_score, find_matches, find_panel, is_computation, parse_timestamp, rank_items, score_item, try_parse_timestamp, Calculation, InlineResults, Launch, Launcher, Launches, RootItem,
};
use launch::matcher::{collect_matches, search_texts, MAX_QUERY};
use launch::moment::{clock_texts, to_upper_case};
use launch::picker::{
    Category, ListChange, Picker, PickerEvent, Scroll, SelectableItem, Splice, VisualEntry, lay_out, splice_diff,
};
use launch::ranking::{sort_results, Rank};

fn names(list: &[&str]) -> Vec<String> {
    list.iter().map(|s| s.to_string()).collect()
}

fn header(name: &str) -> VisualEntry {
    VisualEntry::Header(name.to_string())
}

fn category(name: &str, members: &[bool]) -> Category {
    Category { name: name.to_string(), members: members.to_vec() }
}

#[test]
fn ranks_break_ties() {
    let results = vec![(0, 5), (1, 9), (2, 5), (3, 5)];
    let ranks = vec![(1, 0), (0, 0), (2, 7), (2, 8)];
    assert_eq!(sort_results(&results, &ranks), vec![(1, 9), (3, 5), (2, 5), (0, 5)]);
    // What ties altogether stays in order.
    let ranks = vec![(0, 0); 4];
    assert_eq!(sort_results(&results, &ranks), vec![(1, 9), (0, 5), (2, 5), (3, 5)]);
    let low = Rank { score: 1, first: 9, second: 9 };
    let high = Rank { score: 2, first: 0, second: 0 };
    assert!(high.ge(low) && !low.ge(high) && low.ge(low));
}

#[test]
fn categories_are_laid_out_in_order() {
    let categories = vec![
        category("known", &[false, true, false]),
        category("none", &[false, false, false]),
        category("all", &[true, true, true]),
    ];
    let matches = vec![(2, 9), (1, 5), (7, 1)];
    let (entries, selectable) = lay_out(&categories, &matches, 3);
    assert_eq!(entries.len(), 5);
    assert!(matches!(&entries[0], VisualEntry::Header(name) if name == "known"));
    assert!(matches!(&entries[1], VisualEntry::Item(1)));
    assert!(matches!(&entries[2], VisualEntry::Header(name) if name == "all"));
    assert!(matches!(&entries[3], VisualEntry::Item(0)));
    assert!(matches!(&entries[4], VisualEntry::Item(1)));
    assert_eq!(
        selectable,
        vec![
            SelectableItem { match_index: 1, list_index: 1 },
            SelectableItem { match_index: 0, list_index: 3 },
            SelectableItem { match_index: 1, list_index: 4 },
        ]
    );
}

#[test]
fn only_what_differs_is_spliced() {
    let item = |i: usize| VisualEntry::Item(i);
    let old = vec![header("a"), item(0), item(1)];
    assert_eq!(splice_diff(&old, &vec![header("a"), item(0), item(1)]), None);
    assert_eq!(
        splice_diff(&old, &vec![header("a"), item(5), item(1)]),
        Some(Splice { start: 1, old_end: 2, count: 1 })
    );
    // One inserted in the middle leaves both ends alone.
    assert_eq!(
        splice_diff(&old, &vec![header("a"), item(0), item(9), item(1)]),
        Some(Splice { start: 2, old_end: 2, count: 1 })
    );
    // Where rows repeat, the rows in front are kept.
    assert_eq!(
        splice_diff(&vec![item(0), item(0)], &vec![item(0), item(0), item(0)]),
        Some(Splice { start: 2, old_end: 2, count: 1 })
    );
    assert_eq!(
        splice_diff(&vec![item(0), item(0), item(0)], &vec![item(0)]),
        Some(Splice { start: 1, old_end: 3, count: 0 })
    );
    assert_eq!(splice_diff(&old, &Vec::new()), Some(Splice { start: 0, old_end: 3, count: 0 }));
    assert_eq!(splice_diff(&Vec::new(), &old), Some(Splice { start: 0, old_end: 0, count: 3 }));
}

fn searched(items: Vec<&'static str>) -> Picker<&'static str> {
    let mut picker = Picker::new(items);
    let ranks = vec![(0, 0); picker.items().len()];
    picker.complete_search(0, None, &ranks, &None);
    picker
}

#[test]
fn moving_wraps_around() {
    let mut picker = searched(vec!["a", "b", "c"]);
    assert_eq!(picker.selected_index(), Some(0));
    assert_eq!(picker.select_next(), Scroll::RowAtBottom(1));
    assert_eq!(picker.select_prev(), Scroll::RowAtTop(0));
    assert_eq!(picker.select_prev(), Scroll::RowAtBottom(2));
    assert_eq!(picker.get_selected_item(), Some(&"c"));
    assert_eq!(picker.select_next(), Scroll::RowAtTop(0));
    assert_eq!(picker.get_selected_item(), Some(&"a"));
}

#[test]
fn an_empty_list_selects_nothing() {
    let mut picker = searched(Vec::new());
    assert_eq!(picker.selected_index(), None);
    assert_eq!(picker.select_next(), Scroll::Keep);
    assert_eq!(picker.select_prev(), Scroll::Keep);
    assert_eq!(picker.set_selected_index(3), Scroll::Keep);
    assert!(picker.remove_selected_item().is_none());
    assert_eq!(picker.row_count(), 0);
}

#[test]
fn queries_start_searches() {
    let mut picker = searched(vec!["a", "b", "c"]);
    assert_eq!(picker.set_query("b"), Some(1));
    assert_eq!(picker.set_query("b"), None);
    assert_eq!(picker.query(), "b");
    let ranks = vec![(0, 0); 3];
    picker.select_prev();
    picker.complete_search(1, Some(vec![(1, 7)]), &ranks, &None);
    assert_eq!(picker.visible_item_count(), 1);
    assert_eq!(picker.get_selected_item(), Some(&"b"));
    // An older search that comes in late is dropped.
    assert_eq!(picker.complete_search(0, None, &ranks, &None), (ListChange::Keep, Scroll::Keep));
    assert_eq!(picker.visible_item_count(), 1);
    picker.set_query("zz");
    picker.complete_search(2, Some(Vec::new()), &ranks, &None);
    assert_eq!(picker.selected_index(), None);
}

#[test]
fn results_are_sorted_when_a_search_ends() {
    let mut picker = searched(vec!["a", "b", "c"]);
    picker.set_query("x");
    let ranks = vec![(0, 0), (0, 0), (4, 0)];
    picker.complete_search(1, Some(vec![(0, 1), (1, 1), (2, 1)]), &ranks, &None);
    assert_eq!(picker.matches(), &Some(vec![(2, 1), (0, 1), (1, 1)]));
    assert_eq!(picker.resolve_item_index(0), Some(2));
    assert_eq!(picker.resolve_item_index(9), None);
    assert_eq!(picker.selected_item(), Some(2));
}

#[test]
fn categorized_lists_skip_headers() {
    let mut picker = searched(vec!["a", "b", "c"]);
    picker.set_query("x");
    let categories = Some(vec![category("one", &[false, false, true]), category("two", &[true, true, false])]);
    let found = Some(vec![(0, 3), (1, 2), (2, 1)]);
    let (change, scroll) = picker.complete_search(1, found, &vec![(0, 0); 3], &categories);
    assert_eq!(change, ListChange::Reset(5));
    assert_eq!(scroll, Scroll::FirstEntry);
    assert_eq!(picker.entries().as_ref().unwrap().len(), 5);
    assert_eq!(picker.get_selected_item(), Some(&"c"));
    assert_eq!(picker.select_next(), Scroll::Entry(3));
    assert_eq!(picker.get_selected_item(), Some(&"a"));
    assert_eq!(picker.set_selected_index(9), Scroll::Entry(4));
    assert_eq!(picker.get_selected_item(), Some(&"b"));
    assert_eq!(picker.select_next(), Scroll::FirstEntry);
    assert_eq!(picker.select_prev(), Scroll::Entry(4));
    picker.set_query("y");
    let (change, _) = picker.complete_search(2, Some(vec![(0, 3), (1, 2)]), &vec![(0, 0); 3], &categories);
    assert_eq!(change, ListChange::Replace(Splice { start: 0, old_end: 2, count: 0 }));
}

#[test]
fn items_can_be_taken_out_and_replaced() {
    let mut picker = searched(vec!["a", "b"]);
    picker.select_next();
    let (removed, search) = picker.remove_selected_item().unwrap();
    assert_eq!((removed, search), ("b", 1));
    assert_eq!(picker.items(), &vec!["a"]);
    assert_eq!(picker.set_items(vec!["x", "y", "z"]), 2);
    assert_eq!(picker.set_selected_index(9), Scroll::RowAtTop(2));
    assert_eq!(picker.selected_index(), Some(2));
}

fn app(id: &str, name: Option<&str>) -> RootItem {
    RootItem::App {
        appid: id.to_string(),
        app_name: name.map(|s| s.to_string()),
        generic_name: Some("Browser".to_string()),
        categories: names(&["Network"]),
    }
}

fn panel(id: &str) -> RootItem {
    RootItem::Panel {
        id: id.to_string(),
        icon: IconName::Wifi,
        name: "Wi-Fi".to_string(),
        description: None,
        terms: names(&["wireless"]),
    }
}

#[test]
fn items_have_keys_and_terms() {
    assert_eq!(app("firefox", None).id(), "app:firefox");
    assert_eq!(panel("wifi").id(), "panel:wifi");
    assert_eq!(app("firefox", None).type_label(), "app");
    assert_eq!(panel("wifi").type_label(), "panel");
    assert_eq!(app("ff", Some("Firefox")).terms(), names(&["ff", "Firefox", "Browser", "Network"]));
    assert_eq!(panel("wifi").terms(), names(&["Wi-Fi", "wireless"]));
}

#[test]
fn texts_are_matched_fuzzily() {
    let found = search_texts("ff", &names(&["Firefox", "Files", "foo fighters"])).unwrap();
    assert_eq!(found.iter().map(|m| m.0).collect::<Vec<_>>(), vec![0, 2]);
    assert!(found.iter().all(|m| m.1 > 0));
    // An upper-case letter asks for one.
    assert_eq!(search_texts("FF", &names(&["foo fighters"])).unwrap(), vec![]);
    assert_eq!(search_texts("", &names(&["a"])), None);
    assert_eq!(collect_matches(&vec![None, Some(4), None, Some(0)]), vec![(1, 4), (3, 0)]);
}

#[test]
fn the_best_term_counts() {
    assert_eq!(best_score(&vec![None, Some(3), Some(8), Some(5)]), Some(8));
    assert_eq!(best_score(&vec![None]), None);
    let item = app("ff", Some("Firefox"));
    assert!(score_item("firefox", &item).is_some());
    assert!(score_item("browser", &item).is_some());
    assert!(score_item("network", &item).is_some());
    assert_eq!(score_item("zzz", &item), None);
    let items = vec![app("ff", Some("Firefox")), panel("wifi")];
    let found = find_matches("wireless", &items).unwrap();
    assert_eq!(found.iter().map(|m| m.0).collect::<Vec<_>>(), vec![1]);
    assert_eq!(find_matches("", &items), None);
}

#[test]
fn launches_rank_items() {
    let items = vec![app("ff", None), panel("ff")];
    let launches = vec![
        Launches { key: "panel:ff".to_string(), count: 2, last: 9 },
        Launches { key: "app:other".to_string(), count: 5, last: 1 },
    ];
    assert_eq!(rank_items(&items, &launches), vec![(0, 0), (2, 9)]);
    assert_eq!(find_panel(&items, "ff"), Some(1));
    assert_eq!(find_panel(&items, "wifi"), None);
}

#[test]
fn timestamps_are_read_by_length() {
    assert_eq!(parse_timestamp(" 1700000000 "), Some((1_700_000_000, 0)));
    assert_eq!(parse_timestamp("1700000000123"), Some((1_700_000_000, 123_000_000)));
    assert_eq!(parse_timestamp("1700000000123456789"), Some((1_700_000_000, 123_456_789)));
    assert_eq!(parse_timestamp("170000000"), None);
    assert_eq!(parse_timestamp("17000000x0"), None);
    assert_eq!(parse_timestamp("+700000000"), Some((700_000_000, 0)));
    assert_eq!(parse_timestamp("-700000000"), Some((-700_000_000, 0)));
    assert_eq!(parse_timestamp("-700000000001"), Some((-700_000_001, 999_000_000)));
    // Nothing before 1970 is told to the nanosecond, but for whole seconds.
    assert_eq!(try_parse_timestamp("-700000000123456789", 0), None);
    assert_eq!(
        try_parse_timestamp("-700000000000000000", 0).as_deref(),
        Some("Monday, 1947-10-27 03:33:20 +00:00")
    );
    assert_eq!(
        try_parse_timestamp("1700000000", 0).as_deref(),
        Some("Tuesday, 2023-11-14 22:13:20 +00:00")
    );
    assert_eq!(
        try_parse_timestamp("1700000000", 3600).as_deref(),
        Some("Tuesday, 2023-11-14 23:13:20 +01:00")
    );
    assert_eq!(try_parse_timestamp("hello", 0), None);
}

#[test]
fn inline_results_follow_the_query() {
    let mut results = InlineResults::new();
    assert!(results.update("1700000000", 0));
    assert_eq!(results.shown().unwrap(), "Tuesday, 2023-11-14 22:13:20 +00:00");
    results.calculated(Some(Calculation { main: "1700000000".to_string(), computes: false, empty: false }));
    assert_eq!(results.shown().unwrap(), "Tuesday, 2023-11-14 22:13:20 +00:00");
    results.update("5", 0);
    results.calculated(Some(Calculation { main: "5".to_string(), computes: false, empty: false }));
    assert!(results.shown().is_none());
    assert!(results.update("1 + 1", 0));
    assert!(results.shown().is_none());
    results.calculated(Some(Calculation { main: "2".to_string(), computes: true, empty: false }));
    assert_eq!(results.shown().unwrap(), "2");
    results.update("2 + 2", 0);
    results.calculated(None);
    assert!(results.shown().is_none());
    results.calculated(Some(Calculation { main: String::new(), computes: true, empty: true }));
    assert!(results.shown().is_none());
    assert!(!results.update("", 0));
}

#[test]
fn launching_shows_a_panel() {
    let items = vec![app("ff", None), panel("wifi")];
    let mut launcher = Launcher::new(&items, None);
    assert!(launcher.focuses_list());
    assert_eq!(launcher.launch(0, &items[0]), ("app:ff".to_string(), Launch::Start));
    assert_eq!(launcher.active_panel(), None);
    assert_eq!(launcher.launch(1, &items[1]), ("panel:wifi".to_string(), Launch::ShowPanel));
    assert_eq!(launcher.active_panel(), Some(1));
    assert!(launcher.go_back());
    assert!(!launcher.go_back());
    assert_eq!(Launcher::new(&items, Some("wifi")).active_panel(), Some(1));
    assert_eq!(Launcher::new(&items, Some("nope")).active_panel(), None);
}

#[test]
fn the_clock_is_written_out() {
    assert_eq!(to_upper_case("straße, 1 m"), "STRASSE, 1 M");
    let (time, date) = clock_texts(1_700_000_000, 0).unwrap();
    assert_eq!(time, "22:13");
    assert_eq!(date, "TUE, 14 NOV");
    let (_, date) = clock_texts(1_699_000_000 - 86_400, 0).unwrap();
    assert_eq!(date, "THU,  2 NOV");
}

#[test]
fn the_selected_item_is_picked() {
    let mut picker = searched(vec!["a", "b"]);
    picker.select_next();
    assert!(matches!(picker.launch_selected(false), Some(PickerEvent::Picked(1))));
    assert!(matches!(picker.launch_selected(true), Some(PickerEvent::SecondaryPicked(1))));
    assert!(searched(Vec::new()).launch_selected(false).is_none());
}

#[test]
fn numbers_on_their_own_compute_nothing() {
    assert!(!is_computation(" 5.0 ", "5"));
    assert!(!is_computation("-3", "-3"));
    assert!(!is_computation("pi day", "pi day"));
    assert!(is_computation("1 + 1", "2"));
    assert!(is_computation("1.2.3", "0"));
    assert!(is_computation("-", "0"));
}

#[test]
fn the_longest_query_still_has_a_score() {
    let longest = "a".repeat(MAX_QUERY);
    let found = search_texts(&longest, &vec![longest.clone()]).unwrap();
    // The first character counts 36, each other one 26.
    assert_eq!(found, vec![(0, 36 + 26 * (MAX_QUERY as u32 - 1))]);
}
