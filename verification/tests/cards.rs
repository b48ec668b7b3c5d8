use launch::cards::{
    avatar_letter, build_layout_rules, compact_buttons, either_matches, first_char, has_default,
    pick_layout, prominent_buttons, relative_time, ButtonVariant, CardText, NotificationLayout,
    NotificationsView,
};
use launch::notification::{Notification, NotificationAction};

fn notification(id: u32, app: &str, summary: &str, body: &str) -> Notification {
    Notification::from_dbus(
        id,
        app.to_string(),
        String::new(),
        summary.to_string(),
        body.to_string(),
        Vec::new(),
        &Vec::new(),
        -1,
        &Vec::new(),
        0,
    )
}

fn plain(id: u32) -> Notification {
    notification(id, "app", "summary", "body")
}

fn actions(keys: &[&str]) -> Vec<NotificationAction> {
    keys.iter().map(|k| NotificationAction { key: k.to_string(), label: k.to_uppercase() }).collect()
}

fn shown(view: &NotificationsView) -> Vec<(u32, bool)> {
    view.cards().iter().map(|c| (c.notification.id, c.leaving)).collect()
}

#[test]
fn layouts_follow_names() {
    assert_eq!(pick_layout(&notification(1, "Ghostty", "done", "")), NotificationLayout::Compact);
    assert_eq!(pick_layout(&notification(1, "Telegram Desktop", "hi", "")), NotificationLayout::Message);
    assert_eq!(pick_layout(&notification(1, "x", "via SIGNAL", "")), NotificationLayout::Message);
    // A whole word is asked for.
    assert_eq!(pick_layout(&notification(1, "signalling", "x", "")), NotificationLayout::Compact);
    assert_eq!(pick_layout(&notification(1, "x", "Media test", "")), NotificationLayout::Media);
    // The first rule that fits decides.
    assert_eq!(pick_layout(&notification(1, "discord", "Screenshots saved", "")), NotificationLayout::Compact);
    assert_eq!(build_layout_rules().len(), 5);
}

#[test]
fn a_rule_applies_to_either_text() {
    assert!(either_matches(Some(false), Some(true)));
    assert!(either_matches(Some(true), None));
    assert!(!either_matches(None, None));
    assert!(!either_matches(Some(false), Some(false)));
}

#[test]
fn cards_show_flat_text() {
    let text = CardText::new(&notification(1, " an  app ", "two\nlines", "a\n\nb"));
    assert_eq!(text.app_name, "an app");
    assert_eq!(text.summary, "two lines");
    assert_eq!(text.body.text, "a b");
}

#[test]
fn cards_follow_the_live_notifications() {
    let mut view = NotificationsView::new(&vec![plain(2), plain(1)]);
    assert_eq!(shown(&view), vec![(2, false), (1, false)]);

    let removals = view.update_content(&vec![plain(4), plain(3), plain(1)]);
    assert_eq!(shown(&view), vec![(4, false), (3, false), (2, true), (1, false)]);
    assert_eq!(removals.arm, vec![2]);
    assert!(removals.cancel.is_empty());

    // A card that is leaving is not made to leave again.
    let removals = view.update_content(&vec![plain(4), plain(3), plain(1)]);
    assert!(removals.arm.is_empty());

    // One that comes back stays.
    let removals = view.update_content(&vec![plain(2), plain(4)]);
    assert_eq!(removals.cancel, vec![2]);
    assert_eq!(removals.arm, vec![3, 1]);
    assert_eq!(shown(&view), vec![(4, false), (3, true), (2, false), (1, true)]);

    view.remove_card(3);
    view.remove_card(9);
    assert_eq!(shown(&view), vec![(4, false), (2, false), (1, true)]);
}

#[test]
fn a_card_takes_what_is_new() {
    let mut view = NotificationsView::new(&vec![notification(1, "x", "old", "")]);
    view.update_content(&vec![notification(1, "slack", "new", "")]);
    assert_eq!(view.cards()[0].notification.summary, "new");
    assert_eq!(view.cards()[0].text.summary, "new");
    assert_eq!(view.cards()[0].layout, NotificationLayout::Message);
}

#[test]
fn buttons_leave_the_default_out() {
    let list = actions(&["default", "reply", "mute"]);
    assert!(has_default(&list));
    assert!(!has_default(&actions(&["reply"])));
    assert_eq!(compact_buttons(&list), vec![1, 2]);
    assert_eq!(
        prominent_buttons(&list),
        vec![(1, ButtonVariant::Secondary), (2, ButtonVariant::Primary)]
    );
    assert!(prominent_buttons(&actions(&["default"])).is_empty());
}

#[test]
fn letters_stand_for_senders() {
    assert_eq!(avatar_letter(&notification(1, "signal", "élodie", "")), "S");
    assert_eq!(avatar_letter(&notification(1, "", "élodie", "")), "É");
    assert_eq!(avatar_letter(&notification(1, "ßen", "", "")), "SS");
    assert_eq!(avatar_letter(&notification(1, "", "", "")), "");
    assert_eq!(first_char("ab"), Some('a'));
    assert_eq!(first_char(""), None);
}

#[test]
fn times_are_told_roughly() {
    assert_eq!(relative_time(0), "now");
    assert_eq!(relative_time(59), "now");
    assert_eq!(relative_time(60), "1m");
    assert_eq!(relative_time(3599), "59m");
    assert_eq!(relative_time(7200), "2h");
    assert_eq!(relative_time(86_399), "23h");
    assert_eq!(relative_time(200_000), "2d");
}

#[test]
fn of_two_live_notifications_with_one_id_the_last_is_shown() {
    let mut view = NotificationsView::new(&vec![notification(1, "x", "a", ""), notification(1, "x", "b", "")]);
    view.update_content(&vec![notification(1, "x", "c", ""), notification(1, "x", "d", "")]);
    let summaries: Vec<&str> = view.cards().iter().map(|c| c.notification.summary.as_str()).collect();
    // It is shown on the first card that goes by the id; the other one stays as it is.
    assert_eq!(summaries, vec!["d", "b"]);
}
