use launch::notification::{
    file_path, find_hint, icon_source, icon_sources, image_from_hints, pair_actions, pick_found,
    render_image_from_data, urgency_from_hints, CloseReason, Hint, HintValue, IconSource, ImageData,
    Notification, Urgency,
};
use launch::notifications::{
    capabilities, server_information, Expiry, NotificationIds, Notifications, Timer, NANOS_PER_MILLI,
};

fn hint(key: &str, value: HintValue) -> Hint {
    Hint { key: key.to_string(), value }
}

fn image(width: i32, height: i32, rowstride: i32, channels: i32, data: Vec<u8>) -> ImageData {
    ImageData { width, height, rowstride, has_alpha: channels == 4, bits_per_sample: 8, channels, data }
}

fn notification(id: u32, urgency: u8, timeout: i32) -> Notification {
    Notification::from_dbus(
        id,
        "app".to_string(),
        String::new(),
        "summary".to_string(),
        "body".to_string(),
        Vec::new(),
        &vec![hint("urgency", HintValue::Byte(urgency))],
        timeout,
        &Vec::new(),
        0,
    )
}

#[test]
fn urgencies_follow_their_numbers() {
    assert_eq!(Urgency::from_hint(0), Urgency::Low);
    assert_eq!(Urgency::from_hint(1), Urgency::Normal);
    assert_eq!(Urgency::from_hint(2), Urgency::Critical);
    assert_eq!(Urgency::from_hint(9), Urgency::Normal);
    for urgency in [Urgency::Low, Urgency::Normal, Urgency::Critical] {
        assert_eq!(Urgency::from_hint(urgency.as_u8()), urgency);
    }
}

#[test]
fn an_urgency_of_the_wrong_type_is_normal() {
    let hints = vec![hint("urgency", HintValue::Text("2".to_string()))];
    assert_eq!(urgency_from_hints(&hints), Urgency::Normal);
    assert_eq!(urgency_from_hints(&Vec::new()), Urgency::Normal);
    let hints = vec![hint("urgency", HintValue::Byte(2))];
    assert_eq!(urgency_from_hints(&hints), Urgency::Critical);
}

#[test]
fn reasons_have_their_codes() {
    assert_eq!(CloseReason::Expired.code(), 1);
    assert_eq!(CloseReason::Dismissed.code(), 2);
    assert_eq!(CloseReason::Closed.code(), 3);
}

#[test]
fn timeouts_resolve_their_sentinels() {
    assert_eq!(notification(1, 1, -1).effective_timeout_ms(), 5000);
    assert_eq!(notification(1, 2, -1).effective_timeout_ms(), 0);
    assert_eq!(notification(1, 1, 0).effective_timeout_ms(), 0);
    assert_eq!(notification(1, 2, 250).effective_timeout_ms(), 250);
}

#[test]
fn pixels_are_reordered() {
    let pixels = render_image_from_data(&image(1, 2, 4, 3, vec![1, 2, 3, 0, 4, 5, 6, 0])).unwrap();
    assert_eq!((pixels.width, pixels.height), (1, 2));
    assert_eq!(pixels.bgra, vec![3, 2, 1, 255, 6, 5, 4, 255]);
    let pixels = render_image_from_data(&image(1, 1, 4, 4, vec![1, 2, 3, 9])).unwrap();
    assert_eq!(pixels.bgra, vec![3, 2, 1, 9]);
}

#[test]
fn images_that_do_not_add_up_are_refused() {
    assert!(render_image_from_data(&image(0, 1, 3, 3, vec![1, 2, 3])).is_none());
    assert!(render_image_from_data(&image(1, -1, 3, 3, vec![1, 2, 3])).is_none());
    assert!(render_image_from_data(&image(1, 1, 3, 2, vec![1, 2, 3])).is_none());
    assert!(render_image_from_data(&image(1, 1, 0, 3, vec![1, 2, 3])).is_none());
    assert!(render_image_from_data(&image(2, 1, 5, 3, vec![0; 12])).is_none());
    assert!(render_image_from_data(&image(1, 2, 3, 3, vec![0; 5])).is_none());
    assert!(render_image_from_data(&image(1, 2, 3, 3, vec![0; 6])).is_some());
}

#[test]
fn the_first_image_hint_decides() {
    let hints = vec![
        hint("icon_data", HintValue::Image(image(1, 1, 3, 3, vec![7, 8, 9]))),
        hint("image-data", HintValue::Image(image(1, 1, 3, 3, vec![1, 2, 3]))),
    ];
    assert_eq!(image_from_hints(&hints).unwrap().bgra, vec![3, 2, 1, 255]);
    let hints = vec![
        hint("image-data", HintValue::Other),
        hint("icon_data", HintValue::Image(image(1, 1, 3, 3, vec![7, 8, 9]))),
    ];
    assert!(image_from_hints(&hints).is_none());
}

#[test]
fn hints_are_found_by_key() {
    let hints = vec![hint("a", HintValue::Byte(1)), hint("b", HintValue::Byte(2))];
    assert!(matches!(find_hint(&hints, "b"), Some(HintValue::Byte(2))));
    assert!(find_hint(&hints, "c").is_none());
}

#[test]
fn icons_are_files_or_names() {
    assert!(icon_source("").is_none());
    assert!(matches!(icon_source("firefox"), Some(IconSource::Named(name)) if name == "firefox"));
    assert!(matches!(icon_source("/a/b.png"), Some(IconSource::File(path)) if path == "/a/b.png"));
    assert!(matches!(icon_source("file:///a%20b.png"), Some(IconSource::File(path)) if path == "/a b.png"));
    // Bytes that are no text after decoding leave the address as it is.
    assert!(matches!(icon_source("file:///a%FFb"), Some(IconSource::File(path)) if path == "/a%FFb"));
}

#[test]
fn an_undecodable_address_stays_as_it_is() {
    assert_eq!(file_path("/a%20b".to_string(), Some("/a b".to_string())), "/a b");
    assert_eq!(file_path("/a%FF".to_string(), None), "/a%FF");
}

#[test]
fn icons_are_looked_for_in_order() {
    let hints = vec![
        hint("desktop-entry", HintValue::Text("org.app".to_string())),
        hint("image-path", HintValue::Text("/p.png".to_string())),
    ];
    let sources = icon_sources(&hints, "name");
    assert_eq!(sources.len(), 3);
    assert!(matches!(&sources[0], IconSource::File(path) if path == "/p.png"));
    assert!(matches!(&sources[1], IconSource::Named(name) if name == "name"));
    assert!(matches!(&sources[2], IconSource::Named(name) if name == "org.app"));
    assert_eq!(pick_found(&vec![None, Some("x".to_string()), Some("y".to_string())]), Some("x".to_string()));
    assert_eq!(pick_found(&vec![None]), None);
}

#[test]
fn actions_come_in_pairs() {
    let names: Vec<String> = ["default", "Open", "reply", "Reply", "odd"].iter().map(|s| s.to_string()).collect();
    let actions = pair_actions(&names);
    assert_eq!(actions.len(), 2);
    assert_eq!((actions[0].key.as_str(), actions[0].label.as_str()), ("default", "Open"));
    assert_eq!((actions[1].key.as_str(), actions[1].label.as_str()), ("reply", "Reply"));
}

#[test]
fn an_image_leaves_no_icon() {
    let hints = vec![hint("image-data", HintValue::Image(image(1, 1, 3, 3, vec![1, 2, 3])))];
    let found = vec![Some("/icon.png".to_string())];
    let n = Notification::from_dbus(
        4,
        "app".to_string(),
        "icon".to_string(),
        "Momo <3".to_string(),
        "Kaffee &amp; <b>Kuchen</b>".to_string(),
        vec!["default".to_string(), "Open".to_string()],
        &hints,
        -1,
        &found,
        77,
    );
    assert!(n.image.is_some());
    assert!(n.icon_path.is_none());
    assert_eq!(n.summary, "Momo <3");
    assert_eq!(n.body, "Kaffee & Kuchen");
    assert_eq!(n.app_icon, "icon");
    assert_eq!(n.received, 77);
    assert_eq!(n.actions.len(), 1);
    let n = Notification::from_dbus(
        4,
        "app".to_string(),
        "icon".to_string(),
        "s".to_string(),
        "b".to_string(),
        Vec::new(),
        &Vec::new(),
        -1,
        &found,
        77,
    );
    assert_eq!(n.icon_path, Some("/icon.png".to_string()));
}

#[test]
fn the_newest_notification_is_on_top() {
    let mut live = Notifications::new();
    assert_eq!(live.push(notification(1, 1, -1), 0), Timer::Start(5000 * NANOS_PER_MILLI));
    assert_eq!(live.push(notification(2, 2, -1), 0), Timer::Stop);
    assert_eq!(live.active().iter().map(|n| n.id).collect::<Vec<_>>(), vec![2, 1]);
    // One that comes again keeps its place.
    assert_eq!(live.push(notification(1, 1, 10), 5), Timer::Start(10 * NANOS_PER_MILLI));
    assert_eq!(live.active().iter().map(|n| n.id).collect::<Vec<_>>(), vec![2, 1]);
    assert_eq!(live.active()[1].expire_timeout, 10);
}

#[test]
fn a_notification_leaves_once() {
    let mut live = Notifications::new();
    live.push(notification(1, 1, -1), 0);
    assert!(live.dismiss(1));
    assert!(!live.dismiss(1));
    assert!(live.active().is_empty());
    live.push(notification(2, 1, -1), 0);
    assert!(live.invoke_action(2));
    assert!(!live.invoke_action(2));
}

#[test]
fn hovering_stops_the_clock() {
    let mut live = Notifications::new();
    let ms = NANOS_PER_MILLI;
    live.push(notification(1, 1, 100), 0);
    assert_eq!(live.set_hovered(1, true, 40 * ms), Timer::Stop);
    assert_eq!(live.set_hovered(1, false, 1000 * ms), Timer::Start(60 * ms));
    // It runs already.
    assert_eq!(live.set_hovered(1, false, 1001 * ms), Timer::Keep);
    assert_eq!(live.set_hovered(9, true, 0), Timer::Keep);
    assert_eq!(live.set_hovered(1, true, 2000 * ms), Timer::Stop);
    assert_eq!(live.set_hovered(1, false, 2001 * ms), Timer::Expired);
    assert!(live.active().is_empty());
}

#[test]
fn pausing_twice_is_pausing_once() {
    let mut once = Expiry { remaining: 100, started_at: Some(10) };
    once.pause(40);
    assert_eq!(once, Expiry { remaining: 70, started_at: None });
    let mut twice = once;
    twice.pause(90);
    assert_eq!(twice, once);
}

#[test]
fn ids_count_up_and_wrap() {
    let mut ids = NotificationIds::new();
    assert_eq!(ids.assign(0), 1);
    assert_eq!(ids.assign(7), 7);
    assert_eq!(ids.assign(0), 2);
}

#[test]
fn the_server_says_what_it_is() {
    assert_eq!(capabilities(), vec!["actions", "body", "body-markup", "icon-static", "persistence"]);
    let (name, vendor, version, spec) = server_information("0.3.1");
    assert_eq!((name.as_str(), vendor.as_str(), version.as_str(), spec.as_str()), ("launch", "launch", "0.3.1", "1.2"));
}
