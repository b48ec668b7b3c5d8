use launch::bluez::{find_adapter, find_devices, is_device, ManagedObject};
use launch::icon::IconName;
use launch::launcher::RootItem;
use launch::network::{
    get_items, list_devices, network_type, read_device, scan_wifi, ConnectionSettings,
    DeviceConnection, DeviceReading, NetworkType, ScanDevice, ScanReading,
};
use launch::networkmanager::{
    get_known_wifi_connections, get_wireless_devices, object_or_none, password_settings,
    scan_finished, wait_for_connection_active, AccessPoint, ActivationError, ActivationEvent,
    DeviceType, KnownNetwork, Properties, SavedConnection, SecurityType,
};
use launch::wifi::{
    categories, deduplicate_access_points, find_entries, list_actions, rank_entries, undo_join,
    Attempt, ConnectionState, WifiAction, WifiEffect, WifiFocus, WifiPanel,
};

fn text(s: &str) -> Option<String> {
    Some(s.to_string())
}

fn properties(ssid: &[u8], strength: u8, secured: bool) -> Properties {
    Properties {
        ssid: ssid.to_vec(),
        hw_address: "00:11".to_string(),
        strength,
        frequency: 2412,
        flags: 0,
        wpa_flags: 0,
        rsn_flags: if secured { 0x100 } else { 0 },
    }
}

fn point(path: &str, ssid: &str, strength: u8, secured: bool) -> AccessPoint {
    let mut point = AccessPoint::new(path.to_string(), properties(ssid.as_bytes(), strength, secured));
    point.hw_address = format!("hw{path}");
    point
}

fn known(ssid: &str, path: &str) -> KnownNetwork {
    KnownNetwork { ssid: ssid.to_string(), path: path.to_string() }
}

#[test]
fn flags_tell_the_security() {
    assert_eq!(SecurityType::from_flags(0, 0, 0x200), SecurityType::WPA3);
    assert_eq!(SecurityType::from_flags(1, 1, 0x100), SecurityType::WPA2);
    assert_eq!(SecurityType::from_flags(1, 1, 0), SecurityType::WPA);
    assert_eq!(SecurityType::from_flags(1, 0, 0), SecurityType::WEP);
    assert_eq!(SecurityType::from_flags(2, 0, 0), SecurityType::Open);
    assert!(!SecurityType::Open.is_secured());
    assert!(SecurityType::WEP.is_secured());
    assert_eq!(SecurityType::WPA3.label(), "WPA3");
    assert_eq!(SecurityType::Open.label(), "Open");
}

#[test]
fn devices_are_numbered() {
    assert_eq!(DeviceType::from(1), DeviceType::Ethernet);
    assert_eq!(DeviceType::from(2), DeviceType::Wifi);
    assert_eq!(DeviceType::from(14), DeviceType::Unknown);
    assert_eq!(get_wireless_devices(&vec![1, 2, 14, 2]), vec![1, 3]);
}

#[test]
fn activation_is_waited_for() {
    assert_eq!(wait_for_connection_active(ActivationEvent::State { state: 1 }), None);
    assert_eq!(wait_for_connection_active(ActivationEvent::State { state: 2 }), Some(Ok(())));
    assert_eq!(
        wait_for_connection_active(ActivationEvent::State { state: 4 }),
        Some(Err(ActivationError::Failed))
    );
    assert_eq!(wait_for_connection_active(ActivationEvent::Ended), Some(Err(ActivationError::Ended)));
    assert_eq!(wait_for_connection_active(ActivationEvent::TimedOut), Some(Err(ActivationError::TimedOut)));
    assert_eq!(ActivationError::Failed.message(), "Connection failed");
    assert_eq!(ActivationError::Ended.message(), "Connection state stream ended unexpectedly");
    assert_eq!(ActivationError::TimedOut.message(), "Connection activation timed out");
}

#[test]
fn small_readings_are_interpreted() {
    assert!(scan_finished(5, 6));
    assert!(!scan_finished(5, 5));
    assert_eq!(object_or_none("/".to_string()), None);
    assert_eq!(object_or_none("/a".to_string()), text("/a"));
    let section = password_settings("secret");
    assert_eq!(section.name, "802-11-wireless-security");
    assert_eq!(section.keys, vec!["key-mgmt", "psk"]);
    assert_eq!(section.values, vec!["wpa-psk", "secret"]);
}

#[test]
fn names_need_not_be_text() {
    let point = AccessPoint::new("/1".to_string(), properties(b"caf\xff", 10, true));
    assert_eq!(point.ssid, "caf\u{fffd}");
    assert_eq!(point.security, SecurityType::WPA2);
    let saved = vec![
        SavedConnection { path: "/s1".to_string(), ssid: Some(b"home".to_vec()) },
        SavedConnection { path: "/s2".to_string(), ssid: None },
    ];
    let networks = get_known_wifi_connections(&saved);
    assert_eq!(networks.len(), 1);
    assert_eq!((networks[0].ssid.as_str(), networks[0].path.as_str()), ("home", "/s1"));
}

#[test]
fn the_strongest_access_point_stands_for_a_network() {
    let points = vec![
        point("/1", "home", 40, true),
        point("/2", "", 99, true),
        point("/3", "home", 60, true),
        point("/4", "cafe", 20, false),
        point("/5", "home", 60, true),
    ];
    let networks = deduplicate_access_points(&points);
    assert_eq!(networks.len(), 2);
    let home = networks.iter().find(|n| n.access_point.ssid == "home").unwrap();
    assert_eq!(home.access_point.path, "/3");
    assert_eq!(home.alternates, vec!["/1", "/5"]);
    let cafe = networks.iter().find(|n| n.access_point.ssid == "cafe").unwrap();
    assert!(cafe.alternates.is_empty());
}

fn panel() -> WifiPanel {
    let mut panel = WifiPanel::new();
    let points = vec![point("/1", "home", 40, true), point("/2", "cafe", 20, false), point("/3", "office", 90, true)];
    panel.initialize(deduplicate_access_points(&points), &text("hw/9"), &vec![known("home", "/s1")]);
    panel
}

fn key(panel: &WifiPanel, ssid: &str) -> u64 {
    panel.entries().iter().find(|e| e.access_point.ssid == ssid).unwrap().key
}

fn entry<'a>(panel: &'a WifiPanel, ssid: &str) -> &'a launch::wifi::WifiEntry {
    panel.entries().iter().find(|e| e.access_point.ssid == ssid).unwrap()
}

#[test]
fn networks_are_joined_as_they_need() {
    let mut panel = panel();
    let (home, cafe, office) = (key(&panel, "home"), key(&panel, "cafe"), key(&panel, "office"));
    assert!(entry(&panel, "home").is_known && !entry(&panel, "cafe").is_known);
    assert_eq!(entry(&panel, "home").status().as_deref(), Some("Saved"));
    assert_eq!(entry(&panel, "cafe").status(), None);

    let effects = panel.pick(home);
    assert!(matches!(
        &effects[..],
        [WifiEffect::Activate { connection, access_point, .. }] if connection == "/s1" && access_point == "/1"
    ));
    assert_eq!(entry(&panel, "home").status().as_deref(), Some("Connecting..."));
    panel.finish(home, Attempt::Known, true);
    assert_eq!(entry(&panel, "home").status().as_deref(), Some("Connected"));

    let effects = panel.pick(cafe);
    assert!(matches!(&effects[..], [WifiEffect::Join { access_point, .. }] if access_point == "/2"));
    panel.finish(cafe, Attempt::New, false);
    assert_eq!(entry(&panel, "cafe").status().as_deref(), Some("Connection failed"));
    assert!(!entry(&panel, "cafe").is_known);

    let effects = panel.pick(office);
    assert!(matches!(&effects[..], [WifiEffect::FocusPassword]));
    assert_eq!(panel.focus(), WifiFocus::Password);
    let effects = panel.submit_password("secret");
    assert!(matches!(
        &effects[0],
        WifiEffect::JoinWithPassword { access_point, password, .. } if access_point == "/3" && password == "secret"
    ));
    assert!(effects.iter().any(|e| matches!(e, WifiEffect::StartDismissTimer { millis: 100 })));
    assert_eq!(panel.focus(), WifiFocus::List);
    panel.popup_gone();
    assert!(panel.popup().is_none());
    panel.finish(office, Attempt::New, true);
    assert!(entry(&panel, "office").is_known && entry(&panel, "office").is_connected);

    let effects = panel.pick(home);
    assert!(matches!(&effects[..], [WifiEffect::Disconnect { .. }]));
    panel.finish(home, Attempt::Disconnect, true);
    assert!(!entry(&panel, "home").is_connected);
}

#[test]
fn a_popup_is_dismissed_once() {
    let mut panel = panel();
    assert!(panel.dismiss_popup().is_empty());
    let office = key(&panel, "office");
    panel.pick(office);
    let effects = panel.dismiss_popup();
    assert!(matches!(&effects[..], [WifiEffect::FocusSearch, WifiEffect::StartDismissTimer { millis: 100 }]));
    assert!(panel.dismiss_popup().is_empty());
}

#[test]
fn forgetting_takes_the_connection() {
    let mut panel = panel();
    let (home, cafe) = (key(&panel, "home"), key(&panel, "cafe"));
    assert!(panel.forget(cafe).is_empty());
    let effects = panel.forget(home);
    assert!(matches!(
        &effects[..],
        [WifiEffect::Forget { id, connection, .. }] if id == "/1" && connection == "/s1"
    ));
    panel.forgotten(home, "/1");
    assert!(!entry(&panel, "home").is_known);
    assert!(entry(&panel, "home").connection_path.is_none());
    assert!(panel.forget(home).is_empty());
}

#[test]
fn scans_keep_what_is_still_there() {
    let mut panel = panel();
    let home = key(&panel, "home");
    panel.finish(home, Attempt::Known, true);
    assert!(panel.refresh());
    assert!(panel.is_scanning());
    let points = vec![point("/1", "home", 80, true), point("/7", "home", 10, true), point("/8", "new", 50, false)];
    panel.scanned(deduplicate_access_points(&points), &text("hw/8"), &Vec::new());
    assert!(!panel.is_scanning());
    assert_eq!(panel.entries().len(), 2);
    assert_eq!(entry(&panel, "home").key, home);
    assert!(entry(&panel, "home").is_connected);
    assert_eq!(entry(&panel, "home").access_point.strength, 80);
    assert_eq!(entry(&panel, "home").alternates, vec!["/7"]);
    // An access point that was an alternate can stand for its network later.
    let points = vec![point("/7", "home", 90, true)];
    panel.scanned(deduplicate_access_points(&points), &None, &Vec::new());
    assert_eq!(panel.entries().len(), 1);
    assert_eq!(entry(&panel, "home").key, home);
    assert_eq!(entry(&panel, "home").access_point.path, "/7");
    panel.scanned(deduplicate_access_points(&vec![point("/8", "new", 50, false)]), &text("hw/8"), &Vec::new());
    let new = entry(&panel, "new");
    assert!(new.is_connected);
    assert_eq!(new.connection_state, ConnectionState::Idle);
}

#[test]
fn an_open_menu_outlasts_its_entry() {
    let mut panel = panel();
    let (home, cafe) = (key(&panel, "home"), key(&panel, "cafe"));
    let elsewhere = deduplicate_access_points(&vec![point("/9", "other", 10, false)]);
    panel.open_actions(home);
    panel.scanned(elsewhere, &None, &Vec::new());
    assert!(panel.entries().iter().all(|e| e.key != home));
    assert_eq!(panel.submenu(), Some(home));

    let effects = panel.act(WifiAction::Connect);
    assert!(matches!(
        &effects[..],
        [WifiEffect::Activate { key, connection, access_point }]
            if *key == home && connection == "/s1" && access_point == "/1"
    ));
    panel.finish(home, Attempt::Known, true);
    assert!(matches!(&panel.act(WifiAction::Connect)[..], [WifiEffect::Disconnect { key }] if *key == home));
    panel.finish(home, Attempt::Disconnect, true);
    assert!(matches!(
        &panel.act(WifiAction::Forget)[..],
        [WifiEffect::Forget { id, connection, .. }] if id == "/1" && connection == "/s1"
    ));
    panel.forgotten(home, "/1");
    assert!(panel.act(WifiAction::Forget).is_empty());
    assert!(matches!(&panel.act(WifiAction::Connect)[..], [WifiEffect::FocusPassword]));
    assert_eq!(panel.entries().len(), 1);

    // The entry goes with the menu, and no menu opens for one that is not listed.
    panel.close_actions();
    assert!(panel.act(WifiAction::Connect).is_empty());
    assert!(panel.pick(home).is_empty());
    panel.open_actions(cafe);
    assert_eq!(panel.submenu(), None);
}

#[test]
fn starting_over_leaves_an_open_menu_its_entry() {
    let mut panel = panel();
    let cafe = key(&panel, "cafe");
    panel.open_actions(cafe);
    panel.initialize(Vec::new(), &None, &Vec::new());
    assert!(panel.entries().is_empty());
    assert!(matches!(&panel.act(WifiAction::Connect)[..], [WifiEffect::Join { access_point, .. }] if access_point == "/2"));
    assert!(panel.act(WifiAction::Forget).is_empty());
}

#[test]
fn a_panel_without_an_adapter_does_not_scan() {
    let mut panel = WifiPanel::new();
    assert!(!panel.refresh());
    assert!(!panel.is_scanning());
}

#[test]
fn strengths_are_followed() {
    let mut panel = panel();
    let home = key(&panel, "home");
    panel.set_strength(home, 77);
    assert_eq!(entry(&panel, "home").access_point.strength, 77);
    panel.open_actions(home);
    assert_eq!(panel.submenu(), Some(home));
    assert_eq!(panel.focus(), WifiFocus::Actions);
    panel.close_actions();
    assert_eq!(panel.submenu(), None);
}

#[test]
fn actions_fit_the_entry() {
    let actions = list_actions(false, false);
    assert_eq!(actions.len(), 1);
    assert_eq!((actions[0].label.as_str(), actions[0].search_string.as_str()), ("Connect", "connect"));
    let actions = list_actions(true, true);
    assert_eq!(actions.len(), 2);
    assert_eq!(actions[0].label, "Disconnect");
    assert_eq!(actions[1].action, WifiAction::Forget);
    assert_eq!((actions[1].label.as_str(), actions[1].search_string.as_str()), ("Forget Network", "forget network"));
    assert!(undo_join(true, false));
    assert!(!undo_join(true, true));
    assert!(!undo_join(false, false));
}

#[test]
fn known_networks_come_first() {
    let panel = panel();
    let names: Vec<&str> = panel.entries().iter().map(|e| e.access_point.ssid.as_str()).collect();
    let ranks = rank_entries(panel.entries());
    let of = |ssid: &str| ranks[names.iter().position(|n| *n == ssid).unwrap()];
    assert_eq!(of("home"), (1, 40));
    assert_eq!(of("office"), (0, 90));
    let groups = categories(panel.entries());
    assert_eq!(groups[0].name, "Known Networks");
    assert_eq!(groups[1].name, "Available Networks");
    assert_eq!(groups[0].members.iter().filter(|m| **m).count(), 1);
    assert_eq!(groups[1].members.iter().filter(|m| **m).count(), 2);
    let found = find_entries("off", panel.entries()).unwrap();
    assert_eq!(found.len(), 1);
    assert_eq!(names[found[0].0], "office");
    assert!(find_entries("", panel.entries()).is_none());
}

fn settings(id: &str, interface: Option<&str>) -> ConnectionSettings {
    ConnectionSettings {
        id: text(id),
        uuid: text("uuid"),
        interface_name: interface.map(|s| s.to_string()),
    }
}

fn reading(device_type: u32, hw: &str) -> DeviceReading {
    DeviceReading {
        path: "/d".to_string(),
        device_type: Some(device_type),
        interface: text("eth0"),
        hw_address: text(hw),
        state: Some(100),
        available: Some(vec![("/c1".to_string(), Some(settings("one", None))), ("/c2".to_string(), None)]),
        active: Some((
            DeviceConnection { path: "/a".to_string(), id: "one".to_string(), uuid: "uuid".to_string() },
            2,
        )),
    }
}

#[test]
fn devices_are_read() {
    let saved = vec![settings("mine", Some("eth0")), settings("other", Some("wlan0")), settings("any", None)];
    let info = read_device(reading(1, "00:11"), &saved).unwrap();
    assert_eq!(info.device_type, DeviceType::Ethernet);
    assert_eq!(info.available_connections.len(), 1);
    assert_eq!(info.available_connections[0].path, "/c1");
    assert_eq!(info.known_connections.len(), 1);
    assert_eq!(info.known_connections[0].id, "mine");
    assert_eq!(info.active_connection.unwrap().1, 2);
    assert!(read_device(reading(5, "00:11"), &saved).is_none());
    assert!(read_device(reading(1, ""), &saved).is_none());
    let mut broken = reading(2, "00:11");
    broken.state = None;
    assert_eq!(list_devices(vec![reading(2, "00:11"), broken, reading(1, "")], &saved).len(), 1);
}

fn scanned(path: &str, ssid: &str, strength: u8, rsn: u32) -> ScanReading {
    ScanReading {
        path: path.to_string(),
        ssid: Some(ssid.as_bytes().to_vec()),
        strength: Some(strength),
        rsn_flags: Some(rsn),
        wpa_flags: Some(rsn),
        flags: Some(4),
    }
}

#[test]
fn scans_are_sorted_by_strength() {
    assert_eq!(network_type(0x300), Some(NetworkType::EAP));
    assert_eq!(network_type(0x100), Some(NetworkType::PSK));
    assert_eq!(network_type(0), Some(NetworkType::Open));
    assert_eq!(network_type(0x8), None);
    let device = ScanDevice { state: 100, hw_address: text("00:11") };
    let found = scan_wifi(&device, None, &vec![
        scanned("/1", "a", 10, 0),
        scanned("/2", "b", 90, 0x100),
        scanned("/3", "a", 40, 0x100),
        scanned("/4", "a", 20, 0),
        scanned("/5", "c", 50, 0x8),
    ])
    .unwrap();
    assert_eq!(found.len(), 2);
    assert_eq!((found[0].ssid.as_str(), found[0].strength), ("b", 90));
    assert_eq!((found[1].path.as_str(), found[1].strength), ("/3", 40));
    assert!(found[1].secured && found[1].wps_push && !found[1].working);
    assert_eq!((found[1].state, found[1].hw_address.as_deref()), (100, Some("00:11")));
    let mut failing = scanned("/6", "d", 5, 0);
    failing.wpa_flags = None;
    assert!(scan_wifi(&device, Some(1), &vec![failing]).is_none());
    let mut skipped = scanned("/7", "e", 5, 0);
    skipped.rsn_flags = None;
    assert_eq!(scan_wifi(&device, None, &vec![skipped]).unwrap().len(), 0);
    let mut odd = scanned("/8", "", 5, 0);
    odd.ssid = Some(vec![0x61, 0xff]);
    assert_eq!(scan_wifi(&device, None, &vec![odd]).unwrap()[0].ssid, "a\u{fffd}");
    // A scan that failed finds nothing.
    assert_eq!(scan_wifi(&device, Some(-1), &vec![scanned("/9", "f", 5, 0)]).unwrap().len(), 0);
}

#[test]
fn there_are_two_network_panels() {
    let items = get_items();
    assert_eq!(items.iter().map(|i| i.id()).collect::<Vec<_>>(), vec!["panel:networks", "panel:wifi"]);
    assert!(matches!(&items[0], RootItem::Panel { terms, icon: IconName::Network, .. } if terms == &vec!["net", "network", "ethernet"]));
}

#[test]
fn bluetooth_objects_are_sorted_out() {
    let object = |path: &str, interfaces: &[&str]| ManagedObject {
        path: path.to_string(),
        interfaces: interfaces.iter().map(|s| s.to_string()).collect(),
    };
    let objects = vec![
        object("/org/bluez", &["org.bluez.AgentManager1"]),
        object("/org/bluez/hci0", &["org.bluez.Adapter1"]),
        object("/org/bluez/hci0/dev_1", &["org.freedesktop.DBus.Properties", "org.bluez.Device1"]),
    ];
    assert_eq!(find_adapter(&objects), Some(1));
    assert_eq!(find_devices(&objects), vec!["/org/bluez/hci0/dev_1"]);
    assert!(is_device(&objects[2]) && !is_device(&objects[1]));
    assert_eq!(find_adapter(&Vec::new()), None);
}
