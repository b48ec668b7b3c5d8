use launch::host::{Host, HostAction, NameReply};
use launch::systray::{
    host_name, join_to_path, keep_non_empty, read_item_address, read_status, text_or_empty,
    ItemAddress, ItemSearch, Node, Pixmap, SearchStep, Status, Systray, TrayIcon, TrayItem,
};
use launch::watcher::{
    classify_service, item_object, parse_service, HostRegistered, Service, Watcher,
};

fn text(s: &str) -> Option<String> {
    Some(s.to_string())
}

fn icon(name: &str) -> TrayIcon {
    TrayIcon::from_replies(text(name), None, None)
}

fn item(address: &str) -> TrayItem {
    TrayItem::from_replies(address, text("id"), text("title"), text("Passive"), icon("x"), None, None)
}

fn addresses(tray: &Systray) -> Vec<String> {
    tray.items().iter().map(|i| i.address().clone()).collect()
}

#[test]
fn the_first_host_is_told_apart() {
    let mut watcher = Watcher::new();
    assert!(!watcher.is_host_registered());
    assert_eq!(watcher.register_host(":1.1".to_string()), HostRegistered::First);
    assert_eq!(watcher.register_host(":1.1".to_string()), HostRegistered::Already);
    assert_eq!(watcher.register_host(":1.2".to_string()), HostRegistered::Another);
    assert!(watcher.is_host_registered());
    assert_eq!(watcher.protocol_version(), 0);
}

#[test]
fn an_item_is_registered_once() {
    let mut watcher = Watcher::new();
    assert_eq!(watcher.register_item(":1.5", "/StatusNotifierItem"), text(":1.5/StatusNotifierItem"));
    assert_eq!(watcher.register_item(":1.5", "/StatusNotifierItem"), None);
    assert_eq!(watcher.register_item(":1.5", "/Other"), text(":1.5/Other"));
    assert_eq!(watcher.registered_items(), vec![":1.5/StatusNotifierItem", ":1.5/Other"]);
}

#[test]
fn a_lost_name_takes_its_items_along() {
    let mut watcher = Watcher::new();
    watcher.register_item(":1.5", "/A");
    watcher.register_item(":1.6", "/B");
    watcher.register_item(":1.5", "/C");
    watcher.register_host(":1.6".to_string());
    watcher.register_host(":1.7".to_string());
    let lost = watcher.name_lost(":1.5");
    assert_eq!(lost.items, vec![":1.5/A", ":1.5/C"]);
    assert!(!lost.host && !lost.last_host);
    assert_eq!(watcher.registered_items(), vec![":1.6/B"]);
    let lost = watcher.name_lost(":1.6");
    assert!(lost.host && !lost.last_host);
    let lost = watcher.name_lost(":1.7");
    assert!(lost.items.is_empty() && lost.host && lost.last_host);
}

#[test]
fn services_are_paths_or_names() {
    assert_eq!(item_object(), "/StatusNotifierItem");
    assert!(matches!(
        parse_service("/org/ayatana", text(":1.9")),
        Service::Known { name, path } if name == ":1.9" && path == "/org/ayatana"
    ));
    assert!(matches!(parse_service("/org/ayatana", None), Service::UnknownSender));
    assert!(matches!(
        parse_service(":1.42", None),
        Service::Known { name, path } if name == ":1.42" && path == "/StatusNotifierItem"
    ));
    assert!(matches!(
        parse_service("org.kde.StatusNotifierItem-1-1", None),
        Service::OwnerOf { name } if name == "org.kde.StatusNotifierItem-1-1"
    ));
    assert!(matches!(parse_service("not a name", None), Service::Invalid { reason } if !reason.is_empty()));
}

#[test]
fn a_refused_name_says_why() {
    assert!(matches!(
        classify_service("x", None, Err("bad".to_string())),
        Service::Invalid { reason } if reason == "bad"
    ));
    assert!(matches!(classify_service("a.b", None, Ok(false)), Service::OwnerOf { name } if name == "a.b"));
}

#[test]
fn statuses_are_read() {
    assert_eq!(Status::from_str("Passive"), Ok(Status::Passive));
    assert_eq!(Status::from_str("Active"), Ok(Status::Active));
    assert_eq!(Status::from_str("NeedsAttention"), Ok(Status::NeedsAttention));
    assert_eq!(Status::from_str("a\"b"), Err("invalid status: \"a\\\"b\"".to_string()));
    assert_eq!(read_status(None), Status::Active);
    assert_eq!(read_status(text("odd")), Status::Active);
    assert_eq!(read_status(text("Passive")), Status::Passive);
}

#[test]
fn replies_make_an_item() {
    assert_eq!(keep_non_empty(text("")), None);
    assert_eq!(keep_non_empty(text("a")), text("a"));
    assert_eq!(text_or_empty(None), "");
    let made = TrayItem::from_replies(
        ":1.1/x",
        None,
        text("T"),
        None,
        TrayIcon::from_replies(text(""), text("/theme"), Some(Vec::new())),
        text("/menu"),
        None,
    );
    assert_eq!((made.id.as_str(), made.title.as_str()), ("", "T"));
    assert_eq!(made.status, Status::Active);
    assert_eq!(made.icon.name, None);
    assert_eq!(made.icon.theme_path, text("/theme"));
    assert!(made.icon.pixmap.is_none());
    assert!(made.has_menu());
    assert!(!made.item_is_menu);
    let pixmap = Pixmap { width: 1, height: 1, data: vec![0; 4] };
    assert!(TrayIcon::from_replies(None, None, Some(vec![pixmap])).pixmap.is_some());
}

#[test]
fn addresses_are_taken_apart() {
    assert!(matches!(
        read_item_address(":1.5/org/item"),
        ItemAddress::At { destination, path } if destination == ":1.5" && path == "/org/item"
    ));
    assert!(matches!(read_item_address(":1.5"), ItemAddress::Below { destination } if destination == ":1.5"));
    assert!(matches!(read_item_address("org.name"), ItemAddress::Invalid));
    assert!(matches!(
        read_item_address("/only"),
        ItemAddress::At { destination, path } if destination.is_empty() && path == "/only"
    ));
}

#[test]
fn paths_are_joined() {
    assert_eq!(join_to_path("/", "a"), "/a");
    assert_eq!(join_to_path("/a", "b"), "/a/b");
    assert_eq!(host_name(42, 1), "org.freedesktop.StatusNotifierHost-42-1");
}

#[test]
fn the_tray_keeps_its_items() {
    let mut tray = Systray::new();
    tray.add_item(item(":1.1/a"));
    tray.add_item(item(":1.2/b"));
    assert!(!tray.is_new(":1.1/a"));
    assert!(tray.is_new(":1.1/c"));
    assert!(tray.set_title(":1.2/b", text("new")));
    assert!(!tray.set_title(":1.9/z", text("new")));
    assert!(tray.set_status(":1.2/b", "NeedsAttention".to_string()));
    assert!(tray.set_icon(":1.2/b", icon("y")));
    assert_eq!(tray.items()[1].title, "new");
    assert_eq!(tray.items()[1].status, Status::NeedsAttention);
    assert_eq!(tray.items()[1].icon.name, text("y"));
    assert!(tray.set_title(":1.2/b", None));
    assert_eq!(tray.items()[1].title, "");
    assert!(tray.remove_item(":1.1/a"));
    assert!(!tray.remove_item(":1.1/a"));
    tray.add_item(item(":1.3/c"));
    tray.remove_items(&vec![":1.2/b".to_string(), ":1.8/q".to_string()]);
    assert_eq!(addresses(&tray), vec![":1.3/c"]);
}

fn node(interfaces: &[&str], children: &[Option<&str>]) -> Node {
    Node {
        interfaces: interfaces.iter().map(|s| s.to_string()).collect(),
        children: children.iter().map(|c| c.map(|s| s.to_string())).collect(),
    }
}

#[test]
fn a_pathless_item_is_searched_depth_first() {
    let mut search = ItemSearch::new();
    assert!(matches!(search.step(), SearchStep::Look(path) if path == "/"));
    assert!(matches!(
        search.looked(&node(&["a"], &[Some("org"), None, Some("StatusNotifierItem")])),
        SearchStep::Look(path) if path == "/org"
    ));
    assert!(matches!(search.looked(&node(&[], &[Some("deep")])), SearchStep::Look(path) if path == "/org/deep"));
    assert!(matches!(
        search.looked(&node(&[], &[])),
        SearchStep::Found(path) if path == "/StatusNotifierItem"
    ));
}

#[test]
fn an_interface_ends_the_search() {
    let mut search = ItemSearch::new();
    assert!(matches!(
        search.looked(&node(&["org.kde.StatusNotifierItem"], &[])),
        SearchStep::Found(path) if path == "/"
    ));
    let mut search = ItemSearch::new();
    assert!(matches!(search.looked(&node(&[], &[None])), SearchStep::Missing));
}

#[test]
fn a_host_counts_up_to_a_free_name() {
    let (mut host, action) = Host::new(42);
    assert!(matches!(action, HostAction::RequestName { name } if name == "org.freedesktop.StatusNotifierHost-42-1"));
    let action = host.name_replied(NameReply::Exists);
    assert!(matches!(action, HostAction::RequestName { name } if name == "org.freedesktop.StatusNotifierHost-42-2"));
    let action = host.name_replied(NameReply::PrimaryOwner);
    assert!(matches!(action, HostAction::RegisterHost { name } if name == "org.freedesktop.StatusNotifierHost-42-2"));
}

#[test]
fn a_host_follows_items() {
    let (mut host, _) = Host::new(1);
    let fetches = Host::fetch_existing(&vec![":1.1/a".to_string()]);
    assert!(matches!(&fetches[..], [HostAction::Fetch { address }] if address == ":1.1/a"));
    assert!(matches!(
        host.item_fetched(Some(item(":1.1/a"))),
        Some(HostAction::Listen { address }) if address == ":1.1/a"
    ));
    assert!(host.item_fetched(None).is_none());
    assert!(host.item_registered(":1.1/a").is_none());
    assert!(matches!(host.item_registered(":1.1/b"), Some(HostAction::Fetch { address }) if address == ":1.1/b"));
    host.item_unregistered(":1.1/a");
    assert!(host.systray().items().is_empty());
}

#[test]
fn a_gone_name_is_announced() {
    let (mut host, _) = Host::new(1);
    host.watcher().register_item(":1.1", "/a");
    host.watcher().register_host(":1.1".to_string());
    host.systray_mut().add_item(item(":1.1/a"));
    assert!(host.name_owner_changed(":1.1", true).is_empty());
    let actions = host.name_owner_changed(":1.1", false);
    assert!(matches!(
        &actions[..],
        [
            HostAction::EmitItemUnregistered { address },
            HostAction::RefreshItems,
            HostAction::EmitHostUnregistered,
            HostAction::RefreshHost
        ] if address == ":1.1/a"
    ));
    assert!(host.systray().items().is_empty());
    assert!(host.name_owner_changed(":1.1", false).is_empty());
}

#[test]
fn losing_a_name_leaves_other_hosts_alone() {
    let (mut host, _) = Host::new(1);
    host.watcher().register_host(":1.1".to_string());
    host.watcher().register_host(":1.2".to_string());
    host.name_owner_changed(":1.9", false);
    assert!(host.watcher().is_host_registered());
    let actions = host.name_owner_changed(":1.1", false);
    assert!(matches!(&actions[..], [HostAction::EmitHostUnregistered]));
    let actions = host.name_owner_changed(":1.2", false);
    assert!(matches!(&actions[..], [HostAction::EmitHostUnregistered, HostAction::RefreshHost]));
    assert!(!host.watcher().is_host_registered());
}
