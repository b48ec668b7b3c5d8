use launch::display::{
    clock_display, draws_clock, find_display, target_display, Clock, OverlayChange, StatusOverlay,
};
use launch::icon::IconName;
use launch::instance::{
    acquire_after_quit, after_response, answer, lock_request, open_request, opens_launcher,
    quit_request, startup, startup_request, version_check_request, Claim, ClaimStep, Command,
    Message, Response, Startup, Takeover, MAX_CLAIMS,
};
use launch::keys::{binding, input_state_listeners, InputAction};
use launch::launcher::RootItem;
use launch::llm::{ChatEffect, ChatMessage, LlmPanel};
use launch::logind::{answer_request, follow_sleep, SessionAction, SessionRequest};
use launch::niri::{
    find_windows, windows_panel, windows_to_items, CompositorEvent, NiriEvent, NiriState,
    NiriWindow, NiriWorkspace,
};
use launch::osd::{NotificationOsd, OsdAction};
use launch::power::{ConfirmationEvent, Picked, PowerAction};
use launch::records::{print_recent_notifications, NotificationRecord};
use launch::submenu::{SubMenu, SubMenuEvent};

fn text(s: &str) -> Option<String> {
    Some(s.to_string())
}

fn window(id: u64, title: Option<&str>) -> NiriWindow {
    NiriWindow {
        id,
        title: title.map(|s| s.to_string()),
        app_id: text("app"),
        is_focused: false,
        focus_timestamp: None,
    }
}

fn workspace(id: u64, output: &str, is_active: bool) -> NiriWorkspace {
    NiriWorkspace {
        id,
        output: text(output),
        is_active,
        is_focused: false,
        is_urgent: false,
        active_window_id: None,
    }
}

#[test]
fn windows_are_followed() {
    let mut state = NiriState::new();
    let windows = vec![window(1, Some("one")), window(2, None)];
    assert_eq!(state.apply_event(CompositorEvent::WindowsChanged { windows }), Some(NiriEvent::WindowsChanged));
    state.apply_event(CompositorEvent::WindowOpenedOrChanged { window: window(2, Some("two")) });
    state.apply_event(CompositorEvent::WindowOpenedOrChanged { window: window(3, Some("")) });
    assert_eq!(state.windows().iter().map(|w| w.id).collect::<Vec<_>>(), vec![1, 2, 3]);
    assert_eq!(state.windows()[1].title.as_deref(), Some("two"));
    state.apply_event(CompositorEvent::WindowFocusChanged { window_id: Some(2) });
    assert_eq!(state.windows().iter().map(|w| w.is_focused).collect::<Vec<_>>(), vec![false, true, false]);
    state.apply_event(CompositorEvent::WindowFocusChanged { window_id: None });
    assert!(state.windows().iter().all(|w| !w.is_focused));
    state.apply_event(CompositorEvent::WindowFocusTimestampChanged { id: 1, focus_timestamp: Some((5, 6)) });
    assert_eq!(state.windows()[0].focus_timestamp, Some((5, 6)));
    state.apply_event(CompositorEvent::WindowClosed { id: 1 });
    assert_eq!(state.windows().len(), 2);
    assert_eq!(state.apply_event(CompositorEvent::Other), None);
}

#[test]
fn a_switch_is_told_from_a_move_of_focus() {
    let mut state = NiriState::new();
    let workspaces = vec![workspace(1, "A", true), workspace(2, "A", false), workspace(3, "B", true)];
    assert_eq!(
        state.apply_event(CompositorEvent::WorkspacesChanged { workspaces }),
        Some(NiriEvent::WorkspacesChanged)
    );
    assert_eq!(
        state.apply_event(CompositorEvent::WorkspaceActivated { id: 2, focused: true }),
        Some(NiriEvent::WorkspaceActivated { id: 2 })
    );
    assert_eq!(state.workspaces().iter().map(|w| w.is_active).collect::<Vec<_>>(), vec![false, true, true]);
    assert_eq!(state.workspaces().iter().map(|w| w.is_focused).collect::<Vec<_>>(), vec![false, true, false]);
    // The other output's workspace was active already, so only focus moves.
    assert_eq!(state.apply_event(CompositorEvent::WorkspaceActivated { id: 3, focused: true }), None);
    assert_eq!(state.workspaces().iter().map(|w| w.is_focused).collect::<Vec<_>>(), vec![false, false, true]);
    assert_eq!(state.apply_event(CompositorEvent::WorkspaceActivated { id: 9, focused: false }), None);
    assert_eq!(state.workspace_output(3).map(|s| s.as_str()), Some("B"));
    assert_eq!(state.workspace_output(9), None);
    assert_eq!(
        state.apply_event(CompositorEvent::WorkspaceUrgencyChanged { id: 1, urgent: true }),
        Some(NiriEvent::WorkspaceUrgencyChanged { id: 1, urgent: true })
    );
    assert!(state.workspaces()[0].is_urgent);
    let event = CompositorEvent::WorkspaceActiveWindowChanged { workspace_id: 1, active_window_id: Some(7) };
    assert_eq!(state.apply_event(event), None);
    assert_eq!(state.workspaces()[0].active_window_id, Some(7));
}

#[test]
fn windows_are_listed() {
    let items = windows_to_items(&vec![window(1, Some("Mail")), window(2, Some("")), window(3, None)]);
    assert_eq!(items[0].search_string, "Mail app");
    assert_eq!(items[1].title, "(untitled)");
    assert_eq!(items[2].search_string, "(untitled) app");
    let found = find_windows("mail", &items).unwrap();
    assert_eq!(found.iter().map(|m| m.0).collect::<Vec<_>>(), vec![0]);
    assert!(matches!(
        windows_panel(),
        RootItem::Panel { id, icon: IconName::AppWindow, name, description, terms } if description.as_deref() == Some("Switch between open windows") && id == "windows" && name == "Windows" && terms == vec!["windows", "switch", "focus"]
    ));
}

#[test]
fn displays_are_found_by_name() {
    let displays = vec![text("DP-1"), None, text("eDP-1")];
    assert_eq!(find_display(&displays, "eDP-1"), Some(2));
    assert_eq!(target_display(text("eDP-1"), text("DP-1"), &displays), Some(2));
    assert_eq!(target_display(None, text("eDP-1"), &displays), Some(2));
    assert_eq!(target_display(text("HDMI"), text("eDP-1"), &displays), Some(0));
    assert_eq!(target_display(None, None, &displays), Some(0));
    assert_eq!(target_display(None, None, &Vec::new()), None);
    assert_eq!(clock_display(text("eDP-1"), None, &displays), Some(2));
    assert!(draws_clock(true, Some(2), 2) && !draws_clock(true, Some(2), 1));
    assert!(draws_clock(true, None, 7) && !draws_clock(false, None, 7));
}

#[test]
fn the_clock_repaints_by_the_minute() {
    let mut clock = Clock { hour: 9, minute: 59 };
    assert!(!clock.tick(9, 59));
    assert!(clock.tick(10, 59));
    assert!(clock.tick(10, 0));
    assert_eq!(clock, Clock { hour: 10, minute: 0 });
}

#[test]
fn the_overlay_moves_only_where_it_must() {
    let mut overlay = StatusOverlay { display: None };
    assert_eq!(overlay.sync(true, Some(3), false), OverlayChange::Open(3));
    assert_eq!(overlay.sync(true, Some(3), true), OverlayChange::Keep);
    assert_eq!(overlay.sync(true, Some(3), false), OverlayChange::Open(3));
    assert_eq!(overlay.sync(false, Some(3), true), OverlayChange::Close);
    assert_eq!(overlay.display, None);
}

#[test]
fn the_screen_is_locked_before_sleep() {
    assert_eq!(answer_request(SessionRequest::Lock), SessionAction::Lock);
    assert_eq!(answer_request(SessionRequest::Unlock), SessionAction::Unlock);
    assert_eq!(
        follow_sleep(true),
        vec![SessionAction::Lock, SessionAction::Wait { millis: 250 }, SessionAction::DropInhibitor]
    );
    assert_eq!(follow_sleep(false), vec![SessionAction::TakeInhibitor, SessionAction::RestartFingerprint]);
}

#[test]
fn power_is_confirmed() {
    let items = launch::power::get_items();
    assert_eq!(items.iter().map(|i| i.id.as_str()).collect::<Vec<_>>(), vec!["reboot", "power-off", "suspend"]);
    assert_eq!(items[1].terms, vec!["shutdown", "poweroff", "halt"]);
    assert!(matches!(launch::power::pick(PowerAction::Reboot), Picked::Confirm { prompt } if prompt == "Reboot?"));
    assert!(matches!(launch::power::pick(PowerAction::PowerOff), Picked::Confirm { prompt } if prompt == "Power off?"));
    assert!(matches!(launch::power::pick(PowerAction::Suspend), Picked::Perform { action: PowerAction::Suspend }));
    assert_eq!(launch::power::answer(PowerAction::Reboot, ConfirmationEvent::Confirm), Some(PowerAction::Reboot));
    assert_eq!(launch::power::answer(PowerAction::Reboot, ConfirmationEvent::Dismiss), None);
}

#[test]
fn the_notification_surface_comes_and_goes() {
    let mut osd = NotificationOsd::new();
    assert_eq!(osd.sync(false, Some(1)), OsdAction::Nothing);
    assert_eq!(osd.sync(true, None), OsdAction::NoDisplay);
    assert_eq!(osd.sync(true, Some(1)), OsdAction::Open { display: 1 });
    osd.opened(Some(7));
    assert_eq!(osd.sync(false, Some(1)), OsdAction::Update { window: 7 });
    assert_eq!(osd.updated(true, true, Some(1)), OsdAction::Nothing);
    assert_eq!(osd.report_region(Some(40)), OsdAction::SetInputRegion { window: 7, height: 40 });
    osd.region_set(true);
    assert_eq!(osd.window, Some(7));
    // A window that is gone is opened again.
    assert_eq!(osd.updated(false, true, Some(1)), OsdAction::Open { display: 1 });
    assert_eq!(osd.window, None);
    osd.opened(Some(8));
    assert_eq!(osd.reload_display(true, Some(2)), (OsdAction::Close { window: 8 }, OsdAction::Open { display: 2 }));
    osd.opened(Some(9));
    assert_eq!(osd.report_region(None), OsdAction::Close { window: 9 });
    assert_eq!(osd.window, None);
    assert_eq!(osd.report_region(Some(4)), OsdAction::Nothing);
}

#[test]
fn a_submenu_is_dismissed_once() {
    let mut menu = SubMenu::new();
    assert_eq!(menu.pick(2), (SubMenuEvent::Picked { index: 2 }, Some(100)));
    assert!(menu.is_closing());
    assert_eq!(menu.pick(1), (SubMenuEvent::Picked { index: 1 }, None));
    assert_eq!(menu.dismiss(), None);
}

#[test]
fn a_newer_build_takes_over() {
    let ours = Some(vec![1, 2]);
    let outcome = answer(&ours, open_request(Some(vec![1, 2]), text("wifi")), false);
    assert_eq!(outcome.response, Response::Accepted);
    assert!(!outcome.quit);
    assert!(matches!(&outcome.messages[..], [Message::Open { panel }] if panel.as_deref() == Some("wifi")));
    let outcome = answer(&ours, lock_request(Some(vec![1, 2])), false);
    assert!(matches!(&outcome.messages[..], [Message::Lock]));
    let outcome = answer(&ours, version_check_request(Some(vec![1, 2])), false);
    assert!(outcome.messages.is_empty() && !outcome.quit);
    let outcome = answer(&ours, open_request(Some(vec![9]), None), false);
    assert!(outcome.quit && outcome.response == Response::Quitting && outcome.messages.is_empty());
    assert!(answer(&None, open_request(None, None), false).response == Response::Accepted);
    assert!(answer(&None, quit_request(), false).quit);
}

#[test]
fn a_locked_session_is_not_taken_over() {
    let outcome = answer(&Some(vec![1]), open_request(Some(vec![2]), None), true);
    assert!(!outcome.quit && outcome.response == Response::Accepted && outcome.messages.is_empty());
    assert!(!opens_launcher(true, false));
    assert!(!opens_launcher(false, true));
    assert!(opens_launcher(false, false));
}

#[test]
fn the_socket_is_waited_for() {
    assert_eq!(acquire_after_quit(0, Claim::Claimed), ClaimStep::Done);
    assert_eq!(acquire_after_quit(0, Claim::InUse), ClaimStep::Retry { millis: 10 });
    assert_eq!(acquire_after_quit(0, Claim::Failed), ClaimStep::GiveUp);
    assert_eq!(acquire_after_quit(MAX_CLAIMS, Claim::InUse), ClaimStep::TimeOut);
    assert_eq!(after_response(Some(Response::Accepted)), Takeover::Leave);
    assert_eq!(after_response(Some(Response::Quitting)), Takeover::Wait);
    assert_eq!(after_response(None), Takeover::Force);
}

#[test]
fn commands_decide_the_start() {
    assert!(matches!(startup(None, text("wifi")), Some(Startup::Launcher { panel }) if panel.as_deref() == Some("wifi")));
    assert!(matches!(startup(Some(Command::Daemon), None), Some(Startup::Daemon)));
    assert!(matches!(startup(Some(Command::Lock), None), Some(Startup::Lock)));
    assert!(startup(Some(Command::Notifications { count: 3 }), None).is_none());
    let request = startup_request(&Startup::Lock, None);
    assert!(request.lock && !request.open_window);
    let request = startup_request(&Startup::Daemon, Some(vec![1]));
    assert!(!request.lock && !request.open_window && request.build_id == Some(vec![1]));
    let request = startup_request(&Startup::Launcher { panel: text("x") }, None);
    assert!(request.open_window && request.panel == text("x"));
}

#[test]
fn chats_are_streamed() {
    let mut panel = LlmPanel::new(77);
    assert!(panel.on_input_event(true, "hi").is_empty());
    assert!(panel.on_input_event(false, "").is_empty());
    let effects = panel.on_input_event(false, "hi");
    assert!(effects.iter().any(|e| matches!(e, ChatEffect::Send { prompt } if prompt == "hi")));
    assert!(effects.iter().any(|e| matches!(
        e,
        ChatEffect::Save { conversation_id: 77, role, content } if role == "user" && content == "hi"
    )));
    assert!(matches!(&panel.receive("hel")[..], [ChatEffect::ScrollToBottom]));
    panel.scrolled(false);
    assert!(panel.receive("lo").is_empty());
    assert_eq!(panel.streaming_text(), "hello");
    let effects = panel.finish();
    assert!(matches!(
        &effects[..],
        [ChatEffect::Save { role, content, .. }] if role == "assistant" && content == "hello"
    ));
    assert_eq!(panel.messages().len(), 2);
    assert_eq!(panel.messages()[1].speaker(), "Assistant");
    assert_eq!(panel.messages()[0].speaker(), "You");
    assert!(panel.finish().is_empty());
    assert_eq!(ChatMessage { role: "other".to_string(), content: String::new() }.speaker(), "Assistant");
    assert_eq!(launch::llm::get_items()[0].id(), "panel:llm");
}

#[test]
fn records_are_printed() {
    assert_eq!(print_recent_notifications(&Vec::new()), vec!["No notifications in history."]);
    let record = |timestamp: i64, urgency: u8, summary: &str, body: &str| NotificationRecord {
        timestamp,
        offset: if timestamp == 0 { 3600 } else { 0 },
        urgency,
        app_name: "a \"b\"".to_string(),
        app_icon: String::new(),
        summary: summary.to_string(),
        body: body.to_string(),
    };
    let lines = print_recent_notifications(&vec![record(1_700_000_000, 2, "s", "b"), record(0, 1, "", "")]);
    assert_eq!(
        lines,
        vec![
            "2023-11-14 22:13:20  [critical]  app=\"a \\\"b\\\"\"  icon=\"\"",
            "    summary: s",
            "    body:    b",
            "1970-01-01 01:00:00  [normal]  app=\"a \\\"b\\\"\"  icon=\"\"",
        ]
    );
    // A moment that no calendar has is told as a number.
    let lines = print_recent_notifications(&vec![record(i64::MIN, 0, "", "")]);
    assert_eq!(lines, vec!["-9223372036854775808  [low]  app=\"a \\\"b\\\"\"  icon=\"\""]);
}

#[test]
fn icons_have_paths() {
    assert_eq!(IconName::AppWindow.path(), "assets/icons/app-window.svg");
    assert_eq!(IconName::Loader.path(), "assets/icons/loader-2.svg");
    assert_eq!(IconName::Wifi.path(), "assets/icons/wifi.svg");
}

#[test]
fn keys_are_bound() {
    assert_eq!(binding("backspace"), Some(InputAction::Backspace));
    assert_eq!(binding("enter"), Some(InputAction::Enter { secondary: false }));
    assert_eq!(binding("f13"), None);
    assert!(!input_state_listeners(InputAction::Delete, true, false));
    assert!(input_state_listeners(InputAction::Delete, false, false));
}

#[test]
fn no_two_icons_share_a_file() {
    assert_ne!(IconName::Broadcast.path(), IconName::BroadcastOff.path());
    assert_ne!(IconName::Phone.path(), IconName::Photo.path());
    assert_ne!(IconName::Lock.path(), IconName::Link.path());
}
