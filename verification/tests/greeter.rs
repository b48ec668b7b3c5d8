use launch::auth::{AuthFailure, AuthSource, AuthUser, FingerprintState};
use launch::greeter::{
    needs_rebuild, plan_screens, rejection, ConnectionEnd, Effect, Event, Greeter, Phase, Rejection,
};

/// The invariant worth pinning: a fingerprint failure never disturbs the
/// password field. Everything else on this screen is visible when it breaks;
/// this is the one that looks fine and silently swallows what is typed.
#[test]
fn a_fingerprint_failure_leaves_the_password_field_alone() {
    assert_eq!(rejection(&Phase::Ready, AuthSource::Fingerprint), Rejection::ShowOnly);
}

#[test]
fn a_failed_password_asks_for_a_new_attempt() {
    assert_eq!(rejection(&Phase::Ready, AuthSource::Password), Rejection::NewAttempt);
}

/// The losing worker's failure can arrive after the winner authenticated.
#[test]
fn nothing_is_applied_once_the_session_is_starting() {
    for source in [AuthSource::Password, AuthSource::Fingerprint] {
        assert_eq!(rejection(&Phase::Starting, source), Rejection::Ignore, "for {source:?}");
    }
}

fn user(name: &str) -> AuthUser {
    AuthUser::new(name.to_string(), None, None)
}

fn welcomed() -> Greeter {
    let mut greeter = Greeter::new();
    assert!(matches!(&greeter.connect()[..], [Effect::Hello]));
    let effects = greeter.apply(Event::Welcome {
        users: vec![user("ada"), user("bob")],
        default_user: "bob".to_string(),
        fingerprint: true,
        primary_output: None,
    });
    assert!(effects.iter().any(|e| matches!(e, Effect::Authenticate { username } if username == "bob")));
    greeter
}

#[test]
fn the_default_user_is_asked_first() {
    let greeter = welcomed();
    assert_eq!(greeter.selected(), 1);
    assert_eq!(greeter.user().map(|u| u.name.as_str()), Some("bob"));
    assert!(greeter.can_switch());
}

#[test]
fn a_password_waits_for_its_prompt() {
    let mut greeter = welcomed();
    let effects = greeter.submit("secret".to_string(), true);
    assert!(!effects.iter().any(|e| matches!(e, Effect::SendPassword { .. })));
    let effects = greeter.apply(Event::Prompt { source: AuthSource::Password });
    assert!(effects.iter().any(|e| matches!(e, Effect::SendPassword { value } if value == "secret")));
    assert!(greeter.busy());
}

#[test]
fn a_refused_password_starts_over() {
    let mut greeter = welcomed();
    greeter.apply(Event::Prompt { source: AuthSource::Password });
    greeter.submit("wrong".to_string(), true);
    let effects = greeter.apply(Event::Failed {
        source: AuthSource::Password,
        failure: AuthFailure::Rejected,
    });
    assert!(effects.iter().any(|e| matches!(e, Effect::Authenticate { username } if username == "bob")));
    assert!(greeter.rejected());
    assert!(!greeter.busy());
}

#[test]
fn a_refused_finger_changes_nothing_but_the_message() {
    let mut greeter = welcomed();
    greeter.apply(Event::Prompt { source: AuthSource::Password });
    let effects = greeter.apply(Event::Failed {
        source: AuthSource::Fingerprint,
        failure: AuthFailure::Rejected,
    });
    assert!(!effects.iter().any(|e| matches!(e, Effect::ClearField | Effect::Authenticate { .. })));
}

#[test]
fn switching_wraps_and_confirming_the_same_account_keeps_the_attempt() {
    let mut greeter = welcomed();
    greeter.set_switching(true);
    assert!(greeter.switching());
    let effects = greeter.confirm_highlight();
    assert!(!effects.iter().any(|e| matches!(e, Effect::Authenticate { .. })));
    assert!(!greeter.switching());
}

#[test]
fn dismissing_the_list_changes_nothing() {
    let mut greeter = welcomed();
    let before = greeter.selected();
    greeter.set_switching(true);
    greeter.move_highlight(1);
    assert_ne!(greeter.selected(), before);
    greeter.set_switching(false);
    assert_eq!(greeter.selected(), before);
    assert!(!greeter.switching());
    greeter.set_switching(true);
    greeter.highlight(0);
    let effects = greeter.confirm_highlight();
    assert!(effects.iter().any(|e| matches!(e, Effect::Authenticate { username } if username == "ada")));
    assert_eq!(greeter.selected(), 0);
}

#[test]
fn only_the_password_stack_gives_hints() {
    let mut greeter = welcomed();
    greeter.apply(Event::Info { source: AuthSource::Fingerprint, message: "swipe".to_string() });
    assert!(greeter.hint().is_none());
    greeter.apply(Event::Info { source: AuthSource::Password, message: "expires soon".to_string() });
    assert_eq!(greeter.hint().as_deref(), Some("expires soon"));
}

#[test]
fn retries_back_off_up_to_a_limit() {
    let mut greeter = Greeter::new();
    let mut delays = Vec::new();
    for _ in 0..6 {
        delays.push(greeter.disconnected("gone".to_string(), true).unwrap());
    }
    assert_eq!(delays, [500, 1000, 2000, 4000, 5000, 5000]);
    assert_eq!(greeter.disconnected("over".to_string(), false), None);
}

#[test]
fn a_finger_is_sensed_only_while_the_reader_waits() {
    let mut greeter = welcomed();
    greeter.apply(Event::Fingerprint { state: FingerprintState::Waiting });
    greeter.set_finger_present(true);
    assert_eq!(greeter.fingerprint(), FingerprintState::Reading);
    greeter.set_finger_present(false);
    assert_eq!(greeter.fingerprint(), FingerprintState::Waiting);
}

#[test]
fn screens_are_planned_and_rebuilt() {
    let plan = plan_screens(3, 1, true);
    let prompts: Vec<bool> = plan.iter().map(|p| p.prompt).collect();
    assert_eq!(prompts, [false, true, false]);
    assert!(needs_rebuild(&vec![1, 2], &vec![1], true));
    assert!(needs_rebuild(&vec![1], &vec![1], false));
    assert!(!needs_rebuild(&vec![1], &vec![1], true));
}

#[test]
fn every_end_of_the_connection_has_its_reason() {
    assert_eq!(
        ConnectionEnd::NoSocket.reason(),
        "The login screen was started outside of launch-greetd"
    );
    assert_eq!(ConnectionEnd::Unreachable.reason(), "The login service cannot be reached");
    assert_eq!(ConnectionEnd::Closed.reason(), "The login service closed the connection");
    assert_eq!(
        ConnectionEnd::Unreadable.reason(),
        "The login service sent something unreadable"
    );
    assert_eq!(
        ConnectionEnd::StoppedAccepting.reason(),
        "The login service stopped accepting requests"
    );
    assert_eq!(ConnectionEnd::ScreenStoppedListening.reason(), "The login screen stopped listening");
    assert_eq!(ConnectionEnd::ScreenStoppedSending.reason(), "The login screen stopped sending");
}

#[test]
fn the_prompt_goes_to_the_named_output() {
    let greeter = welcomed();
    let displays = vec![Some("DP-1".to_string()), None, Some("eDP-1".to_string())];
    assert_eq!(greeter.primary_index(Some("eDP-1".to_string()), &displays), 2);
    assert_eq!(greeter.primary_index(Some("HDMI-1".to_string()), &displays), 0);
    assert_eq!(greeter.primary_index(None, &displays), 0);
    let mut greeter = Greeter::new();
    greeter.connect();
    greeter.apply(Event::Welcome {
        users: vec![user("ada")],
        default_user: "ada".to_string(),
        fingerprint: false,
        primary_output: Some("eDP-1".to_string()),
    });
    assert_eq!(greeter.primary_index(Some("DP-1".to_string()), &displays), 2);
}
