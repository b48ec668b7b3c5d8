use launch::auth::{avatar_candidates, display_name, AuthFailure, AuthUser, AvatarPlace, FingerprintState};
use launch::fprintd::{has_prints, ScanType, VerifyStatus, VerifyUpdate};
use launch::lock::{
    after_claim, after_find, after_start, applies_mirror, request_lock, Attempt, AuthEvent, Call,
    Lock, LockEffect, LockRequest, ReaderSetup, Verification, VerifyNext, MAX_FINGERPRINT_FAILURES,
};
use launch::pam::{
    after_step, answer, failure, message_text, resolve_service, service_exists, service_paths,
    PamCode, PamNext, PamStep,
};

fn text(s: &str) -> Option<String> {
    Some(s.to_string())
}

fn names(list: &[&str]) -> Vec<String> {
    list.iter().map(|s| s.to_string()).collect()
}

#[test]
fn full_names_come_first() {
    assert_eq!(display_name(text(" Ada Lovelace ,Room 1,,"), "ada"), "Ada Lovelace");
    assert_eq!(display_name(text(" ,Room 1"), "ada"), "ada");
    assert_eq!(display_name(None, "ada"), "ada");
    let user = AuthUser::new("ada".to_string(), text("élan"), None);
    assert_eq!((user.name.as_str(), user.display_name.as_str(), user.initial.as_str()), ("ada", "élan", "É"));
}

#[test]
fn pictures_are_looked_for_in_order() {
    let places = avatar_candidates(true, true, "ada");
    assert_eq!(places.len(), 6);
    assert!(matches!(&places[0], AvatarPlace::Config(name) if name == "profile.png"));
    assert!(matches!(&places[1], AvatarPlace::Config(name) if name == "profile.jpg"));
    assert!(matches!(&places[2], AvatarPlace::Config(name) if name == "profile.webp"));
    assert!(matches!(&places[3], AvatarPlace::Home(name) if name == ".face"));
    assert!(matches!(&places[4], AvatarPlace::Home(name) if name == ".face.icon"));
    assert!(matches!(&places[5], AvatarPlace::Accounts(name) if name == "ada"));
    assert_eq!(avatar_candidates(false, false, "ada").len(), 1);
}

#[test]
fn a_stopped_reader_is_not_revived() {
    assert_eq!(FingerprintState::Off.sense(true), FingerprintState::Off);
    assert_eq!(FingerprintState::Starting.sense(true), FingerprintState::Starting);
    assert_eq!(FingerprintState::Waiting.sense(true), FingerprintState::Reading);
    assert_eq!(FingerprintState::Reading.sense(false), FingerprintState::Waiting);
    assert_eq!(FingerprintState::Waiting.sense(false), FingerprintState::Waiting);
}

#[test]
fn readers_say_how_they_scan() {
    assert_eq!(ScanType::parse("swipe"), ScanType::Swipe);
    assert_eq!(ScanType::parse("press"), ScanType::Press);
    assert_eq!(ScanType::parse("hover"), ScanType::Press);
    assert_eq!(ScanType::from_reply(None), ScanType::Press);
    assert_eq!(ScanType::from_reply(text("swipe")), ScanType::Swipe);
    assert_eq!(ScanType::Press.prompt(), "Place your finger on the reader");
    assert_eq!(ScanType::Swipe.prompt(), "Swipe your finger on the reader");
}

fn status(result: &str) -> VerifyStatus {
    VerifyUpdate::parse(result, false).status
}

#[test]
fn verification_results_are_read() {
    assert!(matches!(status("verify-match"), VerifyStatus::Match));
    assert!(matches!(status("verify-no-match"), VerifyStatus::NoMatch));
    for (result, hint) in [
        ("verify-retry-scan", "Couldn't read that, try again"),
        ("verify-swipe-too-short", "Swipe was too short, try again"),
        ("verify-finger-not-centered", "Center your finger on the reader"),
        ("verify-remove-and-retry", "Remove your finger and try again"),
        ("verify-too-fast", "That was too fast, try again"),
    ] {
        assert!(matches!(status(result), VerifyStatus::Retry(text) if text == hint), "{result}");
    }
    assert!(matches!(status("verify-disconnected"), VerifyStatus::Failed(t) if t == "The fingerprint reader was disconnected"));
    assert!(matches!(status("verify-unknown-error"), VerifyStatus::Failed(t) if t == "The fingerprint reader failed"));
    assert!(VerifyUpdate::parse("verify-match", true).done);
    assert!(!VerifyUpdate::parse("verify-match", false).done);
}

#[test]
fn no_prints_mean_no_reader() {
    assert!(!has_prints(&None));
    assert!(!has_prints(&Some(Vec::new())));
    assert!(has_prints(&Some(names(&["right-index-finger"]))));
}

#[test]
fn services_fall_back_to_known_ones() {
    assert_eq!(service_paths("launch"), names(&["/etc/pam.d/launch", "/usr/lib/pam.d/launch"]));
    assert!(service_exists("login", &names(&["/usr/lib/pam.d/login"])));
    assert!(!service_exists("login", &names(&["/usr/lib/pam.d/other"])));
    assert_eq!(resolve_service("launch", &names(&["/etc/pam.d/launch", "/etc/pam.d/login"])), "launch");
    assert_eq!(resolve_service("launch", &names(&["/etc/pam.d/login", "/etc/pam.d/hyprlock"])), "hyprlock");
    assert_eq!(resolve_service("launch", &names(&["/usr/lib/pam.d/swaylock"])), "swaylock");
    assert_eq!(resolve_service("launch", &names(&["/etc/pam.d/login"])), "login");
    assert_eq!(resolve_service("launch", &Vec::new()), "launch");
}

#[test]
fn wrong_passwords_are_told_apart() {
    for code in [PamCode::AuthErr, PamCode::CredInsufficient, PamCode::MaxTries] {
        assert!(matches!(failure(code, "x".to_string()), AuthFailure::Rejected));
    }
    assert!(matches!(
        failure(PamCode::Other, "account expired".to_string()),
        AuthFailure::Error { message } if message == "account expired"
    ));
}

#[test]
fn a_transaction_takes_its_steps() {
    assert!(matches!(after_step(PamStep::Start, None), PamNext::Step(PamStep::Authenticate)));
    assert!(matches!(after_step(PamStep::Authenticate, None), PamNext::Step(PamStep::Account)));
    assert!(matches!(after_step(PamStep::Account, None), PamNext::Step(PamStep::Refresh)));
    assert!(matches!(after_step(PamStep::Refresh, None), PamNext::Finished(Ok(()))));
    // What was accepted stays accepted.
    let error = Some((PamCode::AuthErr, "x".to_string()));
    assert!(matches!(after_step(PamStep::Refresh, error), PamNext::Finished(Ok(()))));
    let error = Some((PamCode::AuthErr, "x".to_string()));
    assert!(matches!(
        after_step(PamStep::Start, error),
        PamNext::Finished(Err(AuthFailure::Error { message })) if message == "Authentication is unavailable"
    ));
    let error = Some((PamCode::AuthErr, "x".to_string()));
    assert!(matches!(after_step(PamStep::Authenticate, error), PamNext::Finished(Err(AuthFailure::Rejected))));
}

#[test]
fn prompts_are_answered() {
    assert_eq!(answer(true, "ada", "secret"), text("ada"));
    assert_eq!(answer(false, "ada", "secret"), text("secret"));
    assert_eq!(answer(false, "ada", "se\0cret"), None);
    assert_eq!(message_text("  hello \n"), text("hello"));
    assert_eq!(message_text(" \t"), None);
}

fn lock() -> Lock {
    Lock::new(AuthUser::new("ada".to_string(), None, None), "login".to_string(), true)
}

#[test]
fn a_password_is_verified_once_at_a_time() {
    let mut lock = lock();
    assert!(lock.submit(String::new()).is_empty());
    let effects = lock.submit("one".to_string());
    assert!(matches!(&effects[..], [LockEffect::Verify { password }] if password == "one"));
    assert!(lock.authenticating());
    assert!(lock.submit("two".to_string()).is_empty());
}

#[test]
fn a_refused_password_is_outlined_until_the_next() {
    let mut lock = lock();
    lock.submit("one".to_string());
    let (over, effects) = lock.apply_auth_event(AuthEvent::Finished(Err(AuthFailure::Rejected)));
    assert!(over);
    assert!(matches!(
        &effects[..],
        [LockEffect::Highlight, LockEffect::Mirror { value, source: None }] if value.is_empty()
    ));
    assert!(lock.rejected());
    assert!(lock.error().is_none());
    assert!(!lock.authenticating());
    lock.submit("two".to_string());
    assert!(!lock.rejected());
    lock.apply_auth_event(AuthEvent::Finished(Err(AuthFailure::Error { message: "expired".to_string() })));
    assert_eq!(lock.error().as_deref(), Some("expired"));
    lock.highlight_over();
    assert!(!lock.rejected());
}

#[test]
fn only_typing_clears_the_error() {
    let mut lock = lock();
    let (over, _) = lock.apply_auth_event(AuthEvent::Error("bad".to_string()));
    assert!(!over);
    let effects = lock.password_changed(String::new(), 3);
    assert!(matches!(&effects[..], [LockEffect::Mirror { source: Some(3), .. }]));
    assert_eq!(lock.error().as_deref(), Some("bad"));
    lock.password_changed("x".to_string(), 3);
    assert!(lock.error().is_none());
    lock.apply_auth_event(AuthEvent::Info("soon".to_string()));
    assert_eq!(lock.hint().as_deref(), Some("soon"));
}

#[test]
fn acceptance_unlocks_and_hands_the_reader_back() {
    let mut lock = lock();
    let effects = lock.start();
    assert!(matches!(&effects[..], [LockEffect::StartReader { release_first: false }]));
    assert_eq!(lock.fingerprint_state(), FingerprintState::Starting);
    let effects = lock.reader_set_up(ReaderSetup::Ready);
    assert!(matches!(&effects[..], [LockEffect::WatchReader]));
    lock.reader_armed();
    assert_eq!(lock.fingerprint_state(), FingerprintState::Waiting);
    lock.set_finger_present(true);
    assert_eq!(lock.fingerprint_state(), FingerprintState::Reading);
    let (over, effects) = lock.apply_auth_event(AuthEvent::Finished(Ok(())));
    assert!(over);
    assert!(matches!(&effects[..], [LockEffect::ReleaseReader, LockEffect::UnlockSession]));
    assert_eq!(lock.fingerprint_state(), FingerprintState::Off);
    assert!(matches!(&lock.unlock()[..], [LockEffect::UnlockSession]));
}

#[test]
fn a_disabled_reader_is_left_alone() {
    let mut lock = Lock::new(AuthUser::new("ada".to_string(), None, None), "login".to_string(), false);
    assert!(lock.start().is_empty());
    assert!(lock.restart_fingerprint().is_empty());
    assert_eq!(lock.pam_service(), "login");
    assert_eq!(lock.user().name, "ada");
}

#[test]
fn a_restart_hands_the_old_reader_back_first() {
    let mut lock = lock();
    lock.reader_set_up(ReaderSetup::Ready);
    lock.fingerprint_failed("gone".to_string());
    let effects = lock.restart_fingerprint();
    assert!(matches!(&effects[..], [LockEffect::StartReader { release_first: true }]));
    assert!(lock.error().is_none());
    let effects = lock.restart_fingerprint();
    assert!(matches!(&effects[..], [LockEffect::StartReader { release_first: false }]));
}

#[test]
fn a_silent_reader_is_mentioned() {
    let mut lock = lock();
    lock.start();
    assert!(lock.reader_set_up(ReaderSetup::Unavailable).is_empty());
    assert!(lock.error().is_none());
    lock.reader_set_up(ReaderSetup::Unresponsive);
    assert_eq!(lock.error().as_deref(), Some("The fingerprint reader isn't responding"));
    assert_eq!(lock.fingerprint_state(), FingerprintState::Off);
}

#[test]
fn scans_end_attempts() {
    let mut lock = lock();
    let scan = |lock: &mut Lock, result: &str, done: bool| lock.apply_scan(VerifyUpdate::parse(result, done)).1;
    assert_eq!(scan(&mut lock, "verify-match", true), Some(Attempt::Matched));
    assert_eq!(scan(&mut lock, "verify-no-match", true), Some(Attempt::Rejected));
    assert!(lock.rejected());
    assert_eq!(scan(&mut lock, "verify-too-fast", false), None);
    assert_eq!(lock.error().as_deref(), Some("That was too fast, try again"));
    assert_eq!(scan(&mut lock, "verify-too-fast", true), Some(Attempt::Rejected));
    assert_eq!(scan(&mut lock, "verify-disconnected", false), Some(Attempt::Failed));
    assert_eq!(lock.fingerprint_state(), FingerprintState::Off);
}

#[test]
fn five_refusals_end_verification() {
    let mut verification = Verification::new();
    for _ in 1..MAX_FINGERPRINT_FAILURES {
        assert_eq!(verification.attempted(Attempt::Rejected), VerifyNext::Again);
    }
    assert_eq!(verification.attempted(Attempt::Rejected), VerifyNext::TooMany);
    assert_eq!(Verification::new().attempted(Attempt::Matched), VerifyNext::Unlock);
    assert_eq!(Verification::new().attempted(Attempt::Gone), VerifyNext::ReleaseAlone);
    assert_eq!(Verification::new().attempted(Attempt::Failed), VerifyNext::GiveUp);
}

#[test]
fn setting_a_reader_up_takes_calls() {
    assert_eq!(after_find(Call::Answered), None);
    assert_eq!(after_find(Call::Nothing), Some(ReaderSetup::Unavailable));
    assert_eq!(after_find(Call::Error), Some(ReaderSetup::Unavailable));
    assert_eq!(after_find(Call::TimedOut), Some(ReaderSetup::Unresponsive));
    assert_eq!(after_claim(Call::Answered), (ReaderSetup::Ready, false));
    assert_eq!(after_claim(Call::Error), (ReaderSetup::Unavailable, false));
    // A claim that lands late is undone.
    assert_eq!(after_claim(Call::TimedOut), (ReaderSetup::Unresponsive, true));
    assert_eq!(after_start(Call::Answered), None);
    assert_eq!(after_start(Call::Error), Some((Attempt::Failed, false)));
    assert_eq!(after_start(Call::TimedOut), Some((Attempt::Failed, true)));
}

#[test]
fn screens_follow_each_other() {
    assert!(!applies_mirror(1, Some(1), "a", "b"));
    assert!(!applies_mirror(1, Some(2), "a", "a"));
    assert!(applies_mirror(1, Some(2), "a", "b"));
    assert!(applies_mirror(1, None, "a", ""));
}

#[test]
fn locking_needs_a_user() {
    assert_eq!(request_lock(true, true, true), (LockRequest::Already, false));
    assert_eq!(request_lock(false, true, true), (LockRequest::Lock, true));
    assert_eq!(request_lock(false, false, true), (LockRequest::Lock, false));
    assert_eq!(request_lock(false, false, false).0, LockRequest::Refuse);
}

#[test]
fn the_reader_is_shown_once_it_is_armed() {
    assert_eq!(FingerprintState::Off.indicator(), None);
    assert_eq!(FingerprintState::Starting.indicator(), None);
    assert_eq!(FingerprintState::Waiting.indicator(), Some(false));
    assert_eq!(FingerprintState::Reading.indicator(), Some(true));
}

#[test]
fn the_field_rests_while_something_is_checked() {
    let user = AuthUser::new("ada".to_string(), None, None);
    let mut lock = Lock::new(user, "login".to_string(), true);
    lock.start();
    lock.reader_set_up(ReaderSetup::Ready);
    lock.reader_armed();
    assert!(!lock.field_disabled());
    lock.set_finger_present(true);
    assert!(lock.field_disabled());
    lock.set_finger_present(false);
    assert!(!lock.field_disabled());
    lock.submit("secret".to_string());
    assert!(lock.field_disabled());
}
