use launch::escape::unescape;
use launch::polkit::{
    begin_conversation, converse, ellipsize_middle, line_to_send, placeholder, read_line, select_uid, shown_message, split_command,
    window_action, AgentEvent, DialogChange, Heard, HelperLine, Identity, PolkitAgent, PolkitDialog,
    PolkitError, ShownMessage, Turn, WindowAction,
};

fn text(s: &str) -> Option<String> {
    Some(s.to_string())
}

#[test]
fn escapes_are_undone() {
    assert_eq!(unescape("plain"), "plain");
    assert_eq!(unescape("a\\nb\\tc\\\\d\\\"e"), "a\nb\tc\\d\"e");
    assert_eq!(unescape("\\r\\b\\f\\v"), "\r\u{8}\u{c}\u{b}");
    assert_eq!(unescape("\\101\\1x\\x"), "A\u{1}xx");
    assert_eq!(unescape("end\\"), "end\\");
    // Escaped bytes are bytes of text.
    assert_eq!(unescape("Contrase\\303\\261a"), "Contraseña");
}

#[test]
fn helper_lines_are_read() {
    assert!(matches!(
        read_line("PAM_PROMPT_ECHO_OFF Password: "),
        HelperLine::Prompt { prompt, echo: false } if prompt == "Password: "
    ));
    assert!(matches!(read_line("PAM_PROMPT_ECHO_ON Code:"), HelperLine::Prompt { echo: true, .. }));
    assert!(matches!(read_line("PAM_ERROR_MSG no\\ngood"), HelperLine::Error { message } if message == "no\ngood"));
    assert!(matches!(read_line("PAM_TEXT_INFO touch"), HelperLine::Info { message } if message == "touch"));
    assert!(matches!(read_line("PAM_ERROR_MSG"), HelperLine::Ignore));
    assert!(matches!(read_line("SUCCESS"), HelperLine::Success));
    assert!(matches!(read_line("FAILURE"), HelperLine::Failure));
    assert!(matches!(read_line("WHATEVER x"), HelperLine::Ignore));
}

fn line(s: &str) -> Turn {
    converse(Heard::Line(s.to_string()))
}

#[test]
fn only_a_success_authorizes() {
    assert!(matches!(line("SUCCESS"), Turn::Over(Ok(()))));
    assert!(matches!(line("FAILURE"), Turn::Over(Err(PolkitError::Failed))));
    assert!(matches!(line("HELLO"), Turn::Listen));
    assert!(matches!(line("PAM_PROMPT_ECHO_ON Code:"), Turn::Ask { prompt, echo: true } if prompt == "Code:"));
    assert!(matches!(line("PAM_ERROR_MSG bad"), Turn::ShowError(t) if t == "bad"));
    assert!(matches!(line("PAM_TEXT_INFO touch"), Turn::ShowInfo(t) if t == "touch"));
    assert!(matches!(converse(Heard::Lost), Turn::Over(Err(PolkitError::Failed))));
    assert!(matches!(converse(Heard::Secret("s".to_string())), Turn::Send(b) if b == b"s\n"));
    assert!(matches!(begin_conversation("kéks"), Turn::Send(b) if b == "kéks\n".as_bytes()));
    assert_eq!(line_to_send(""), vec![10]);
    assert!(matches!(converse(Heard::Dropped), Turn::Over(Err(PolkitError::Cancelled))));
    assert!(matches!(converse(Heard::Cancelled), Turn::Over(Err(PolkitError::Cancelled))));
    assert!(matches!(converse(Heard::Undeliverable), Turn::Over(Err(PolkitError::Failed))));
}

fn identity(kind: &str, uid: Option<u32>) -> Identity {
    Identity { kind: kind.to_string(), uid }
}

#[test]
fn the_own_user_is_preferred() {
    let list = vec![
        identity("unix-group", Some(1000)),
        identity("unix-user", None),
        identity("unix-user", Some(7)),
        identity("unix-user", Some(0)),
        identity("unix-user", Some(1000)),
    ];
    assert_eq!(select_uid(&list, 1000), Some(1000));
    assert_eq!(select_uid(&list, 5), Some(0));
    assert_eq!(select_uid(&vec![identity("unix-user", Some(7)), identity("unix-user", Some(8))], 5), Some(7));
    assert_eq!(select_uid(&vec![identity("unix-group", Some(0))], 0), None);
}

#[test]
fn one_authentication_runs_at_a_time() {
    let mut agent = PolkitAgent::new();
    assert_eq!(agent.begin_authentication("c1".to_string(), None), Err(PolkitError::Failed));
    assert_eq!(agent.begin_authentication("c1".to_string(), text("ada")), Ok("ada".to_string()));
    assert_eq!(agent.begin_authentication("c2".to_string(), text("ada")), Err(PolkitError::Failed));
    assert!(agent.cancels("c1"));
    assert!(!agent.cancels("c2"));
    agent.finish();
    assert!(!agent.cancels("c1"));
    assert!(agent.begin_authentication("c2".to_string(), text("ada")).is_ok());
}

#[test]
fn prompts_become_placeholders() {
    assert_eq!(placeholder(" Password: "), "Password");
    assert_eq!(placeholder("Code :: "), "Code");
    assert_eq!(placeholder(" : "), "Password");
}

#[test]
fn a_dialog_submits_once() {
    let mut dialog = PolkitDialog::new("do it".to_string());
    assert!(!dialog.can_submit());
    assert!(!dialog.submit());
    assert!(matches!(
        dialog.take_event(AgentEvent::Prompt { prompt: "Code:".to_string(), echo: true }),
        DialogChange::Asks { placeholder, masked: false } if placeholder == "Code"
    ));
    dialog.take_event(AgentEvent::Error { message: "wrong".to_string() });
    dialog.take_event(AgentEvent::Info { message: "touch".to_string() });
    assert!(dialog.can_submit());
    assert!(dialog.submit());
    assert!(dialog.submitting());
    assert!(dialog.error().is_none());
    assert_eq!(dialog.info().as_deref(), Some("touch"));
    assert!(!dialog.submit());
}

#[test]
fn a_closing_dialog_is_revived() {
    let mut dialog = PolkitDialog::new("one".to_string());
    dialog.set_error("wrong".to_string());
    assert!(matches!(dialog.take_event(AgentEvent::Close), DialogChange::Exits));
    assert!(matches!(dialog.take_event(AgentEvent::Close), DialogChange::Nothing));
    assert!(dialog.closing());
    let begin = AgentEvent::Begin { message: "two".to_string() };
    assert_eq!(window_action(&AgentEvent::Close, true), WindowAction::Deliver);
    assert_eq!(window_action(&begin, true), WindowAction::Deliver);
    dialog.take_event(begin);
    assert!(!dialog.closing());
    assert_eq!(dialog.message(), "two");
    assert!(dialog.error().is_none());
}

#[test]
fn a_closed_dialog_asks_nothing_until_it_begins_again() {
    let mut dialog = PolkitDialog::new("one".to_string());
    let prompt = || AgentEvent::Prompt { prompt: "Password:".to_string(), echo: false };
    dialog.take_event(AgentEvent::Close);
    assert!(matches!(dialog.take_event(prompt()), DialogChange::Nothing));
    dialog.take_event(AgentEvent::Error { message: "wrong".to_string() });
    dialog.take_event(AgentEvent::Info { message: "touch".to_string() });
    assert!(!dialog.can_submit());
    assert!(!dialog.submit());
    assert!(dialog.error().is_none());
    assert!(dialog.info().is_none());

    dialog.take_event(AgentEvent::Begin { message: "two".to_string() });
    assert!(matches!(dialog.take_event(prompt()), DialogChange::Asks { masked: true, .. }));
    assert!(dialog.submit());
}

#[test]
fn a_dialog_that_the_user_closed_still_hears_the_agent() {
    let mut dialog = PolkitDialog::new("one".to_string());
    assert!(dialog.start_exit());
    dialog.take_event(AgentEvent::Error { message: "wrong".to_string() });
    assert_eq!(dialog.error().as_deref(), Some("wrong"));
    assert!(matches!(dialog.take_event(AgentEvent::Close), DialogChange::Nothing));
    dialog.take_event(AgentEvent::Info { message: "touch".to_string() });
    assert!(dialog.info().is_none());
}

#[test]
fn only_a_beginning_opens_a_window() {
    assert_eq!(window_action(&AgentEvent::Begin { message: String::new() }, false), WindowAction::Open);
    assert_eq!(window_action(&AgentEvent::Info { message: String::new() }, false), WindowAction::Nothing);
    assert_eq!(window_action(&AgentEvent::Close, false), WindowAction::Nothing);
}

#[test]
fn commands_are_pulled_out() {
    assert_eq!(split_command("run `ls -l' now"), Some(("run ", "ls -l", " now")));
    assert_eq!(split_command("no command"), None);
    assert_eq!(split_command("open `only"), None);
    assert!(matches!(
        shown_message("run ` ls ' now"),
        ShownMessage::Command { before, command, after } if before == "run" && command == "ls" && after == "now"
    ));
    assert!(matches!(shown_message("plain "), ShownMessage::Plain(t) if t == "plain "));
}

#[test]
fn long_commands_keep_their_tail() {
    assert_eq!(ellipsize_middle("abcdef", 6), "abcdef");
    assert_eq!(ellipsize_middle("abcdefghijkl", 7), "ab…ijkl");
    assert_eq!(ellipsize_middle("ünïcödé", 4), "ü…dé");
    assert_eq!(ellipsize_middle("abc", 1), "…");
}
