//! Authorizing privileged actions: the conversation with the helper that talks
//! to PAM, the one attempt that runs at a time, and the dialog that asks.

use vstd::prelude::*;

use crate::escape::unescape;
use crate::text::{chars_of, find_from, same, string_between};
use crate::text::{trim, trim_end, trim_end_of, trim_start};

verus! {

/// The errors that an agent can answer with.
#[derive(Clone, Copy, Debug, PartialEq, Eq, Structural)]
pub enum PolkitError {
    Failed,
    Cancelled,
    NotSupported,
    NotAuthorized,
    CancellationIdNotUnique,
}

/// What a line from the helper asks for.
#[derive(Debug)]
pub enum HelperLine {
    /// A secret, under this prompt. `echo` is true for a visible one, such as a
    /// one-time code, and false for a password.
    Prompt { prompt: String, echo: bool },
    /// To show an error message.
    Error { message: String },
    /// To show an informational message, such as fingerprint instructions.
    Info { message: String },
    Success,
    Failure,
    /// Nothing.
    Ignore,
}

/// A [`HelperLine`] as a value.
pub enum HelperLineView {
    Prompt { prompt: Seq<char>, echo: bool },
    Error { message: Seq<char> },
    Info { message: Seq<char> },
    Success,
    Failure,
    Ignore,
}

impl View for HelperLine {
    type V = HelperLineView;

    open spec fn view(&self) -> HelperLineView {
        match self {
            HelperLine::Prompt { prompt, echo } => HelperLineView::Prompt {
                prompt: prompt@,
                echo: *echo,
            },
            HelperLine::Error { message } => HelperLineView::Error { message: message@ },
            HelperLine::Info { message } => HelperLineView::Info { message: message@ },
            HelperLine::Success => HelperLineView::Success,
            HelperLine::Failure => HelperLineView::Failure,
            HelperLine::Ignore => HelperLineView::Ignore,
        }
    }
}

/// What comes before the first space of a line.
pub open spec fn keyword(line: Seq<char>) -> Seq<char> {
    line.take(crate::text::index_from(line, 0, ' '))
}

/// What comes after the first space of a line; empty if it has none.
pub open spec fn text_of(line: Seq<char>) -> Seq<char> {
    let space = crate::text::index_from(line, 0, ' ');
    if space < line.len() {
        line.skip(space + 1)
    } else {
        Seq::empty()
    }
}

/// What a line, with its escaping reversed, asks for.
pub open spec fn request_in(line: Seq<char>) -> HelperLineView {
    let word = keyword(line);
    let text = text_of(line);
    if word == "PAM_PROMPT_ECHO_OFF"@ {
        HelperLineView::Prompt { prompt: text, echo: false }
    } else if word == "PAM_PROMPT_ECHO_ON"@ {
        HelperLineView::Prompt { prompt: text, echo: true }
    } else if word == "PAM_ERROR_MSG"@ {
        if text.len() > 0 {
            HelperLineView::Error { message: text }
        } else {
            HelperLineView::Ignore
        }
    } else if word == "PAM_TEXT_INFO"@ {
        if text.len() > 0 {
            HelperLineView::Info { message: text }
        } else {
            HelperLineView::Ignore
        }
    } else if word == "SUCCESS"@ {
        HelperLineView::Success
    } else if word == "FAILURE"@ {
        HelperLineView::Failure
    } else {
        HelperLineView::Ignore
    }
}

/// Reads a line from the helper.
pub fn read_line(line: &str) -> (r: HelperLine)
    ensures
        r@ == request_in(crate::escape::unescaped(line@)),
{
    let plain = unescape(line);
    let v = chars_of(&plain);
    let space = find_from(&v, 0, ' ');
    let word = string_between(&v, 0, space);
    assert(word@ =~= keyword(plain@));
    let text = if space < v.len() {
        string_between(&v, space + 1, v.len())
    } else {
        String::new()
    };
    assert(text@ =~= text_of(plain@));
    if same(&word, "PAM_PROMPT_ECHO_OFF") {
        HelperLine::Prompt { prompt: text, echo: false }
    } else if same(&word, "PAM_PROMPT_ECHO_ON") {
        HelperLine::Prompt { prompt: text, echo: true }
    } else if same(&word, "PAM_ERROR_MSG") {
        if text.as_str().is_empty() {
            HelperLine::Ignore
        } else {
            HelperLine::Error { message: text }
        }
    } else if same(&word, "PAM_TEXT_INFO") {
        if text.as_str().is_empty() {
            HelperLine::Ignore
        } else {
            HelperLine::Info { message: text }
        }
    } else if same(&word, "SUCCESS") {
        HelperLine::Success
    } else if same(&word, "FAILURE") {
        HelperLine::Failure
    } else {
        HelperLine::Ignore
    }
}

/// What the conversation hears from its surroundings.
#[derive(Debug)]
pub enum Heard {
    /// A line from the helper.
    Line(String),
    /// The helper closed the connection, or could not be read from.
    Lost,
    /// A secret from the dialog, in answer to a prompt.
    Secret(String),
    /// The dialog went away without answering.
    Dropped,
    /// A secret could not be passed on, or a prompt not be shown.
    Undeliverable,
    /// The attempt was cancelled.
    Cancelled,
}

/// A [`Heard`] as a value.
pub enum HeardView {
    Line(Seq<char>),
    Lost,
    Secret(Seq<char>),
    Dropped,
    Undeliverable,
    Cancelled,
}

impl View for Heard {
    type V = HeardView;

    open spec fn view(&self) -> HeardView {
        match self {
            Heard::Line(line) => HeardView::Line(line@),
            Heard::Lost => HeardView::Lost,
            Heard::Secret(secret) => HeardView::Secret(secret@),
            Heard::Dropped => HeardView::Dropped,
            Heard::Undeliverable => HeardView::Undeliverable,
            Heard::Cancelled => HeardView::Cancelled,
        }
    }
}

/// What the conversation does next.
#[derive(Debug)]
pub enum Turn {
    /// Wait for a line.
    Listen,
    /// Ask the dialog, then wait for its answer.
    Ask { prompt: String, echo: bool },
    /// Write these bytes to the helper, then wait for a line.
    Send(Vec<u8>),
    /// Show an error, then wait for a line.
    ShowError(String),
    /// Show some information, then wait for a line.
    ShowInfo(String),
    /// It is over.
    Over(Result<(), PolkitError>),
}

/// A [`Turn`] as a value.
pub enum TurnView {
    Listen,
    Ask { prompt: Seq<char>, echo: bool },
    Send(Seq<u8>),
    ShowError(Seq<char>),
    ShowInfo(Seq<char>),
    Over(Result<(), PolkitError>),
}

impl View for Turn {
    type V = TurnView;

    open spec fn view(&self) -> TurnView {
        match self {
            Turn::Listen => TurnView::Listen,
            Turn::Ask { prompt, echo } => TurnView::Ask { prompt: prompt@, echo: *echo },
            Turn::Send(bytes) => TurnView::Send(bytes@),
            Turn::ShowError(message) => TurnView::ShowError(message@),
            Turn::ShowInfo(message) => TurnView::ShowInfo(message@),
            Turn::Over(result) => TurnView::Over(*result),
        }
    }
}

/// A text as the helper is sent it: its bytes and a line break.
pub open spec fn sent_line(text: Seq<char>) -> Seq<u8> {
    vstd::utf8::encode_utf8(text).push(10u8)
}

/// The bytes that send a text to the helper; see [`sent_line`]. Over a socket, the name
/// of the user is sent this way before anything else.
pub fn line_to_send(text: &str) -> (r: Vec<u8>)
    ensures
        r@ == sent_line(text@),
{
    let mut bytes: Vec<u8> = text.as_bytes_vec();
    bytes.push(10);
    bytes
}

/// How a conversation begins: the cookie is sent.
pub fn begin_conversation(cookie: &str) -> (r: Turn)
    ensures
        r@ == TurnView::Send(sent_line(cookie@)),
{
    Turn::Send(line_to_send(cookie))
}

/// What is done about one thing that is heard.
pub open spec fn turn_of(heard: HeardView) -> TurnView {
    match heard {
        HeardView::Line(line) => match request_in(crate::escape::unescaped(line)) {
            HelperLineView::Prompt { prompt, echo } => TurnView::Ask { prompt, echo },
            HelperLineView::Error { message } => TurnView::ShowError(message),
            HelperLineView::Info { message } => TurnView::ShowInfo(message),
            HelperLineView::Success => TurnView::Over(Ok(())),
            HelperLineView::Failure => TurnView::Over(Err(PolkitError::Failed)),
            HelperLineView::Ignore => TurnView::Listen,
        },
        HeardView::Lost => TurnView::Over(Err(PolkitError::Failed)),
        HeardView::Secret(secret) => TurnView::Send(sent_line(secret)),
        HeardView::Dropped => TurnView::Over(Err(PolkitError::Cancelled)),
        HeardView::Undeliverable => TurnView::Over(Err(PolkitError::Failed)),
        HeardView::Cancelled => TurnView::Over(Err(PolkitError::Cancelled)),
    }
}

/// What the conversation does with what it hears: it relays prompts to the dialog
/// and answers back until the helper comes to a verdict.
pub fn converse(heard: Heard) -> (r: Turn)
    ensures
        r@ == turn_of(heard@),
{
    match heard {
        Heard::Line(line) => match read_line(&line) {
            HelperLine::Prompt { prompt, echo } => Turn::Ask { prompt, echo },
            HelperLine::Error { message } => Turn::ShowError(message),
            HelperLine::Info { message } => Turn::ShowInfo(message),
            HelperLine::Success => Turn::Over(Ok(())),
            HelperLine::Failure => Turn::Over(Err(PolkitError::Failed)),
            HelperLine::Ignore => Turn::Listen,
        },
        Heard::Lost => Turn::Over(Err(PolkitError::Failed)),
        Heard::Secret(secret) => Turn::Send(line_to_send(&secret)),
        Heard::Dropped => Turn::Over(Err(PolkitError::Cancelled)),
        Heard::Undeliverable => Turn::Over(Err(PolkitError::Failed)),
        Heard::Cancelled => Turn::Over(Err(PolkitError::Cancelled)),
    }
}

/// How a conversation has ended by the time that `n` things were heard, if it has: the
/// first turn that ends it counts.
pub open spec fn verdict(heard: Seq<HeardView>, n: int) -> Option<Result<(), PolkitError>>
    decreases n,
{
    if n <= 0 {
        None
    } else if verdict(heard, n - 1) is Some {
        verdict(heard, n - 1)
    } else {
        match turn_of(heard[n - 1]) {
            TurnView::Over(result) => Some(result),
            _ => None,
        }
    }
}

/// All that the helper is sent in a conversation in which `n` things were heard.
pub open spec fn written(cookie: Seq<char>, heard: Seq<HeardView>, n: int) -> Seq<u8>
    decreases n,
{
    if n <= 0 {
        sent_line(cookie)
    } else if verdict(heard, n - 1) is Some {
        written(cookie, heard, n - 1)
    } else {
        match turn_of(heard[n - 1]) {
            TurnView::Send(bytes) => written(cookie, heard, n - 1) + bytes,
            _ => written(cookie, heard, n - 1),
        }
    }
}

/// Whether something that is heard is a line with a prompt.
pub open spec fn prompts(heard: HeardView) -> bool {
    heard is Line && turn_of(heard) is Ask
}

/// Whether secrets are heard only in answer to prompts, as a conversation that follows
/// its turns hears them.
pub open spec fn in_turn(heard: Seq<HeardView>) -> bool {
    forall|i: int|
        0 <= i < heard.len() && (#[trigger] heard[i]) is Secret ==> i > 0 && prompts(heard[i - 1])
}

/// The secrets that answered the prompts among the first `n` things that were heard,
/// up to the end of the conversation, each as it is sent.
pub open spec fn answers(heard: Seq<HeardView>, n: int) -> Seq<u8>
    decreases n,
{
    if n <= 1 {
        Seq::empty()
    } else {
        match heard[n - 1] {
            HeardView::Secret(secret) => if verdict(heard, n - 1) is None && prompts(heard[n - 2]) {
                answers(heard, n - 1) + sent_line(secret)
            } else {
                answers(heard, n - 1)
            },
            _ => answers(heard, n - 1),
        }
    }
}

/// The helper is sent the cookie first, then the secret for each prompt that is
/// answered, in order, each on a line of its own, and nothing else.
pub proof fn law_cookie_and_answers_are_sent(cookie: Seq<char>, heard: Seq<HeardView>, n: int)
    requires
        in_turn(heard),
        0 <= n <= heard.len(),
    ensures
        written(cookie, heard, n) == sent_line(cookie) + answers(heard, n),
    decreases n,
{
    if n > 0 {
        law_cookie_and_answers_are_sent(cookie, heard, n - 1);
        let last = heard[n - 1];
        if let HeardView::Secret(secret) = last {
            assert(n - 1 > 0 && prompts(heard[n - 2]));
            assert(sent_line(cookie) + answers(heard, n - 1) + sent_line(secret)
                =~= sent_line(cookie) + (answers(heard, n - 1) + sent_line(secret)));
        }
    }
    assert(sent_line(cookie) + Seq::<u8>::empty() =~= sent_line(cookie));
}

/// Whether something that is heard is the helper's word that the user is authorized.
pub open spec fn succeeds(heard: HeardView) -> bool {
    heard matches HeardView::Line(line) && keyword(crate::escape::unescaped(line)) == "SUCCESS"@
}

/// A conversation ends with the first thing heard that ends one: with success on the
/// helper's word, as cancelled where the attempt or the dialog was, and as failed
/// otherwise. A line that is not known ends nothing.
pub proof fn law_first_end_decides(heard: Seq<HeardView>, n: int)
    requires
        0 <= n <= heard.len(),
    ensures
        verdict(heard, n) is None <==> forall|i: int|
            0 <= i < n ==> !(turn_of(#[trigger] heard[i]) is Over),
        verdict(heard, n) matches Some(result) ==> exists|k: int|
            0 <= k < n && turn_of(#[trigger] heard[k]) == TurnView::Over(result) && (forall|i: int|
                0 <= i < k ==> !(turn_of(#[trigger] heard[i]) is Over)),
        verdict(heard, n) == Some(Ok::<(), PolkitError>(())) <==> exists|k: int|
            0 <= k < n && succeeds(#[trigger] heard[k]) && (forall|i: int|
                0 <= i < k ==> !(turn_of(#[trigger] heard[i]) is Over)),
    decreases n,
{
    if n > 0 {
        law_first_end_decides(heard, n - 1);
        if verdict(heard, n - 1) is Some {
            let result = verdict(heard, n - 1)->0;
            let k = choose|k: int|
                0 <= k < n - 1 && turn_of(#[trigger] heard[k]) == TurnView::Over(result) && (
                forall|i: int| 0 <= i < k ==> !(turn_of(#[trigger] heard[i]) is Over));
            assert(turn_of(heard[k]) is Over);
        } else {
            assert(turn_of(heard[n - 1]) == turn_of(heard[n - 1]));
        }
    }
    assert forall|k: int| 0 <= k < n implies succeeds(#[trigger] heard[k]) == (turn_of(heard[k])
        == TurnView::Over(Ok::<(), PolkitError>(()))) by {
        if let HeardView::Line(line) = heard[k] {
            law_only_success_authorizes(crate::escape::unescaped(line));
        }
    }
    if exists|k: int|
        0 <= k < n && succeeds(#[trigger] heard[k]) && (forall|i: int|
            0 <= i < k ==> !(turn_of(#[trigger] heard[i]) is Over)) {
        let k = choose|k: int|
            0 <= k < n && succeeds(#[trigger] heard[k]) && (forall|i: int|
                0 <= i < k ==> !(turn_of(#[trigger] heard[i]) is Over));
        let result = verdict(heard, n)->0;
        let m = choose|m: int|
            0 <= m < n && turn_of(#[trigger] heard[m]) == TurnView::Over(result) && (forall|i: int|
                0 <= i < m ==> !(turn_of(#[trigger] heard[i]) is Over));
        assert(turn_of(heard[k]) is Over);
        assert(m == k);
    }
}

/// Authorization is given only on the helper's word: no line but one that reads
/// as a success ends the conversation with it.
pub proof fn law_only_success_authorizes(line: Seq<char>)
    ensures
        request_in(line) is Success <==> keyword(line) == "SUCCESS"@,
{
    reveal_strlit("PAM_PROMPT_ECHO_OFF");
    reveal_strlit("PAM_PROMPT_ECHO_ON");
    reveal_strlit("PAM_ERROR_MSG");
    reveal_strlit("PAM_TEXT_INFO");
    reveal_strlit("SUCCESS");
    assert("SUCCESS"@.len() == 7);
    assert("PAM_PROMPT_ECHO_OFF"@.len() == 19);
    assert("PAM_PROMPT_ECHO_ON"@.len() == 18);
    assert("PAM_ERROR_MSG"@.len() == 13);
    assert("PAM_TEXT_INFO"@.len() == 13);
}

/// Someone whose password would authorize an action.
#[derive(Debug)]
pub struct Identity {
    pub kind: String,
    /// The `uid` detail, where it is a number.
    pub uid: Option<u32>,
}

/// The user ids among the first `n` identities, in order.
pub open spec fn user_ids(identities: Seq<Identity>, n: int) -> Seq<u32>
    decreases n,
{
    if n <= 0 {
        Seq::empty()
    } else {
        let before = user_ids(identities, n - 1);
        match identities[n - 1].uid {
            Some(uid) => if identities[n - 1].kind@ == "unix-user"@ {
                before.push(uid)
            } else {
                before
            },
            None => before,
        }
    }
}

/// The user to authenticate as: oneself if possible, then root, then the first
/// that is offered.
pub open spec fn preferred(uids: Seq<u32>, own: u32) -> Option<u32> {
    if uids.contains(own) {
        Some(own)
    } else if uids.contains(0) {
        Some(0)
    } else if uids.len() > 0 {
        Some(uids[0])
    } else {
        None
    }
}

/// Whether a list holds a user id.
fn holds(uids: &Vec<u32>, uid: u32) -> (r: bool)
    ensures
        r == uids@.contains(uid),
{
    let mut i: usize = 0;
    while i < uids.len()
        invariant
            i <= uids@.len(),
            forall|j: int| 0 <= j < i ==> uids@[j] != uid,
        decreases uids@.len() - i,
    {
        if uids[i] == uid {
            return true;
        }
        i = i + 1;
    }
    false
}

/// Picks the user that the helper should authenticate; see [`preferred`].
pub fn select_uid(identities: &Vec<Identity>, own: u32) -> (r: Option<u32>)
    ensures
        r == preferred(user_ids(identities@, identities@.len() as int), own),
{
    let mut uids: Vec<u32> = Vec::new();
    for i in 0..identities.len()
        invariant
            uids@ == user_ids(identities@, i as int),
    {
        if let Some(uid) = identities[i].uid {
            if same(&identities[i].kind, "unix-user") {
                uids.push(uid);
            }
        }
    }
    if holds(&uids, own) {
        Some(own)
    } else if holds(&uids, 0) {
        Some(0)
    } else if uids.len() > 0 {
        Some(uids[0])
    } else {
        None
    }
}

/// The agent's side of things: at most one attempt at a time.
#[derive(Debug)]
pub struct PolkitAgent {
    /// The cookie of the attempt that is running.
    attempt: Option<String>,
}

impl PolkitAgent {
    /// The cookie of the attempt that is running.
    pub closed spec fn cookie(&self) -> Option<Seq<char>> {
        crate::text::opt_view(self.attempt)
    }

    pub fn new() -> (r: Self)
        ensures
            r.cookie() is None,
    {
        PolkitAgent { attempt: None }
    }

    /// Begins an attempt. Fails while another is running, or if there is nobody to
    /// authenticate.
    pub fn begin_authentication(&mut self, cookie: String, username: Option<String>) -> (r: Result<
        String,
        PolkitError,
    >)
        ensures
            match r {
                Ok(name) => {
                    &&& old(self).cookie() is None
                    &&& crate::text::opt_view(username) == Some(name@)
                    &&& final(self).cookie() == Some(cookie@)
                },
                Err(error) => {
                    &&& error == PolkitError::Failed
                    &&& old(self).cookie() is Some || username is None
                    &&& final(self).cookie() == old(self).cookie()
                },
            },
    {
        if self.attempt.is_some() {
            return Err(PolkitError::Failed);
        }
        match username {
            Some(name) => {
                self.attempt = Some(cookie);
                Ok(name)
            },
            None => Err(PolkitError::Failed),
        }
    }

    /// Takes in that the attempt is over.
    pub fn finish(&mut self)
        ensures
            final(self).cookie() is None,
    {
        self.attempt = None;
    }

    /// Whether a request to cancel is for the attempt that is running.
    pub fn cancels(&self, cookie: &str) -> (r: bool)
        ensures
            r == (self.cookie() == Some(cookie@)),
    {
        match &self.attempt {
            Some(current) => same(current, cookie),
            None => false,
        }
    }
}

/// What the dialog is waiting for.
#[derive(Clone, Copy, Debug, PartialEq, Eq, Structural)]
pub enum Phase {
    /// The first prompt from the helper.
    Waiting,
    /// A secret. `echo` says whether it is visible while it is typed.
    Prompt { echo: bool },
}

/// The dialog's state.
#[derive(Debug)]
pub struct PolkitDialog {
    message: String,
    prompt: String,
    /// Whether somebody is waiting for an answer.
    awaiting: bool,
    phase: Phase,
    error: Option<String>,
    info: Option<String>,
    submitting: bool,
    closing: bool,
    /// Whether the agent is done with the dialog, and told it to close.
    dismissed: bool,
}

/// The dialog's state as a value.
#[verifier::ext_equal]
pub struct PolkitDialogView {
    pub message: Seq<char>,
    pub prompt: Seq<char>,
    pub awaiting: bool,
    pub phase: Phase,
    pub error: Option<Seq<char>>,
    pub info: Option<Seq<char>>,
    pub submitting: bool,
    pub closing: bool,
    /// Whether the agent is done with the dialog, and told it to close.
    pub dismissed: bool,
}

impl View for PolkitDialog {
    type V = PolkitDialogView;

    closed spec fn view(&self) -> PolkitDialogView {
        PolkitDialogView {
            message: self.message@,
            prompt: self.prompt@,
            awaiting: self.awaiting,
            phase: self.phase,
            error: crate::text::opt_view(self.error),
            info: crate::text::opt_view(self.info),
            submitting: self.submitting,
            closing: self.closing,
            dismissed: self.dismissed,
        }
    }
}

/// The dialog at the start of an authentication.
pub open spec fn fresh(message: Seq<char>) -> PolkitDialogView {
    PolkitDialogView {
        message,
        prompt: Seq::empty(),
        awaiting: false,
        phase: Phase::Waiting,
        error: None,
        info: None,
        submitting: false,
        closing: false,
        dismissed: false,
    }
}

/// A dialog that closes: nothing more is asked of it. One that is closing already
/// stays as it is.
pub open spec fn exited(dialog: PolkitDialogView) -> PolkitDialogView {
    if dialog.closing {
        dialog
    } else {
        PolkitDialogView { closing: true, awaiting: false, ..dialog }
    }
}

/// The placeholder for a prompt: the prompt without its colon and the white space
/// around it, or `Password` if nothing is left.
pub open spec fn placeholder_of(prompt: Seq<char>) -> Seq<char> {
    let text = crate::text::trimmed(
        crate::text::trimmed_end_of(crate::text::trimmed(prompt), ':'),
    );
    if text.len() == 0 {
        "Password"@
    } else {
        text
    }
}

/// The placeholder for a prompt; see [`placeholder_of`].
pub fn placeholder(prompt: &str) -> (r: String)
    ensures
        r@ == placeholder_of(prompt@),
{
    let bare = trim(prompt);
    let v = chars_of(&bare);
    let to = trim_end_of(&v, ':');
    let front = string_between(&v, 0, to);
    assert(front@ =~= v@.take(to as int));
    let text = trim(&front);
    if text.as_str().is_empty() {
        "Password".to_owned()
    } else {
        text
    }
}

impl PolkitDialog {
    pub fn new(message: String) -> (r: Self)
        ensures
            r@ == fresh(message@),
    {
        PolkitDialog {
            message,
            prompt: String::new(),
            awaiting: false,
            phase: Phase::Waiting,
            error: None,
            info: None,
            submitting: false,
            closing: false,
            dismissed: false,
        }
    }

    /// Resets the dialog for a fresh authentication, reviving it if it was on its
    /// way out.
    pub fn begin(&mut self, message: String)
        ensures
            final(self)@ == fresh(message@),
    {
        self.message = message;
        self.prompt = String::new();
        self.awaiting = false;
        self.phase = Phase::Waiting;
        self.error = None;
        self.info = None;
        self.submitting = false;
        self.closing = false;
        self.dismissed = false;
    }

    /// Asks for a secret. Gives back the placeholder for the field, which is
    /// emptied.
    pub fn set_prompt(&mut self, prompt: String, echo: bool) -> (r: String)
        ensures
            final(self)@ == (PolkitDialogView {
                phase: Phase::Prompt { echo },
                prompt: prompt@,
                awaiting: true,
                submitting: false,
                ..old(self)@
            }),
            r@ == placeholder_of(prompt@),
    {
        let text = placeholder(&prompt);
        self.phase = Phase::Prompt { echo };
        self.prompt = prompt;
        self.awaiting = true;
        self.submitting = false;
        text
    }

    pub fn set_error(&mut self, message: String)
        ensures
            final(self)@ == (PolkitDialogView { error: Some(message@), ..old(self)@ }),
    {
        self.error = Some(message);
    }

    pub fn set_info(&mut self, message: String)
        ensures
            final(self)@ == (PolkitDialogView { info: Some(message@), ..old(self)@ }),
    {
        self.info = Some(message);
    }

    /// Submits what was typed. Says whether it goes out, and the field is emptied:
    /// only if somebody is waiting for it, and only once.
    pub fn submit(&mut self) -> (r: bool)
        ensures
            r == (old(self)@.awaiting && !old(self)@.submitting),
            final(self)@ == (if r {
                PolkitDialogView { awaiting: false, submitting: true, error: None, ..old(self)@ }
            } else {
                old(self)@
            }),
    {
        if self.submitting || !self.awaiting {
            return false;
        }
        self.awaiting = false;
        self.submitting = true;
        self.error = None;
        true
    }

    /// Starts closing the dialog. Says whether it was not closing already.
    pub fn start_exit(&mut self) -> (r: bool)
        ensures
            r == !old(self)@.closing,
            final(self)@ == exited(old(self)@),
    {
        if self.closing {
            return false;
        }
        self.closing = true;
        self.awaiting = false;
        true
    }

    /// Whether the field is shown and can be submitted.
    pub fn can_submit(&self) -> (r: bool)
        ensures
            r == (self@.phase is Prompt && !self@.submitting),
    {
        !self.submitting && match self.phase {
            Phase::Prompt { .. } => true,
            Phase::Waiting => false,
        }
    }

    pub fn closing(&self) -> (r: bool)
        ensures
            r == self@.closing,
    {
        self.closing
    }

    pub fn submitting(&self) -> (r: bool)
        ensures
            r == self@.submitting,
    {
        self.submitting
    }

    pub fn message(&self) -> (r: &String)
        ensures
            r@ == self@.message,
    {
        &self.message
    }

    pub fn error(&self) -> (r: &Option<String>)
        ensures
            crate::text::opt_view(*r) == self@.error,
    {
        &self.error
    }

    pub fn info(&self) -> (r: &Option<String>)
        ensures
            crate::text::opt_view(*r) == self@.info,
    {
        &self.info
    }
}

/// Where the command that a message quotes as `` `cmd' `` stands: from behind its
/// opening quote up to its closing one.
pub open spec fn command_span(message: Seq<char>) -> Option<(int, int)> {
    let open = crate::text::index_from(message, 0, '`');
    let close = crate::text::index_from(message, open + 1, '\'');
    if open < message.len() && close < message.len() {
        Some((open + 1, close))
    } else {
        None
    }
}

/// Splits a message around a command quoted as `` `cmd' ``, returning what comes
/// before it, the command, and what comes after it. Nothing if no such command
/// is present.
pub fn split_command<'a>(message: &'a str) -> (r: Option<(&'a str, &'a str, &'a str)>)
    ensures
        match command_span(message@) {
            Some((from, to)) => r matches Some((before, command, after)) && before@
                == message@.take(from - 1) && command@ == message@.subrange(from, to) && after@
                == message@.skip(to + 1),
            None => r is None,
        },
{
    let v = chars_of(message);
    let n: usize = v.len();
    let open = find_from(&v, 0, '`');
    if open == n {
        return None;
    }
    let close = find_from(&v, open + 1, '\'');
    if close == n {
        return None;
    }
    let before = message.substring_char(0, open);
    let command = message.substring_char(open + 1, close);
    let after = message.substring_char(close + 1, n);
    assert(before@ =~= message@.take(open as int));
    assert(after@ =~= message@.skip(close + 1));
    Some((before, command, after))
}

/// Splitting a message loses nothing: the parts with the quotes between them are
/// the message.
pub proof fn law_split_parts_rejoin(message: Seq<char>)
    ensures
        command_span(message) matches Some((from, to)) ==> 1 <= from <= to < message.len()
            && message == message.take(from - 1) + seq!['`'] + message.subrange(from, to) + seq!['\'']
            + message.skip(to + 1),
{
    let open = crate::text::index_from(message, 0, '`');
    crate::text::lemma_index_from(message, 0, '`');
    if open < message.len() {
        crate::text::lemma_index_from(message, open + 1, '\'');
        if command_span(message) is Some {
            let close = crate::text::index_from(message, open + 1, '\'');
            assert(message =~= message.take(open) + seq!['`'] + message.subrange(open + 1, close)
                + seq!['\''] + message.skip(close + 1));
        }
    }
}

/// How many characters are kept of the end of a text that is shortened to
/// `max_chars`: two thirds of what the ellipsis leaves.
pub open spec fn kept_tail(max_chars: int) -> int {
    if max_chars > 0 {
        ((max_chars - 1) * 2) / 3
    } else {
        0
    }
}

/// How many characters are kept of the start.
pub open spec fn kept_head(max_chars: int) -> int {
    if max_chars > 0 {
        max_chars - 1 - kept_tail(max_chars)
    } else {
        0
    }
}

/// A text shortened to at most `max_chars` by dropping the middle and putting an
/// ellipsis there, keeping more of the end than of the start.
pub open spec fn ellipsized(text: Seq<char>, max_chars: int) -> Seq<char> {
    if text.len() <= max_chars {
        text
    } else {
        text.take(kept_head(max_chars)) + seq!['\u{2026}'] + text.skip(
            text.len() - kept_tail(max_chars),
        )
    }
}

/// Shortens a text; see [`ellipsized`].
pub fn ellipsize_middle(text: &str, max_chars: usize) -> (r: String)
    ensures
        r@ == ellipsized(text@, max_chars as int),
{
    let v = chars_of(text);
    let count: usize = v.len();
    if count <= max_chars {
        return text.to_owned();
    }
    let budget: usize = if max_chars > 0 {
        max_chars - 1
    } else {
        0
    };
    let tail: usize = ((budget as u128 * 2) / 3) as usize;
    let head: usize = budget - tail;
    let mut out = string_between(&v, 0, head);
    out.push('\u{2026}');
    let end = string_between(&v, count - tail, count);
    out.append(&end);
    assert(out@ =~= ellipsized(text@, max_chars as int));
    out
}

/// A shortened text fits, if there is room for the ellipsis at all, and it starts
/// and ends the way that the text does.
pub proof fn law_ellipsized_fits(text: Seq<char>, max_chars: int)
    requires
        max_chars >= 1,
    ensures
        ellipsized(text, max_chars).len() <= max_chars,
        text.len() > max_chars ==> ellipsized(text, max_chars).len() == max_chars,
        text.len() > max_chars ==> kept_head(max_chars) <= kept_tail(max_chars) + 1,
{
}

/// A message as the dialog shows it.
#[derive(Debug)]
pub enum ShownMessage {
    Plain(String),
    /// With a command pulled out of it and shortened. What comes before and after
    /// may be empty.
    Command { before: String, command: String, after: String },
}

/// The most characters of a command that are shown.
pub const COMMAND_CHARS: usize = 40;

/// Prepares a message for being shown. A command that it quotes is typically a
/// long path whose meaningful end has to stay visible, so it is pulled out and
/// shortened in the middle.
pub fn shown_message(message: &str) -> (r: ShownMessage)
    ensures
        match command_span(message@) {
            Some((from, to)) => r matches ShownMessage::Command { before, command, after }
                && before@ == crate::text::trimmed_end(message@.take(from - 1)) && command@
                == ellipsized(
                crate::text::trimmed(message@.subrange(from, to)),
                COMMAND_CHARS as int,
            ) && after@ == crate::text::trimmed_start(message@.skip(to + 1)),
            None => r matches ShownMessage::Plain(text) && text@ == message@,
        },
        r matches ShownMessage::Command { before, command, after } ==> command@.len() <= 40,
{
    match split_command(message) {
        Some((before, command, after)) => {
            let bare = trim(command);
            ShownMessage::Command {
                before: trim_end(before),
                command: ellipsize_middle(&bare, COMMAND_CHARS),
                after: trim_start(after),
            }
        },
        None => ShownMessage::Plain(message.to_owned()),
    }
}

/// What the agent tells the dialog.
#[derive(Debug)]
pub enum AgentEvent {
    /// An authentication begins.
    Begin { message: String },
    /// The helper asks for a secret. `echo` says that what is typed may be seen.
    Prompt { prompt: String, echo: bool },
    /// An error message, such as one on a failed attempt before.
    Error { message: String },
    /// An informational message, such as what to do with the fingerprint reader.
    Info { message: String },
    /// The authentication is over, however it ended.
    Close,
}

/// What happens to the dialog's window.
#[derive(Clone, Copy, Debug, PartialEq, Eq, Structural)]
pub enum WindowAction {
    Nothing,
    /// The dialog in the window takes the event.
    Deliver,
    /// A window is opened, with a dialog of its own.
    Open,
}

/// What an event of the agent does to the dialog's window. `open` says whether
/// there is one that still responds. One that is closing does until it is gone: a
/// dialog that is asked for again by then, as after a wrong password, comes back in
/// the window it had.
pub open spec fn window_action_of(event: AgentEvent, open: bool) -> WindowAction {
    if open {
        WindowAction::Deliver
    } else if event is Begin {
        WindowAction::Open
    } else {
        WindowAction::Nothing
    }
}

/// Decides what happens to the dialog's window; see [`window_action_of`].
pub fn window_action(event: &AgentEvent, open: bool) -> (r: WindowAction)
    ensures
        r == window_action_of(*event, open),
{
    if open {
        return WindowAction::Deliver;
    }
    match event {
        AgentEvent::Begin { .. } => WindowAction::Open,
        _ => WindowAction::Nothing,
    }
}

/// Whether a dialog lets an event pass: one that the agent is done with has nothing to
/// ask or to show until an authentication begins again.
pub open spec fn passed_over(dialog: PolkitDialogView, event: AgentEvent) -> bool {
    dialog.dismissed && (event is Prompt || event is Error || event is Info)
}

/// What an event does to the dialog that takes it.
pub open spec fn taken(dialog: PolkitDialogView, event: AgentEvent) -> PolkitDialogView {
    match event {
        _ if passed_over(dialog, event) => dialog,
        AgentEvent::Begin { message } => fresh(message@),
        AgentEvent::Prompt { prompt, echo } => PolkitDialogView {
            phase: Phase::Prompt { echo },
            prompt: prompt@,
            awaiting: true,
            submitting: false,
            ..dialog
        },
        AgentEvent::Error { message } => PolkitDialogView { error: Some(message@), ..dialog },
        AgentEvent::Info { message } => PolkitDialogView { info: Some(message@), ..dialog },
        AgentEvent::Close => PolkitDialogView { dismissed: true, ..exited(dialog) },
    }
}

/// What an event asks of the window around the dialog.
#[derive(Debug)]
pub enum DialogChange {
    Nothing,
    /// The field is emptied and shown, with this placeholder, masked or not.
    Asks { placeholder: String, masked: bool },
    /// The timer that closes the window is started.
    Exits,
}

impl PolkitDialog {
    /// Takes an event of the agent.
    pub fn take_event(&mut self, event: AgentEvent) -> (r: DialogChange)
        ensures
            final(self)@ == taken(old(self)@, event),
            match event {
                _ if passed_over(old(self)@, event) => r == DialogChange::Nothing,
                AgentEvent::Prompt { prompt, echo } => r matches DialogChange::Asks {
                    placeholder,
                    masked,
                } && placeholder@ == placeholder_of(prompt@) && masked == !echo,
                AgentEvent::Close => r == (if old(self)@.closing {
                    DialogChange::Nothing
                } else {
                    DialogChange::Exits
                }),
                _ => r == DialogChange::Nothing,
            },
    {
        if self.dismissed {
            match event {
                AgentEvent::Begin { .. } | AgentEvent::Close => {},
                _ => return DialogChange::Nothing,
            }
        }
        match event {
            AgentEvent::Begin { message } => {
                self.begin(message);
                DialogChange::Nothing
            },
            AgentEvent::Prompt { prompt, echo } => {
                let placeholder = self.set_prompt(prompt, echo);
                DialogChange::Asks { placeholder, masked: !echo }
            },
            AgentEvent::Error { message } => {
                self.set_error(message);
                DialogChange::Nothing
            },
            AgentEvent::Info { message } => {
                self.set_info(message);
                DialogChange::Nothing
            },
            AgentEvent::Close => {
                self.dismissed = true;
                if self.start_exit() {
                    DialogChange::Exits
                } else {
                    DialogChange::Nothing
                }
            },
        }
    }
}

/// A dialog that was told to close asks nothing and shows nothing new, whatever comes,
/// until an authentication begins again.
pub proof fn law_closed_dialogs_stay_quiet(dialog: PolkitDialogView, event: AgentEvent)
    requires
        !(event is Begin),
    ensures
        taken(taken(dialog, AgentEvent::Close), event) == taken(dialog, AgentEvent::Close),
{
}

/// A dialog that is asked for again while it is closing is revived: it is as one
/// that was just opened, and nothing of the attempt before shows in it.
pub proof fn law_reopening_revives(dialog: PolkitDialogView, message: String)
    ensures
        window_action_of(AgentEvent::Close, true) == WindowAction::Deliver,
        window_action_of(AgentEvent::Begin { message }, true) == WindowAction::Deliver,
        taken(taken(dialog, AgentEvent::Close), AgentEvent::Begin { message }) == fresh(message@),
{
}

/// A line of the helper is a word, a space and a text. The word says what is wanted and the
/// text, all of it, is what is shown: a prompt that hides the answer, a prompt that shows it,
/// an error or a piece of information.
pub proof fn law_requests_are_read(text: Seq<char>)
    ensures
        request_in("PAM_PROMPT_ECHO_OFF"@ + seq![' '] + text) == (HelperLineView::Prompt {
            prompt: text,
            echo: false,
        }),
        request_in("PAM_PROMPT_ECHO_ON"@ + seq![' '] + text) == (HelperLineView::Prompt {
            prompt: text,
            echo: true,
        }),
        text.len() > 0 ==> request_in("PAM_ERROR_MSG"@ + seq![' '] + text) == (
        HelperLineView::Error { message: text }),
        text.len() > 0 ==> request_in("PAM_TEXT_INFO"@ + seq![' '] + text) == (
        HelperLineView::Info { message: text }),
        text.len() == 0 ==> request_in("PAM_ERROR_MSG"@ + seq![' '] + text) is Ignore
            && request_in("PAM_TEXT_INFO"@ + seq![' '] + text) is Ignore,
        request_in("SUCCESS"@ + seq![' '] + text) is Success,
        request_in("FAILURE"@ + seq![' '] + text) is Failure,
{
    lemma_words();
    lemma_word_and_text("PAM_PROMPT_ECHO_OFF"@, text);
    lemma_word_and_text("PAM_PROMPT_ECHO_ON"@, text);
    lemma_word_and_text("PAM_ERROR_MSG"@, text);
    lemma_word_and_text("PAM_TEXT_INFO"@, text);
    lemma_word_and_text("SUCCESS"@, text);
    lemma_word_and_text("FAILURE"@, text);
}

/// A word that stands alone wants what it wants of an empty text.
pub proof fn law_bare_words_are_read()
    ensures
        request_in("SUCCESS"@) is Success,
        request_in("FAILURE"@) is Failure,
        request_in("PAM_PROMPT_ECHO_OFF"@) == (HelperLineView::Prompt {
            prompt: Seq::empty(),
            echo: false,
        }),
        request_in("PAM_PROMPT_ECHO_ON"@) == (HelperLineView::Prompt {
            prompt: Seq::empty(),
            echo: true,
        }),
        request_in("PAM_ERROR_MSG"@) is Ignore,
        request_in("PAM_TEXT_INFO"@) is Ignore,
{
    lemma_words();
    lemma_word_alone("PAM_PROMPT_ECHO_OFF"@);
    lemma_word_alone("PAM_PROMPT_ECHO_ON"@);
    lemma_word_alone("PAM_ERROR_MSG"@);
    lemma_word_alone("PAM_TEXT_INFO"@);
    lemma_word_alone("SUCCESS"@);
    lemma_word_alone("FAILURE"@);
}

/// A line whose word is none of these is passed over.
pub proof fn law_other_words_are_passed_over(word: Seq<char>, text: Seq<char>)
    requires
        !word.contains(' '),
        word != "PAM_PROMPT_ECHO_OFF"@,
        word != "PAM_PROMPT_ECHO_ON"@,
        word != "PAM_ERROR_MSG"@,
        word != "PAM_TEXT_INFO"@,
        word != "SUCCESS"@,
        word != "FAILURE"@,
    ensures
        request_in(word + seq![' '] + text) is Ignore,
        request_in(word) is Ignore,
{
    lemma_word_and_text(word, text);
    lemma_word_alone(word);
}

proof fn lemma_word_and_text(word: Seq<char>, text: Seq<char>)
    requires
        !word.contains(' '),
    ensures
        keyword(word + seq![' '] + text) == word,
        text_of(word + seq![' '] + text) == text,
{
    crate::text::law_first_place_is_found(word, ' ', text);
    let line = word + seq![' '] + text;
    assert(line.take(word.len() as int) =~= word);
    assert(line.skip(word.len() as int + 1) =~= text);
}

proof fn lemma_word_alone(word: Seq<char>)
    requires
        !word.contains(' '),
    ensures
        keyword(word) == word,
        text_of(word) == Seq::<char>::empty(),
{
    crate::text::law_first_place_is_found(word, ' ', Seq::empty());
    assert(word.take(word.len() as int) =~= word);
}

proof fn lemma_words()
    ensures
        !"PAM_PROMPT_ECHO_OFF"@.contains(' '),
        !"PAM_PROMPT_ECHO_ON"@.contains(' '),
        !"PAM_ERROR_MSG"@.contains(' '),
        !"PAM_TEXT_INFO"@.contains(' '),
        !"SUCCESS"@.contains(' '),
        !"FAILURE"@.contains(' '),
        "PAM_PROMPT_ECHO_OFF"@.len() == 19,
        "PAM_PROMPT_ECHO_ON"@.len() == 18,
        "PAM_ERROR_MSG"@.len() == 13,
        "PAM_TEXT_INFO"@.len() == 13,
        "SUCCESS"@.len() == 7,
        "FAILURE"@.len() == 7,
        "PAM_ERROR_MSG"@[4] != "PAM_TEXT_INFO"@[4],
        "SUCCESS"@[0] != "FAILURE"@[0],
{
    reveal_strlit("PAM_PROMPT_ECHO_OFF");
    reveal_strlit("PAM_PROMPT_ECHO_ON");
    reveal_strlit("PAM_ERROR_MSG");
    reveal_strlit("PAM_TEXT_INFO");
    reveal_strlit("SUCCESS");
    reveal_strlit("FAILURE");
}

/// What is sent is the text and a line feed after it.
pub proof fn law_lines_are_sent_whole(text: Seq<char>)
    ensures
        sent_line(text).last() == 10,
        sent_line(text).drop_last() == vstd::utf8::encode_utf8(text),
{
    assert(sent_line(text).drop_last() =~= vstd::utf8::encode_utf8(text));
}

/// The helper's own words steer the conversation: it asks, tells or ends it. A secret goes to
/// the helper. Giving up ends the conversation as cancelled, losing the helper as failed.
pub proof fn law_every_turn_is_taken(line: Seq<char>, secret: Seq<char>)
    ensures
        turn_of(HeardView::Secret(secret)) == TurnView::Send(sent_line(secret)),
        turn_of(HeardView::Dropped) == TurnView::Over(Err(PolkitError::Cancelled)),
        turn_of(HeardView::Cancelled) == TurnView::Over(Err(PolkitError::Cancelled)),
        turn_of(HeardView::Lost) == TurnView::Over(Err(PolkitError::Failed)),
        turn_of(HeardView::Undeliverable) == TurnView::Over(Err(PolkitError::Failed)),
        ({
            let request = request_in(crate::escape::unescaped(line));
            let turn = turn_of(HeardView::Line(line));
            &&& request is Success <==> turn == TurnView::Over(Ok(()))
            &&& request is Failure <==> turn == TurnView::Over(Err(PolkitError::Failed))
            &&& request is Ignore <==> turn is Listen
            &&& request matches HelperLineView::Prompt { prompt, echo } ==> turn == (
            TurnView::Ask { prompt, echo })
            &&& request matches HelperLineView::Error { message } ==> turn
                == TurnView::ShowError(message)
            &&& request matches HelperLineView::Info { message } ==> turn == TurnView::ShowInfo(
                message,
            )
        }),
{
}

/// The users that may authorize are the unix users among the identities that say who they
/// are, in their order.
pub proof fn law_users_are_collected(identities: Seq<Identity>, n: int, uid: u32)
    requires
        0 <= n <= identities.len(),
    ensures
        user_ids(identities, n).contains(uid) <==> exists|i: int|
            0 <= i < n && (#[trigger] identities[i]).kind@ == "unix-user"@ && identities[i].uid
                == Some(uid),
    decreases n,
{
    if n > 0 {
        law_users_are_collected(identities, n - 1, uid);
        let before = user_ids(identities, n - 1);
        let all = user_ids(identities, n);
        let last = identities[n - 1];
        if before.contains(uid) {
            let k = choose|k: int| 0 <= k < before.len() && before[k] == uid;
            assert(all[k] == uid);
        }
        if last.kind@ == "unix-user"@ && last.uid == Some(uid) {
            assert(all[before.len() as int] == uid);
        }
        if all.contains(uid) {
            let k = choose|k: int| 0 <= k < all.len() && all[k] == uid;
            if k < before.len() {
                assert(before[k] == uid);
            } else {
                assert(identities[n - 1].uid == Some(uid));
            }
        }
    }
}

/// The one who asks authorizes for themself where they may, else the administrator, else
/// whoever is named first; without anyone there is nobody to ask.
pub proof fn law_whom_to_ask(uids: Seq<u32>, own: u32)
    ensures
        preferred(uids, own) is None <==> uids.len() == 0,
        preferred(uids, own) matches Some(uid) ==> uids.contains(uid),
        uids.contains(own) ==> preferred(uids, own) == Some(own),
        !uids.contains(own) && uids.contains(0) ==> preferred(uids, own) == Some(0u32),
        uids.len() > 0 && !uids.contains(own) && !uids.contains(0) ==> preferred(uids, own)
            == Some(uids[0]),
{
    if uids.len() > 0 {
        assert(uids.contains(uids[0]));
    }
}

/// The prompt stands in the empty field without the colons and the white space at its ends.
pub proof fn law_placeholders_lose_their_colon(
    before: Seq<char>,
    label: Seq<char>,
    colons: nat,
    after: Seq<char>,
)
    requires
        crate::text::all_white(before),
        crate::text::all_white(after),
        label.len() > 0,
        !crate::text::white_space(label[0]),
        !crate::text::white_space(label.last()),
        label.last() != ':',
    ensures
        placeholder_of(before + (label + Seq::new(colons, |i: int| ':')) + after) == label,
{
    let tail = Seq::new(colons, |i: int| ':');
    let text = label + tail;
    assert(text.last() == label.last() || text.last() == ':');
    crate::text::law_trimming_takes_only_the_ends(before, text, after);
    crate::text::law_trailing_characters_go(label, ':', colons);
    crate::text::law_trimming_takes_only_the_ends(Seq::empty(), label, Seq::empty());
    assert(Seq::<char>::empty() + label + Seq::<char>::empty() =~= label);
}

/// A prompt that says nothing asks for a password.
pub proof fn law_empty_prompts_ask_for_a_password(prompt: Seq<char>)
    requires
        crate::text::all_white(prompt),
    ensures
        placeholder_of(prompt) == "Password"@,
{
    crate::text::law_white_space_trims_to_nothing(prompt);
    let bare = crate::text::trimmed(prompt);
    assert(bare =~= Seq::<char>::empty());
    crate::text::law_white_space_trims_to_nothing(Seq::empty());
}

/// The command in a message is what stands between the first backquote and the first
/// apostrophe after it.
pub proof fn law_commands_stand_between_quotes(
    before: Seq<char>,
    command: Seq<char>,
    after: Seq<char>,
)
    requires
        !before.contains('`'),
        !command.contains('\''),
    ensures
        ({
            let message = before + seq!['`'] + command + seq!['\''] + after;
            &&& command_span(message) matches Some((from, to))
            &&& message.take(from - 1) == before
            &&& message.subrange(from, to) == command
            &&& message.skip(to + 1) == after
        }),
        command_span(before) is None,
        command_span(before + seq!['`'] + command) is None,
{
    let message = before + seq!['`'] + command + seq!['\''] + after;
    let open = before + seq!['`'] + command;
    let n = before.len() as int;
    let m = command.len() as int;
    assert forall|i: int| 0 <= i < n implies message[i] != '`' && open[i] != '`' && before[i]
        != '`' by {
        assert(before.contains(before[i]));
    }
    assert forall|i: int| n < i < n + 1 + m implies message[i] != '\'' && open[i] != '\'' by {
        assert(command.contains(command[i - n - 1]));
    }
    crate::text::lemma_index_from_is(message, 0, '`', n);
    crate::text::lemma_index_from_is(message, n + 1, '\'', n + 1 + m);
    crate::text::lemma_index_from_is(open, 0, '`', n);
    crate::text::lemma_index_from_is(open, n + 1, '\'', n + 1 + m);
    crate::text::lemma_index_from_is(before, 0, '`', n);
    assert(message.take(n) =~= before);
    assert(message.subrange(n + 1, n + 1 + m) =~= command);
    assert(message.skip(n + 2 + m) =~= after);
}

/// A text that fits is shown whole. One that does not keeps its two ends around one mark: two
/// thirds of the room, rounded down, for the end of it and the rest for its beginning.
pub proof fn law_ellipsis_keeps_both_ends(text: Seq<char>, max_chars: int)
    requires
        max_chars >= 1,
    ensures
        text.len() <= max_chars ==> ellipsized(text, max_chars) == text,
        text.len() > max_chars ==> ({
            let shown = ellipsized(text, max_chars);
            let head = kept_head(max_chars);
            let tail = kept_tail(max_chars);
            &&& 0 <= head && 0 <= tail && head + tail == max_chars - 1
            &&& 3 * tail <= 2 * (max_chars - 1) < 3 * tail + 3
            &&& shown[head] == '\u{2026}'
            &&& shown.take(head) == text.take(head)
            &&& shown.skip(head + 1) == text.skip(text.len() - tail)
        }),
{
    if text.len() > max_chars {
        let shown = ellipsized(text, max_chars);
        let head = kept_head(max_chars);
        let tail = kept_tail(max_chars);
        assert(shown.take(head) =~= text.take(head));
        assert(shown.skip(head + 1) =~= text.skip(text.len() - tail));
    }
}

/// A window that is open is told everything. One that is not opens for a new request and for
/// nothing else.
pub proof fn law_windows_open_for_requests(event: AgentEvent)
    ensures
        window_action_of(event, true) is Deliver,
        window_action_of(event, false) is Open <==> event is Begin,
        window_action_of(event, false) is Nothing <==> !(event is Begin),
{
}

/// What the agent tells an open dialog shows there: a prompt is asked and awaits its answer,
/// an error and a piece of information stand beside each other, and nothing else moves.
pub proof fn law_dialogs_show_what_they_are_told(
    dialog: PolkitDialogView,
    text: String,
    echo: bool,
)
    requires
        !dialog.dismissed,
    ensures
        ({
            let asked = taken(dialog, AgentEvent::Prompt { prompt: text, echo });
            &&& asked.phase == (Phase::Prompt { echo })
            &&& asked.prompt == text@
            &&& asked.awaiting && !asked.submitting
            &&& asked.error == dialog.error && asked.info == dialog.info
            &&& asked.message == dialog.message && asked.closing == dialog.closing
        }),
        taken(dialog, AgentEvent::Error { message: text }) == (PolkitDialogView {
            error: Some(text@),
            ..dialog
        }),
        taken(dialog, AgentEvent::Info { message: text }) == (PolkitDialogView {
            info: Some(text@),
            ..dialog
        }),
        ({
            let closed = taken(dialog, AgentEvent::Close);
            &&& closed.closing && closed.dismissed
            &&& !dialog.closing ==> !closed.awaiting
            &&& closed.message == dialog.message && closed.error == dialog.error
        }),
{
}

/// A new request starts with an empty dialog that carries its message.
pub proof fn law_requests_start_afresh(dialog: PolkitDialogView, message: String)
    ensures
        ({
            let begun = taken(dialog, AgentEvent::Begin { message });
            &&& begun.message == message@
            &&& begun.prompt.len() == 0 && begun.phase is Waiting
            &&& begun.error is None && begun.info is None
            &&& !begun.awaiting && !begun.submitting && !begun.closing && !begun.dismissed
        }),
{
}

/// Closing gives up the answer that was awaited, and closing twice is closing once.
pub proof fn law_closing_settles(dialog: PolkitDialogView)
    ensures
        exited(dialog).closing,
        !dialog.closing ==> !exited(dialog).awaiting,
        exited(exited(dialog)) == exited(dialog),
        exited(dialog).message == dialog.message,
        exited(dialog).dismissed == dialog.dismissed,
{
}

} // verus!
