//! The login screen's state, and what it does with each thing it hears: from the
//! login service, from the keyboard, and from the fingerprint sensor.
//!
//! The screen has no privileges of its own. Everything it knows arrives over the
//! socket, and everything it wants done is asked for there.

use vstd::prelude::*;

use crate::auth::{AuthFailure, AuthSource, AuthUser, FingerprintState};
use crate::auth::{AuthFailureView, AuthUserView};
use crate::text::same;

verus! {

/// First delay before reconnecting, in milliseconds, doubled on each failure up
/// to [`RETRY_MAX_MS`]. A login screen never stops trying: one that gives up is a
/// machine nobody can log into.
pub const RETRY_INITIAL_MS: u64 = 500;

/// The longest delay before reconnecting, in milliseconds.
pub const RETRY_MAX_MS: u64 = 5000;

/// What the screen is waiting for.
#[derive(Debug)]
pub enum Phase {
    /// Opening the socket and waiting to be told who can log in.
    Connecting,
    /// A user is selected and the service is listening. Typing is allowed.
    Ready,
    /// A password went out and no worker has answered.
    Verifying,
    /// The user was let in and the session is starting. There is no way back.
    Starting,
    /// The service cannot be reached. Nothing to type into.
    Unavailable(String),
}

/// A [`Phase`] as a value.
pub enum PhaseView {
    Connecting,
    Ready,
    Verifying,
    Starting,
    Unavailable(Seq<char>),
}

impl View for Phase {
    type V = PhaseView;

    open spec fn view(&self) -> PhaseView {
        match self {
            Phase::Connecting => PhaseView::Connecting,
            Phase::Ready => PhaseView::Ready,
            Phase::Verifying => PhaseView::Verifying,
            Phase::Starting => PhaseView::Starting,
            Phase::Unavailable(reason) => PhaseView::Unavailable(reason@),
        }
    }
}

/// What a failed worker does to the password field.
///
/// Getting this wrong is invisible: the difference between waiting for a prompt
/// and asking for a new attempt is a login screen that looks completely normal
/// and silently swallows everything typed into it.
#[derive(Clone, Copy, Debug, PartialEq, Eq, Structural)]
pub enum Rejection {
    /// Nothing at all.
    Ignore,
    /// Say so, but leave the password field exactly as it is.
    ShowOnly,
    /// This path is dead; ask the service to start over.
    NewAttempt,
}

/// What a failed worker does to the password field. Once the session is
/// starting, nothing: the race is over. A fingerprint giving up leaves the
/// password alone, for the password worker is still waiting on its prompt. A
/// failed password needs a new attempt, for the service never re-arms a worker.
pub open spec fn rejected_by(phase: PhaseView, source: AuthSource) -> Rejection {
    if phase is Starting {
        Rejection::Ignore
    } else if source is Fingerprint {
        Rejection::ShowOnly
    } else {
        Rejection::NewAttempt
    }
}

/// Decides what a failed worker does to the password field; see [`rejected_by`].
pub fn rejection(phase: &Phase, source: AuthSource) -> (r: Rejection)
    ensures
        r == rejected_by(phase@, source),
{
    match (phase, source) {
        (Phase::Starting, _) => Rejection::Ignore,
        (_, AuthSource::Fingerprint) => Rejection::ShowOnly,
        (_, AuthSource::Password) => Rejection::NewAttempt,
    }
}

/// What the login service says.
#[derive(Debug)]
pub enum Event {
    /// Who can log in, and on which output to ask.
    Welcome {
        users: Vec<AuthUser>,
        default_user: String,
        fingerprint: bool,
        primary_output: Option<String>,
    },
    /// A worker is waiting for an answer.
    Prompt { source: AuthSource },
    Info { source: AuthSource, message: String },
    Error { message: String },
    Fingerprint { state: FingerprintState },
    /// A worker came to nothing.
    Failed { source: AuthSource, failure: AuthFailure },
    Authenticated,
    SessionStarted,
    SessionFailed { message: String },
    RequestFailed { message: String },
}

/// An [`Event`] as a value.
pub enum EventView {
    Welcome {
        users: Seq<AuthUserView>,
        default_user: Seq<char>,
        fingerprint: bool,
        primary_output: Option<Seq<char>>,
    },
    Prompt { source: AuthSource },
    Info { source: AuthSource, message: Seq<char> },
    Error { message: Seq<char> },
    Fingerprint { state: FingerprintState },
    Failed { source: AuthSource, failure: AuthFailureView },
    Authenticated,
    SessionStarted,
    SessionFailed { message: Seq<char> },
    RequestFailed { message: Seq<char> },
}

impl View for Event {
    type V = EventView;

    open spec fn view(&self) -> EventView {
        match self {
            Event::Welcome { users, default_user, fingerprint, primary_output } =>
                EventView::Welcome {
                    users: crate::auth::user_views(users@),
                    default_user: default_user@,
                    fingerprint: *fingerprint,
                    primary_output: crate::text::opt_view(*primary_output),
                },
            Event::Prompt { source } => EventView::Prompt { source: *source },
            Event::Info { source, message } => EventView::Info {
                source: *source,
                message: message@,
            },
            Event::Error { message } => EventView::Error { message: message@ },
            Event::Fingerprint { state } => EventView::Fingerprint { state: *state },
            Event::Failed { source, failure } => EventView::Failed {
                source: *source,
                failure: failure@,
            },
            Event::Authenticated => EventView::Authenticated,
            Event::SessionStarted => EventView::SessionStarted,
            Event::SessionFailed { message } => EventView::SessionFailed { message: message@ },
            Event::RequestFailed { message } => EventView::RequestFailed { message: message@ },
        }
    }
}

/// What the screen asks of its surroundings.
#[derive(Debug)]
pub enum Effect {
    /// Greet the service, which answers with [`Event::Welcome`].
    Hello,
    /// Ask the service to start authenticating a user.
    Authenticate { username: String },
    /// Answer the password worker's prompt.
    SendPassword { value: String },
    /// Ask the service to start the session.
    StartSession,
    /// Empty the password field.
    ClearField,
    /// Outline the field for a while, then call [`Greeter::highlight_over`].
    Highlight,
    /// Start following the fingerprint sensor.
    WatchSensor,
    /// Close the login screen.
    Quit,
    /// Open the surfaces anew where they have to be.
    Resync,
}

/// An [`Effect`] as a value.
pub enum EffectView {
    Hello,
    Authenticate { username: Seq<char> },
    SendPassword { value: Seq<char> },
    StartSession,
    ClearField,
    Highlight,
    WatchSensor,
    Quit,
    Resync,
}

impl View for Effect {
    type V = EffectView;

    open spec fn view(&self) -> EffectView {
        match self {
            Effect::Hello => EffectView::Hello,
            Effect::Authenticate { username } => EffectView::Authenticate { username: username@ },
            Effect::SendPassword { value } => EffectView::SendPassword { value: value@ },
            Effect::StartSession => EffectView::StartSession,
            Effect::ClearField => EffectView::ClearField,
            Effect::Highlight => EffectView::Highlight,
            Effect::WatchSensor => EffectView::WatchSensor,
            Effect::Quit => EffectView::Quit,
            Effect::Resync => EffectView::Resync,
        }
    }
}

/// Effects as values.
pub open spec fn effect_views(effects: Seq<Effect>) -> Seq<EffectView> {
    effects.map_values(|e: Effect| e@)
}

/// The state of the login screen.
#[derive(Debug)]
pub struct Greeter {
    /// Whether there is a connection to send requests on.
    connected: bool,
    users: Vec<AuthUser>,
    selected: usize,
    phase: Phase,
    /// Whether a worker is actually blocked waiting for the password.
    prompt_ready: bool,
    /// A password typed before the prompt arrived.
    pending_password: Option<String>,
    /// Output the service says should carry the prompt.
    primary_output: Option<String>,
    /// Why the last attempt failed, if it did.
    error: Option<String>,
    /// Whatever the password worker had to say during an attempt.
    hint: Option<String>,
    /// Whether an attempt was turned down just now, which the field is outlined
    /// for.
    rejected: bool,
    /// Which account the attempt in flight is for, which is not always the
    /// highlighted one.
    authenticating: Option<String>,
    /// Whether the account list has replaced the prompt.
    switching: bool,
    fingerprint: FingerprintState,
    /// Whether the sensor is being followed.
    watching: bool,
    /// How long to wait before the next attempt to reach the service.
    retry_ms: u64,
}

/// The state of the login screen as a value.
#[verifier::ext_equal]
pub struct GreeterView {
    pub connected: bool,
    pub users: Seq<AuthUserView>,
    pub selected: int,
    pub phase: PhaseView,
    pub prompt_ready: bool,
    pub pending_password: Option<Seq<char>>,
    pub primary_output: Option<Seq<char>>,
    pub error: Option<Seq<char>>,
    pub hint: Option<Seq<char>>,
    pub rejected: bool,
    pub authenticating: Option<Seq<char>>,
    pub switching: bool,
    pub fingerprint: FingerprintState,
    pub watching: bool,
    pub retry_ms: u64,
}

impl View for Greeter {
    type V = GreeterView;

    closed spec fn view(&self) -> GreeterView {
        GreeterView {
            connected: self.connected,
            users: crate::auth::user_views(self.users@),
            selected: self.selected as int,
            phase: self.phase@,
            prompt_ready: self.prompt_ready,
            pending_password: crate::text::opt_view(self.pending_password),
            primary_output: crate::text::opt_view(self.primary_output),
            error: crate::text::opt_view(self.error),
            hint: crate::text::opt_view(self.hint),
            rejected: self.rejected,
            authenticating: crate::text::opt_view(self.authenticating),
            switching: self.switching,
            fingerprint: self.fingerprint,
            watching: self.watching,
            retry_ms: self.retry_ms,
        }
    }
}

/// A step of the screen: its state after, and what it asks for.
#[verifier::ext_equal]
pub struct Step {
    pub state: GreeterView,
    pub effects: Seq<EffectView>,
}

/// A step that asks for nothing.
pub open spec fn quiet(state: GreeterView) -> Step {
    Step { state, effects: Seq::empty() }
}

/// The position of the user with a name, or the first one.
pub open spec fn user_from(users: Seq<AuthUserView>, from: int, name: Seq<char>) -> int
    decreases users.len() - from,
{
    if from >= users.len() {
        0
    } else if users[from].name == name {
        from
    } else {
        user_from(users, from + 1, name)
    }
}

impl GreeterView {
    /// The highlight is on an account, if there are any. A password waits only
    /// while no prompt does. The delay stays between its bounds.
    pub open spec fn wf(self) -> bool {
        &&& 0 <= self.selected
        &&& self.selected < self.users.len() || (self.users.len() == 0 && self.selected == 0)
        &&& self.prompt_ready ==> self.pending_password is None
        &&& RETRY_INITIAL_MS <= self.retry_ms <= RETRY_MAX_MS
    }

    /// A request, if there is a connection to send it on.
    pub open spec fn sends(self, effect: EffectView) -> Seq<EffectView> {
        if self.connected {
            seq![effect]
        } else {
            Seq::empty()
        }
    }

    /// Asking the service to start authenticating the selected user.
    pub open spec fn begun(self) -> Step {
        if self.selected >= self.users.len() {
            quiet(
                GreeterView {
                    phase: PhaseView::Unavailable("No accounts are available"@),
                    ..self
                },
            )
        } else {
            let name = self.users[self.selected].name;
            Step {
                state: GreeterView {
                    authenticating: Some(name),
                    prompt_ready: false,
                    pending_password: None,
                    phase: PhaseView::Ready,
                    hint: None,
                    ..self
                },
                effects: self.sends(EffectView::Authenticate { username: name }),
            }
        }
    }

    /// Showing why an attempt failed. A rejection is answered by the outlined
    /// field alone.
    pub open spec fn shown(self, failure: AuthFailureView) -> Step {
        match failure {
            AuthFailureView::Rejected => Step {
                state: GreeterView { rejected: true, ..self },
                effects: seq![EffectView::Highlight],
            },
            AuthFailureView::Error { message } => quiet(
                GreeterView { error: Some(message), ..self },
            ),
        }
    }

    /// What the screen does with one thing the service says.
    pub open spec fn heard(self, event: EventView) -> Step {
        match event {
            EventView::Welcome { users, default_user, fingerprint, primary_output } => {
                let begun = GreeterView {
                    users,
                    selected: user_from(users, 0, default_user),
                    primary_output,
                    retry_ms: RETRY_INITIAL_MS,
                    fingerprint: if fingerprint {
                        FingerprintState::Starting
                    } else {
                        FingerprintState::Off
                    },
                    ..self
                }.begun();
                Step { state: begun.state, effects: begun.effects.push(EffectView::Resync) }
            },
            EventView::Prompt { source } => if source is Fingerprint {
                quiet(self)
            } else {
                match self.pending_password {
                    Some(value) => Step {
                        state: GreeterView {
                            prompt_ready: true,
                            pending_password: None,
                            phase: PhaseView::Verifying,
                            ..self
                        },
                        effects: self.sends(EffectView::SendPassword { value }),
                    },
                    None => quiet(
                        GreeterView { prompt_ready: true, phase: PhaseView::Ready, ..self },
                    ),
                }
            },
            // Only what the password stack has to say is shown. The reader's progress is
            // for the indicator in the field alone.
            EventView::Info { source, message } => if source is Password {
                quiet(GreeterView { hint: Some(message), ..self })
            } else {
                quiet(self)
            },
            EventView::Error { message } => quiet(GreeterView { error: Some(message), ..self }),
            EventView::Fingerprint { state } => if state is Waiting && !self.watching {
                Step {
                    state: GreeterView { fingerprint: state, watching: true, ..self },
                    effects: seq![EffectView::WatchSensor],
                }
            } else {
                quiet(GreeterView { fingerprint: state, ..self })
            },
            EventView::Failed { source, failure } => {
                match rejected_by(self.phase, source) {
                    Rejection::Ignore => quiet(self),
                    Rejection::ShowOnly => self.shown(failure),
                    Rejection::NewAttempt => {
                        let shown = self.shown(failure);
                        let begun = GreeterView {
                            prompt_ready: false,
                            pending_password: None,
                            ..shown.state
                        }.begun();
                        Step {
                            state: begun.state,
                            effects: shown.effects.push(EffectView::ClearField) + begun.effects,
                        }
                    },
                }
            },
            EventView::Authenticated => Step {
                state: GreeterView {
                    phase: PhaseView::Starting,
                    switching: false,
                    fingerprint: FingerprintState::Off,
                    hint: None,
                    error: None,
                    ..self
                },
                effects: self.sends(EffectView::StartSession),
            },
            EventView::SessionStarted => Step { state: self, effects: seq![EffectView::Quit] },
            EventView::SessionFailed { message } => {
                let begun = GreeterView { error: Some(message), ..self }.begun();
                Step {
                    state: begun.state,
                    effects: seq![EffectView::ClearField] + begun.effects,
                }
            },
            EventView::RequestFailed { message } => quiet(
                GreeterView { error: Some(message), phase: PhaseView::Ready, ..self },
            ),
        }
    }

    /// What submitting a password does. `fits` says whether the password is short
    /// enough to be sent. One that comes before its prompt waits for it.
    pub open spec fn submitted(self, password: Seq<char>, fits: bool) -> Step {
        if !(self.phase is Ready) || password.len() == 0 {
            quiet(self)
        } else if !fits {
            quiet(GreeterView { error: Some("That password is too long"@), ..self })
        } else if self.prompt_ready {
            Step {
                state: GreeterView { phase: PhaseView::Verifying, error: None, ..self },
                effects: self.sends(EffectView::SendPassword { value: password }),
            }
        } else {
            quiet(
                GreeterView {
                    phase: PhaseView::Verifying,
                    error: None,
                    pending_password: Some(password),
                    ..self
                },
            )
        }
    }

    /// The account list shown or hidden. Hiding it without choosing an account changes
    /// nothing: the highlight goes back to the account whose attempt is live.
    pub open spec fn listed(self, switching: bool) -> GreeterView {
        if self.users.len() < 2 {
            self
        } else if switching {
            GreeterView { switching, ..self }
        } else {
            GreeterView {
                switching,
                selected: match self.authenticating {
                    Some(name) => user_from(self.users, 0, name),
                    None => self.selected,
                },
                ..self
            }
        }
    }

    /// What confirming the highlighted account does. Landing back on the account
    /// already being authenticated keeps the live attempt.
    pub open spec fn confirmed(self) -> Step {
        let here = if self.selected < self.users.len() {
            Some(self.users[self.selected].name)
        } else {
            None
        };
        let back = GreeterView { switching: false, ..self };
        if self.authenticating == here {
            quiet(back)
        } else {
            let begun = GreeterView {
                error: None,
                rejected: false,
                fingerprint: FingerprintState::Off,
                ..back
            }.begun();
            Step { state: begun.state, effects: seq![EffectView::ClearField] + begun.effects }
        }
    }

    /// The state once the connection is gone.
    pub open spec fn cut_off(self, reason: Seq<char>, retry: bool) -> GreeterView {
        GreeterView {
            connected: false,
            prompt_ready: false,
            pending_password: None,
            switching: false,
            phase: PhaseView::Unavailable(reason),
            retry_ms: if !retry {
                self.retry_ms
            } else if 2 * self.retry_ms <= RETRY_MAX_MS {
                (2 * self.retry_ms) as u64
            } else {
                RETRY_MAX_MS
            },
            ..self
        }
    }
}

impl Greeter {
    /// A screen that is about to connect.
    pub fn new() -> (r: Self)
        ensures
            r@ == (GreeterView {
                connected: true,
                users: Seq::empty(),
                selected: 0,
                phase: PhaseView::Connecting,
                prompt_ready: false,
                pending_password: None,
                primary_output: None,
                error: None,
                hint: None,
                rejected: false,
                authenticating: None,
                switching: false,
                fingerprint: FingerprintState::Off,
                watching: false,
                retry_ms: RETRY_INITIAL_MS,
            }),
            r@.wf(),
    {
        let r = Greeter {
            connected: true,
            users: Vec::new(),
            selected: 0,
            phase: Phase::Connecting,
            prompt_ready: false,
            pending_password: None,
            primary_output: None,
            error: None,
            hint: None,
            rejected: false,
            authenticating: None,
            switching: false,
            fingerprint: FingerprintState::Off,
            watching: false,
            retry_ms: RETRY_INITIAL_MS,
        };
        assert(r@.users =~= Seq::empty());
        r
    }

    /// Starts over with a fresh connection, and greets the service on it.
    pub fn connect(&mut self) -> (r: Vec<Effect>)
        requires
            old(self)@.wf(),
        ensures
            final(self)@ == (GreeterView {
                connected: true,
                phase: PhaseView::Connecting,
                prompt_ready: false,
                ..old(self)@
            }),
            effect_views(r@) == seq![EffectView::Hello],
            final(self)@.wf(),
    {
        self.connected = true;
        self.phase = Phase::Connecting;
        self.prompt_ready = false;
        let mut effects: Vec<Effect> = Vec::new();
        effects.push(Effect::Hello);
        assert(effect_views(effects@) =~= seq![EffectView::Hello]);
        effects
    }

    /// Asks the service to start authenticating the selected user.
    fn begin(&mut self, effects: &mut Vec<Effect>)
        ensures
            final(self)@ == old(self)@.begun().state,
            effect_views(final(effects)@) == effect_views(old(effects)@) + old(
                self,
            )@.begun().effects,
    {
        if self.selected >= self.users.len() {
            self.phase = Phase::Unavailable("No accounts are available".to_owned());
            assert(effect_views(effects@) =~= effect_views(old(effects)@) + old(
                self,
            )@.begun().effects);
            return;
        }
        let name = self.users[self.selected].name.clone();
        self.authenticating = Some(name.clone());
        self.prompt_ready = false;
        self.pending_password = None;
        self.phase = Phase::Ready;
        self.hint = None;
        if self.connected {
            effects.push(Effect::Authenticate { username: name });
        }
        assert(effect_views(effects@) =~= effect_views(old(effects)@) + old(
            self,
        )@.begun().effects);
    }

    /// Shows why an attempt failed.
    fn show_failure(&mut self, failure: AuthFailure, effects: &mut Vec<Effect>)
        ensures
            final(self)@ == old(self)@.shown(failure@).state,
            effect_views(final(effects)@) == effect_views(old(effects)@) + old(
                self,
            )@.shown(failure@).effects,
    {
        match failure {
            AuthFailure::Rejected => {
                self.rejected = true;
                effects.push(Effect::Highlight);
            },
            AuthFailure::Error { message } => {
                self.error = Some(message);
            },
        }
        assert(effect_views(effects@) =~= effect_views(old(effects)@) + old(
            self,
        )@.shown(failure@).effects);
    }

    fn on_welcome(
        &mut self,
        users: Vec<AuthUser>,
        default_user: String,
        fingerprint: bool,
        primary_output: Option<String>,
    ) -> (r: Vec<Effect>)
        ensures
            ({
                let step = old(self)@.heard(
                    EventView::Welcome {
                        users: crate::auth::user_views(users@),
                        default_user: default_user@,
                        fingerprint,
                        primary_output: crate::text::opt_view(primary_output),
                    },
                );
                final(self)@ == step.state && effect_views(r@) == step.effects
            }),
    {
        let mut effects: Vec<Effect> = Vec::new();
        self.selected = find_user(&users, &default_user);
        self.users = users;
        self.primary_output = primary_output;
        self.retry_ms = RETRY_INITIAL_MS;
        self.fingerprint = if fingerprint {
            FingerprintState::Starting
        } else {
            FingerprintState::Off
        };
        let ghost ready = self@;
        self.begin(&mut effects);
        effects.push(Effect::Resync);
        assert(effect_views(effects@) =~= ready.begun().effects.push(EffectView::Resync));
        effects
    }

    fn on_prompt(&mut self, source: AuthSource) -> (r: Vec<Effect>)
        ensures
            ({
                let step = old(self)@.heard(EventView::Prompt { source });
                final(self)@ == step.state && effect_views(r@) == step.effects
            }),
    {
        let mut effects: Vec<Effect> = Vec::new();
        // The fingerprint worker never asks for anything typed.
        if source == AuthSource::Password {
            self.prompt_ready = true;
            match self.pending_password.take() {
                Some(value) => {
                    self.phase = Phase::Verifying;
                    if self.connected {
                        effects.push(Effect::SendPassword { value });
                    }
                },
                None => {
                    self.phase = Phase::Ready;
                },
            }
        }
        assert(effect_views(effects@) =~= old(self)@.heard(EventView::Prompt { source }).effects);
        effects
    }

    fn on_fingerprint(&mut self, state: FingerprintState) -> (r: Vec<Effect>)
        ensures
            ({
                let step = old(self)@.heard(EventView::Fingerprint { state });
                final(self)@ == step.state && effect_views(r@) == step.effects
            }),
    {
        let mut effects: Vec<Effect> = Vec::new();
        self.fingerprint = state;
        if state == FingerprintState::Waiting && !self.watching {
            self.watching = true;
            effects.push(Effect::WatchSensor);
        }
        assert(effect_views(effects@) =~= old(self)@.heard(
            EventView::Fingerprint { state },
        ).effects);
        effects
    }

    fn on_failed(&mut self, source: AuthSource, failure: AuthFailure) -> (r: Vec<Effect>)
        ensures
            ({
                let step = old(self)@.heard(EventView::Failed { source, failure: failure@ });
                final(self)@ == step.state && effect_views(r@) == step.effects
            }),
    {
        let mut effects: Vec<Effect> = Vec::new();
        assert(effect_views(effects@) =~= Seq::<EffectView>::empty());
        match rejection(&self.phase, source) {
            Rejection::Ignore => {},
            Rejection::ShowOnly => {
                self.show_failure(failure, &mut effects);
                assert(effect_views(effects@) =~= old(self)@.shown(failure@).effects);
            },
            Rejection::NewAttempt => {
                self.show_failure(failure, &mut effects);
                let ghost shown = effect_views(effects@);
                self.prompt_ready = false;
                self.pending_password = None;
                effects.push(Effect::ClearField);
                assert(effect_views(effects@) =~= shown.push(EffectView::ClearField));
                assert(shown =~= old(self)@.shown(failure@).effects);
                self.begin(&mut effects);
            },
        }
        effects
    }

    fn on_authenticated(&mut self) -> (r: Vec<Effect>)
        ensures
            ({
                let step = old(self)@.heard(EventView::Authenticated);
                final(self)@ == step.state && effect_views(r@) == step.effects
            }),
    {
        let mut effects: Vec<Effect> = Vec::new();
        self.phase = Phase::Starting;
        // A finger can land on the reader while the list is open, and there is no
        // account left to choose once one has been let in.
        self.switching = false;
        self.fingerprint = FingerprintState::Off;
        self.hint = None;
        self.error = None;
        if self.connected {
            effects.push(Effect::StartSession);
        }
        assert(effect_views(effects@) =~= old(self)@.heard(EventView::Authenticated).effects);
        effects
    }

    fn on_session_failed(&mut self, message: String) -> (r: Vec<Effect>)
        ensures
            ({
                let step = old(self)@.heard(EventView::SessionFailed { message: message@ });
                final(self)@ == step.state && effect_views(r@) == step.effects
            }),
    {
        let mut effects: Vec<Effect> = Vec::new();
        self.error = Some(message);
        effects.push(Effect::ClearField);
        assert(effect_views(effects@) =~= seq![EffectView::ClearField]);
        self.begin(&mut effects);
        effects
    }

    /// Folds one thing the service says into this state.
    pub fn apply(&mut self, event: Event) -> (r: Vec<Effect>)
        requires
            old(self)@.wf(),
        ensures
            final(self)@ == old(self)@.heard(event@).state,
            effect_views(r@) == old(self)@.heard(event@).effects,
            final(self)@.wf(),
    {
        proof {
            lemma_heard_keeps_wf(self@, event@);
        }
        let none: Vec<Effect> = Vec::new();
        assert(effect_views(none@) =~= Seq::<EffectView>::empty());
        match event {
            Event::Welcome { users, default_user, fingerprint, primary_output } => self.on_welcome(
                users,
                default_user,
                fingerprint,
                primary_output,
            ),
            Event::Prompt { source } => self.on_prompt(source),
            Event::Info { source, message } => {
                if source == AuthSource::Password {
                    self.hint = Some(message);
                }
                none
            },
            Event::Error { message } => {
                self.error = Some(message);
                none
            },
            Event::Fingerprint { state } => self.on_fingerprint(state),
            Event::Failed { source, failure } => self.on_failed(source, failure),
            Event::Authenticated => self.on_authenticated(),
            Event::SessionStarted => {
                let mut effects = none;
                effects.push(Effect::Quit);
                assert(effect_views(effects@) =~= seq![EffectView::Quit]);
                effects
            },
            // The screen stays up: a login screen that has gone dark is worse than
            // one saying the session would not start.
            Event::SessionFailed { message } => self.on_session_failed(message),
            Event::RequestFailed { message } => {
                self.error = Some(message);
                self.phase = Phase::Ready;
                none
            },
        }
    }
}

/// The default user is one of those on offer, if there are any.
proof fn lemma_user_from(users: Seq<AuthUserView>, from: int, name: Seq<char>)
    requires
        0 <= from,
    ensures
        0 <= user_from(users, from, name),
        user_from(users, from, name) < users.len() || (users.len() == 0 && user_from(
            users,
            from,
            name,
        ) == 0),
    decreases users.len() - from,
{
    if from < users.len() && users[from].name != name {
        lemma_user_from(users, from + 1, name);
    }
}

/// Whatever the service says, the state stays sound.
pub proof fn lemma_heard_keeps_wf(state: GreeterView, event: EventView)
    requires
        state.wf(),
    ensures
        state.heard(event).state.wf(),
{
    match event {
        EventView::Welcome { users, default_user, fingerprint, primary_output } => {
            lemma_user_from(users, 0, default_user);
        },
        _ => {},
    }
}

/// The position of the user with a name, or the first one.
fn find_user(users: &Vec<AuthUser>, name: &str) -> (r: usize)
    ensures
        r == user_from(crate::auth::user_views(users@), 0, name@),
        r < users@.len() || (users@.len() == 0 && r == 0),
{
    let ghost views = crate::auth::user_views(users@);
    let mut i: usize = 0;
    while i < users.len()
        invariant
            i <= users@.len(),
            views == crate::auth::user_views(users@),
            user_from(views, 0, name@) == user_from(views, i as int, name@),
        decreases users@.len() - i,
    {
        if same(&users[i].name, name) {
            return i;
        }
        i = i + 1;
    }
    0
}

impl Greeter {
    /// Takes a password from the field; see [`GreeterView::submitted`].
    pub fn submit(&mut self, password: String, fits: bool) -> (r: Vec<Effect>)
        requires
            old(self)@.wf(),
        ensures
            final(self)@ == old(self)@.submitted(password@, fits).state,
            effect_views(r@) == old(self)@.submitted(password@, fits).effects,
            final(self)@.wf(),
    {
        let mut effects: Vec<Effect> = Vec::new();
        assert(effect_views(effects@) =~= Seq::<EffectView>::empty());
        if self.busy() || password.as_str().is_empty() {
            return effects;
        }
        if !fits {
            self.error = Some("That password is too long".to_owned());
            return effects;
        }
        self.phase = Phase::Verifying;
        self.error = None;
        if self.prompt_ready {
            if self.connected {
                effects.push(Effect::SendPassword { value: password });
            }
        } else {
            self.pending_password = Some(password);
        }
        assert(effect_views(effects@) =~= old(self)@.submitted(password@, fits).effects);
        effects
    }

    /// Shows or hides the account list; see [`GreeterView::listed`]. Only ever reachable
    /// when there is more than one account, so it cannot strand a single-user machine
    /// in a list of one.
    pub fn set_switching(&mut self, switching: bool)
        requires
            old(self)@.wf(),
        ensures
            final(self)@ == old(self)@.listed(switching),
            final(self)@.wf(),
    {
        if self.users.len() < 2 {
            return;
        }
        self.switching = switching;
        if !switching {
            if let Some(name) = &self.authenticating {
                self.selected = find_user(&self.users, name);
            }
        }
    }

    /// Points the highlight at one account, for a pointer that skipped the arrows.
    pub fn highlight(&mut self, index: usize)
        requires
            old(self)@.wf(),
        ensures
            final(self)@ == (if index >= old(self)@.users.len() {
                old(self)@
            } else {
                GreeterView { selected: index as int, ..old(self)@ }
            }),
            final(self)@.wf(),
    {
        if index >= self.users.len() {
            return;
        }
        self.selected = index;
    }

    /// Moves the highlight without committing to it, round the ends of the list.
    pub fn move_highlight(&mut self, delta: isize)
        requires
            old(self)@.wf(),
        ensures
            final(self)@ == (if old(self)@.users.len() == 0 {
                old(self)@
            } else {
                GreeterView {
                    selected: (old(self)@.selected + delta) % (old(self)@.users.len() as int),
                    ..old(self)@
                }
            }),
            final(self)@.wf(),
    {
        if self.users.len() == 0 {
            return;
        }
        self.selected = wrapped(self.selected, delta, self.users.len());
    }

    /// Commits the highlighted account and returns to the prompt; see
    /// [`GreeterView::confirmed`].
    pub fn confirm_highlight(&mut self) -> (r: Vec<Effect>)
        requires
            old(self)@.wf(),
        ensures
            final(self)@ == old(self)@.confirmed().state,
            effect_views(r@) == old(self)@.confirmed().effects,
            final(self)@.wf(),
    {
        let mut effects: Vec<Effect> = Vec::new();
        assert(effect_views(effects@) =~= Seq::<EffectView>::empty());
        self.switching = false;
        let unchanged: bool = match &self.authenticating {
            Some(name) => self.selected < self.users.len() && same(
                name,
                &self.users[self.selected].name,
            ),
            None => self.selected >= self.users.len(),
        };
        if unchanged {
            return effects;
        }
        self.error = None;
        self.rejected = false;
        self.fingerprint = FingerprintState::Off;
        effects.push(Effect::ClearField);
        assert(effect_views(effects@) =~= seq![EffectView::ClearField]);
        // No cancellation first: the service abandons the attempt in flight when it
        // is asked to authenticate somebody else.
        self.begin(&mut effects);
        effects
    }

    /// Takes in that the connection is gone. `retry` is false where there never
    /// was one to be had. Gives back after how many milliseconds to try again.
    pub fn disconnected(&mut self, reason: String, retry: bool) -> (r: Option<u64>)
        requires
            old(self)@.wf(),
        ensures
            final(self)@ == old(self)@.cut_off(reason@, retry),
            r == (if retry {
                Some(old(self)@.retry_ms)
            } else {
                None
            }),
            final(self)@.wf(),
    {
        self.connected = false;
        self.prompt_ready = false;
        self.pending_password = None;
        // A list of accounts none of which can be authenticated is worse than none.
        self.switching = false;
        self.phase = Phase::Unavailable(reason);
        if !retry {
            return None;
        }
        let delay: u64 = self.retry_ms;
        self.retry_ms = if 2 * delay <= RETRY_MAX_MS {
            2 * delay
        } else {
            RETRY_MAX_MS
        };
        Some(delay)
    }

    /// Mirrors the sensor into the field's indicator.
    pub fn set_finger_present(&mut self, present: bool)
        requires
            old(self)@.wf(),
        ensures
            final(self)@ == (GreeterView {
                fingerprint: old(self)@.fingerprint.sensed(present),
                ..old(self)@
            }),
            final(self)@.wf(),
    {
        self.fingerprint = self.fingerprint.sense(present);
    }

    /// Takes the outline off the field again.
    pub fn highlight_over(&mut self)
        requires
            old(self)@.wf(),
        ensures
            final(self)@ == (GreeterView { rejected: false, ..old(self)@ }),
            final(self)@.wf(),
    {
        self.rejected = false;
    }

    /// The highlighted account.
    pub fn user(&self) -> (r: Option<&AuthUser>)
        ensures
            match r {
                Some(user) => self@.selected < self@.users.len() && user@
                    == self@.users[self@.selected],
                None => self@.selected >= self@.users.len(),
            },
    {
        if self.selected < self.users.len() {
            Some(&self.users[self.selected])
        } else {
            None
        }
    }

    pub fn users(&self) -> (r: &Vec<AuthUser>)
        ensures
            crate::auth::user_views(r@) == self@.users,
    {
        &self.users
    }

    pub fn selected(&self) -> (r: usize)
        ensures
            r == self@.selected,
    {
        self.selected
    }

    pub fn switching(&self) -> (r: bool)
        ensures
            r == self@.switching,
    {
        self.switching
    }

    /// Whether there is anywhere to switch to.
    pub fn can_switch(&self) -> (r: bool)
        ensures
            r == (self@.users.len() > 1),
    {
        self.users.len() > 1
    }

    pub fn error(&self) -> (r: &Option<String>)
        ensures
            crate::text::opt_view(*r) == self@.error,
    {
        &self.error
    }

    pub fn hint(&self) -> (r: &Option<String>)
        ensures
            crate::text::opt_view(*r) == self@.hint,
    {
        &self.hint
    }

    pub fn rejected(&self) -> (r: bool)
        ensures
            r == self@.rejected,
    {
        self.rejected
    }

    pub fn fingerprint(&self) -> (r: FingerprintState)
        ensures
            r == self@.fingerprint,
    {
        self.fingerprint
    }

    /// Whether typing should be refused, which is any state where the field's
    /// contents are about to be taken away or ignored.
    pub fn busy(&self) -> (r: bool)
        ensures
            r == !(self@.phase is Ready),
    {
        match self.phase {
            Phase::Ready => false,
            _ => true,
        }
    }

    /// A line under the field for whatever is being waited on that the field's
    /// own spinner doesn't already explain.
    pub fn status(&self) -> (r: Option<String>)
        ensures
            crate::text::opt_view(r) == (match self@.phase {
                PhaseView::Connecting => Some("Connecting to the login service\u{2026}"@),
                PhaseView::Starting => Some("Starting session\u{2026}"@),
                _ => None,
            }),
    {
        match self.phase {
            Phase::Connecting => Some("Connecting to the login service\u{2026}".to_owned()),
            Phase::Starting => Some("Starting session\u{2026}".to_owned()),
            _ => None,
        }
    }

    /// Which output carries the prompt: the one the service names, else the
    /// configured one, else the first attached. Falls back rather than leaving the
    /// machine with a login screen nobody can type into.
    pub fn primary_index(
        &self,
        configured: Option<String>,
        displays: &Vec<Option<String>>,
    ) -> (r: usize)
        ensures
            r == crate::display::prompt_display(
                self@.primary_output,
                crate::text::opt_view(configured),
                crate::display::display_names(displays@),
            ),
    {
        let named = match &self.primary_output {
            Some(name) => Some(name.clone()),
            None => configured,
        };
        match named {
            None => 0,
            Some(name) => match crate::display::find_display(displays, &name) {
                Some(i) => i,
                None => 0,
            },
        }
    }
}

/// An index moved by `delta` in a list of `count`, round its ends.
fn wrapped(index: usize, delta: isize, count: usize) -> (r: usize)
    requires
        index < count,
    ensures
        r == (index + delta) % (count as int),
        r < count,
{
    if delta >= 0 {
        let step: usize = (delta as usize) % count;
        proof {
            vstd::arithmetic::div_mod::lemma_add_mod_noop(
                index as int,
                delta as int,
                count as int,
            );
            vstd::arithmetic::div_mod::lemma_small_mod(index as nat, count as nat);
        }
        let sum: u128 = index as u128 + step as u128;
        if sum >= count as u128 {
            let r: usize = (sum - count as u128) as usize;
            proof {
                vstd::arithmetic::div_mod::lemma_fundamental_div_mod_converse(
                    index + step,
                    count as int,
                    1,
                    r as int,
                );
            }
            r
        } else {
            let r: usize = sum as usize;
            proof {
                vstd::arithmetic::div_mod::lemma_small_mod(r as nat, count as nat);
            }
            r
        }
    } else {
        let back: u128 = (-(delta as i128)) as u128;
        let step: usize = (back % (count as u128)) as usize;
        let ghost q = (back as int) / (count as int);
        proof {
            vstd::arithmetic::div_mod::lemma_fundamental_div_mod(back as int, count as int);
        }
        if index >= step {
            let r: usize = index - step;
            proof {
                assert(index + delta == count * (-q) + r) by (nonlinear_arith)
                    requires
                        back == count * q + step,
                        delta == -back,
                        r == index - step,
                ;
                vstd::arithmetic::div_mod::lemma_fundamental_div_mod_converse(
                    index + delta,
                    count as int,
                    -q,
                    r as int,
                );
            }
            r
        } else {
            let r: usize = count - (step - index);
            proof {
                assert(index + delta == count * (-q - 1) + r) by (nonlinear_arith)
                    requires
                        back == count * q + step,
                        delta == -back,
                        r == count - (step - index),
                ;
                vstd::arithmetic::div_mod::lemma_fundamental_div_mod_converse(
                    index + delta,
                    count as int,
                    -q - 1,
                    r as int,
                );
            }
            r
        }
    }
}

/// What a surface on one output carries.
#[derive(Clone, Copy, Debug, PartialEq, Eq, Structural)]
pub struct ScreenPlan {
    /// Whether the prompt is on it, and so the keyboard.
    pub prompt: bool,
    pub clock: bool,
}

/// Whether the surfaces have to be opened anew: only when the outputs differ
/// from those they were opened on, or one of them is gone. An unrelated change
/// does not flash the screen.
pub fn needs_rebuild(displays: &Vec<u64>, known: &Vec<u64>, all_open: bool) -> (r: bool)
    ensures
        r == (displays@ != known@ || !all_open),
{
    if displays.len() != known.len() {
        return true;
    }
    let mut i: usize = 0;
    while i < displays.len()
        invariant
            i <= displays@.len() == known@.len(),
            forall|j: int| 0 <= j < i ==> displays@[j] == known@[j],
        decreases displays@.len() - i,
    {
        if displays[i] != known[i] {
            return true;
        }
        i = i + 1;
    }
    assert(displays@ =~= known@);
    !all_open
}

/// What goes on each of `count` outputs: the prompt on the primary one, and the
/// clock, if it is enabled, beside it.
pub fn plan_screens(count: usize, primary: usize, clock_enabled: bool) -> (r: Vec<ScreenPlan>)
    ensures
        r@.len() == count,
        forall|i: int|
            0 <= i < count ==> #[trigger] r@[i] == (ScreenPlan {
                prompt: i == primary,
                clock: clock_enabled && i == primary,
            }),
{
    let mut out: Vec<ScreenPlan> = Vec::new();
    for i in 0..count
        invariant
            out@.len() == i,
            forall|j: int|
                0 <= j < i ==> #[trigger] out@[j] == (ScreenPlan {
                    prompt: j == primary,
                    clock: clock_enabled && j == primary,
                }),
    {
        out.push(ScreenPlan { prompt: i == primary, clock: clock_enabled && i == primary });
    }
    out
}

/// How a connection to the login service came to its end.
#[derive(Clone, Copy, Debug, PartialEq, Eq, Structural)]
pub enum ConnectionEnd {
    /// There is no socket: the screen was not started by the service.
    NoSocket,
    Unreachable,
    ScreenStoppedListening,
    Closed,
    Unreadable,
    StoppedAccepting,
    ScreenStoppedSending,
}

impl ConnectionEnd {
    /// The reason, as the screen shows it.
    pub open spec fn text(self) -> Seq<char> {
        match self {
            ConnectionEnd::NoSocket => "The login screen was started outside of launch-greetd"@,
            ConnectionEnd::Unreachable => "The login service cannot be reached"@,
            ConnectionEnd::ScreenStoppedListening => "The login screen stopped listening"@,
            ConnectionEnd::Closed => "The login service closed the connection"@,
            ConnectionEnd::Unreadable => "The login service sent something unreadable"@,
            ConnectionEnd::StoppedAccepting => "The login service stopped accepting requests"@,
            ConnectionEnd::ScreenStoppedSending => "The login screen stopped sending"@,
        }
    }

    /// The reason, as the screen shows it.
    pub fn reason(self) -> (r: String)
        ensures
            r@ == self.text(),
    {
        match self {
            ConnectionEnd::NoSocket => {
                "The login screen was started outside of launch-greetd".to_owned()
            },
            ConnectionEnd::Unreachable => "The login service cannot be reached".to_owned(),
            ConnectionEnd::ScreenStoppedListening => {
                "The login screen stopped listening".to_owned()
            },
            ConnectionEnd::Closed => "The login service closed the connection".to_owned(),
            ConnectionEnd::Unreadable => "The login service sent something unreadable".to_owned(),
            ConnectionEnd::StoppedAccepting => {
                "The login service stopped accepting requests".to_owned()
            },
            ConnectionEnd::ScreenStoppedSending => "The login screen stopped sending".to_owned(),
        }
    }
}

/// A fingerprint failure never disturbs the password field: whatever state the
/// screen is in, the prompt, the password that waits for it and the phase stay
/// as they are, and the field is not emptied.
pub proof fn law_fingerprint_failure_leaves_the_field_alone(
    state: GreeterView,
    failure: AuthFailureView,
)
    ensures
        ({
            let step = state.heard(
                EventView::Failed { source: AuthSource::Fingerprint, failure },
            );
            &&& step.state.prompt_ready == state.prompt_ready
            &&& step.state.pending_password == state.pending_password
            &&& step.state.phase == state.phase
            &&& !step.effects.contains(EffectView::ClearField)
        }),
{
}

/// Once the session is starting, a losing worker's failure changes nothing.
pub proof fn law_failures_after_success_change_nothing(
    state: GreeterView,
    source: AuthSource,
    failure: AuthFailureView,
)
    requires
        state.phase is Starting,
    ensures
        state.heard(EventView::Failed { source, failure }) == quiet(state),
{
}

/// A password that fails makes the screen ready for the next one: a new attempt
/// is asked for, nothing of the old one is left, and the field is emptied.
pub proof fn law_failed_password_starts_over(state: GreeterView, failure: AuthFailureView)
    requires
        state.wf(),
        !(state.phase is Starting),
        state.users.len() > 0,
        state.connected,
    ensures
        ({
            let step = state.heard(EventView::Failed { source: AuthSource::Password, failure });
            &&& step.state.phase is Ready
            &&& !step.state.prompt_ready
            &&& step.state.pending_password is None
            &&& step.effects.contains(EffectView::ClearField)
            &&& step.effects.last() == (EffectView::Authenticate {
                username: state.users[state.selected].name,
            })
        }),
{
    let step = state.heard(EventView::Failed { source: AuthSource::Password, failure });
    let n = step.effects.len() as int;
    assert(step.effects[n - 2] == EffectView::ClearField);
}

/// A password goes out only in answer to a prompt: either the prompt has come, or
/// it is coming just now.
pub proof fn law_passwords_answer_prompts(
    state: GreeterView,
    event: EventView,
    value: Seq<char>,
)
    requires
        state.heard(event).effects.contains(EffectView::SendPassword { value }),
    ensures
        event == (EventView::Prompt { source: AuthSource::Password }),
        state.pending_password == Some(value),
{
    let effects = state.heard(event).effects;
    let i = choose|i: int|
        0 <= i < effects.len() && effects[i] == (EffectView::SendPassword { value });
    assert(effects[i] == (EffectView::SendPassword { value }));
}

/// A submitted password that fits is never lost: it goes out at once if the
/// prompt has come, and when the prompt comes if it has not.
pub proof fn law_submitted_passwords_arrive(state: GreeterView, password: Seq<char>)
    requires
        state.wf(),
        state.phase is Ready,
        state.connected,
        password.len() > 0,
    ensures
        ({
            let step = state.submitted(password, true);
            let later = step.state.heard(EventView::Prompt { source: AuthSource::Password });
            if state.prompt_ready {
                step.effects == seq![EffectView::SendPassword { value: password }]
            } else {
                step.effects.len() == 0 && later.effects == seq![
                    EffectView::SendPassword { value: password },
                ]
            }
        }),
{
}

/// Landing back on the account whose attempt is live keeps that attempt: the
/// prompt, the password and the reader are as they were.
pub proof fn law_confirming_the_same_account_keeps_the_attempt(state: GreeterView)
    requires
        state.wf(),
        state.users.len() > 0,
        state.authenticating == Some(state.users[state.selected].name),
    ensures
        state.confirmed() == quiet(GreeterView { switching: false, ..state }),
{
}

/// Whether no two accounts go by the same name.
pub open spec fn names_differ(users: Seq<AuthUserView>) -> bool {
    forall|i: int, j: int|
        0 <= i < j < users.len() ==> (#[trigger] users[i]).name != (#[trigger] users[j]).name
}

/// Leaving the account list without choosing changes nothing: wherever the highlight
/// went in the meantime, the screen is as it was before the list came up.
pub proof fn law_dismissing_changes_nothing(state: GreeterView, highlight: int)
    requires
        state.wf(),
        names_differ(state.users),
        !state.switching,
        state.users.len() > 1,
        state.authenticating == Some(state.users[state.selected].name),
        0 <= highlight < state.users.len(),
    ensures
        (GreeterView { selected: highlight, ..state.listed(true) }).listed(false) == state,
{
    lemma_finds_user(state.users, 0, state.selected);
}

proof fn lemma_finds_user(users: Seq<AuthUserView>, from: int, at: int)
    requires
        names_differ(users),
        0 <= from <= at < users.len(),
    ensures
        user_from(users, from, users[at].name) == at,
    decreases at - from,
{
    if from < at {
        lemma_finds_user(users, from + 1, at);
    }
}

/// Looking for the connection again, the screen waits longer each time, up to a
/// limit, and never gives up.
pub proof fn law_retries_back_off(state: GreeterView, reason: Seq<char>)
    requires
        state.wf(),
    ensures
        state.retry_ms <= state.cut_off(reason, true).retry_ms <= RETRY_MAX_MS,
        state.retry_ms < RETRY_MAX_MS ==> state.retry_ms < state.cut_off(reason, true).retry_ms,
{
}

/// The account of a name is chosen where it is listed, the first where it is listed twice,
/// and the first account of all where it is not listed.
pub proof fn law_accounts_are_found_by_name(users: Seq<AuthUserView>, name: Seq<char>, i: int)
    requires
        0 <= i < users.len(),
    ensures
        0 <= user_from(users, 0, name) < users.len(),
        users[i].name == name ==> users[user_from(users, 0, name)].name == name && user_from(
            users,
            0,
            name,
        ) <= i,
        users[user_from(users, 0, name)].name != name ==> user_from(users, 0, name) == 0,
{
    lemma_first_account(users, 0, name, i);
}

proof fn lemma_first_account(users: Seq<AuthUserView>, from: int, name: Seq<char>, i: int)
    requires
        0 <= from <= users.len(),
        0 <= i < users.len(),
    ensures
        0 <= user_from(users, from, name) < users.len(),
        from <= i && users[i].name == name ==> users[user_from(users, from, name)].name == name
            && user_from(users, from, name) <= i,
        users[user_from(users, from, name)].name != name ==> user_from(users, from, name) == 0,
    decreases users.len() - from,
{
    if from < users.len() && users[from].name != name {
        lemma_first_account(users, from + 1, name, i);
    }
}

/// Being welcomed brings up the accounts with the default one chosen and an attempt begun for
/// it, tells whether there is a reader, and lets the next retry come soon again.
pub proof fn law_welcome_begins_an_attempt(
    state: GreeterView,
    users: Seq<AuthUserView>,
    default_user: Seq<char>,
    fingerprint: bool,
    primary_output: Option<Seq<char>>,
)
    requires
        users.len() > 0,
    ensures
        ({
            let step = state.heard(
                EventView::Welcome { users, default_user, fingerprint, primary_output },
            );
            let chosen = user_from(users, 0, default_user);
            let name = users[chosen].name;
            &&& step.state.users == users && step.state.selected == chosen
            &&& step.state.primary_output == primary_output
            &&& step.state.authenticating == Some(name)
            &&& step.state.phase is Ready
            &&& !step.state.prompt_ready && step.state.pending_password is None
            &&& step.state.retry_ms == 500
            &&& fingerprint <==> step.state.fingerprint is Starting
            &&& !fingerprint <==> step.state.fingerprint is Off
            &&& step.effects.last() == EffectView::Resync
            &&& step.effects.contains(EffectView::Authenticate { username: name })
                <==> state.connected
        }),
{
    law_accounts_are_found_by_name(users, default_user, 0);
    let step = state.heard(EventView::Welcome { users, default_user, fingerprint, primary_output });
    let name = users[user_from(users, 0, default_user)].name;
    if state.connected {
        assert(step.effects[0] == (EffectView::Authenticate { username: name }));
    } else {
        assert(step.effects =~= seq![EffectView::Resync]);
    }
}

/// Without accounts there is nothing to sign in to, and the screen says so.
pub proof fn law_no_accounts_no_attempt(
    state: GreeterView,
    default_user: Seq<char>,
    fingerprint: bool,
    primary_output: Option<Seq<char>>,
)
    ensures
        ({
            let step = state.heard(
                EventView::Welcome {
                    users: Seq::empty(),
                    default_user,
                    fingerprint,
                    primary_output,
                },
            );
            &&& step.state.phase == PhaseView::Unavailable("No accounts are available"@)
            &&& step.effects == seq![EffectView::Resync]
        }),
{
}

/// Only the password stack is listened to: its prompt is waited for and its information is
/// shown, while what the reader asks or tells changes nothing.
pub proof fn law_only_the_password_stack_is_heard(state: GreeterView, message: Seq<char>)
    ensures
        state.heard(EventView::Prompt { source: AuthSource::Fingerprint }) == quiet(state),
        state.heard(EventView::Info { source: AuthSource::Fingerprint, message }) == quiet(state),
        ({
            let step = state.heard(EventView::Info { source: AuthSource::Password, message });
            &&& step.state.hint == Some(message) && step.state.error == state.error
            &&& step.effects.len() == 0
            &&& step.state.phase == state.phase
        }),
        ({
            let step = state.heard(EventView::Error { message });
            &&& step.state.error == Some(message) && step.state.hint == state.hint
            &&& step.effects.len() == 0
            &&& step.state.phase == state.phase
        }),
        state.pending_password is None ==> ({
            let step = state.heard(EventView::Prompt { source: AuthSource::Password });
            &&& step.state.prompt_ready && step.state.phase is Ready
            &&& step.effects.len() == 0
        }),
        state.pending_password is Some ==> ({
            let step = state.heard(EventView::Prompt { source: AuthSource::Password });
            &&& step.state.phase is Verifying
            &&& step.state.pending_password is None
        }),
{
}

/// The state of the reader is shown as it is told, and its sensor is watched from the first
/// time that it waits for a finger.
pub proof fn law_the_reader_is_shown(state: GreeterView, reader: FingerprintState)
    ensures
        ({
            let step = state.heard(EventView::Fingerprint { state: reader });
            &&& step.state.fingerprint == reader
            &&& step.effects.contains(EffectView::WatchSensor)
                <==> reader is Waiting && !state.watching
            &&& step.state.watching <==> state.watching || reader is Waiting
            &&& step.state.phase == state.phase && step.state.error == state.error
        }),
{
    let step = state.heard(EventView::Fingerprint { state: reader });
    if reader is Waiting && !state.watching {
        assert(step.effects[0] == EffectView::WatchSensor);
    }
}

/// A failure is told the way it happened: a rejection by the highlight, anything else by its
/// message.
pub proof fn law_failures_are_told(state: GreeterView, source: AuthSource, message: Seq<char>)
    requires
        !(state.phase is Starting),
    ensures
        ({
            let failure = AuthFailureView::Rejected;
            let step = state.heard(EventView::Failed { source, failure });
            &&& step.state.rejected && step.effects.contains(EffectView::Highlight)
            &&& step.state.error == state.error
        }),
        ({
            let failure = AuthFailureView::Error { message };
            let step = state.heard(EventView::Failed { source, failure });
            &&& step.state.error == Some(message) && step.state.rejected == state.rejected
            &&& !step.effects.contains(EffectView::Highlight)
        }),
{
    let rejected = state.heard(EventView::Failed { source, failure: AuthFailureView::Rejected });
    assert(rejected.effects[0] == EffectView::Highlight);
}

/// A session is started when, and only when, someone has signed in; then the screen is clear
/// of what went before. Once it runs the screen is gone, and if it does not start, the reason
/// is shown and the attempt begins again.
pub proof fn law_signing_in_starts_the_session(state: GreeterView, event: EventView)
    ensures
        state.heard(event).effects.contains(EffectView::StartSession)
            <==> event is Authenticated && state.connected,
        state.heard(event).effects.contains(EffectView::Quit) <==> event is SessionStarted,
        event is Authenticated ==> ({
            let after = state.heard(event).state;
            &&& after.phase is Starting && !after.switching
            &&& after.fingerprint is Off && after.hint is None && after.error is None
        }),
        event is SessionStarted ==> state.heard(event).state == state,
{
    let effects = state.heard(event).effects;
    if event is SessionStarted {
        assert(effects[0] == EffectView::Quit);
    }
    if event is Authenticated && state.connected {
        assert(effects[0] == EffectView::StartSession);
    }
}

/// A session that does not start puts its reason on the screen, wipes the field and begins
/// again; a request that fails leaves the field as it is, open for another try.
pub proof fn law_trouble_leaves_the_screen_usable(state: GreeterView, message: Seq<char>)
    requires
        state.wf(),
        state.users.len() > 0,
    ensures
        ({
            let step = state.heard(EventView::SessionFailed { message });
            &&& step.state.error == Some(message) && step.state.phase is Ready
            &&& step.state.pending_password is None && !step.state.prompt_ready
            &&& step.effects.first() == EffectView::ClearField
            &&& state.connected ==> step.effects.last() == (EffectView::Authenticate {
                username: state.users[state.selected].name,
            })
        }),
        ({
            let step = state.heard(EventView::RequestFailed { message });
            &&& step.state.error == Some(message) && step.state.phase is Ready
            &&& step.effects.len() == 0
            &&& step.state.pending_password == state.pending_password
            &&& step.state.prompt_ready == state.prompt_ready
        }),
{
}

/// Nothing is handed in while the screen is not ready, nor an empty password. One that is too
/// long is turned down with a word and is not sent.
pub proof fn law_what_is_not_handed_in(state: GreeterView, password: Seq<char>)
    ensures
        !(state.phase is Ready) ==> state.submitted(password, true) == quiet(state)
            && state.submitted(password, false) == quiet(state),
        password.len() == 0 ==> state.submitted(password, true) == quiet(state)
            && state.submitted(password, false) == quiet(state),
        state.phase is Ready && password.len() > 0 ==> ({
            let step = state.submitted(password, false);
            &&& step.effects.len() == 0
            &&& step.state.error == Some("That password is too long"@)
            &&& step.state.phase is Ready
            &&& step.state.pending_password == state.pending_password
        }),
        state.phase is Ready && password.len() > 0 ==> ({
            let after = state.submitted(password, true).state;
            after.phase is Verifying && after.error is None
        }),
{
}

/// The list of accounts opens where there is a choice, and closing it without choosing goes
/// back to the account that is signing in.
pub proof fn law_the_list_opens_for_a_choice(state: GreeterView)
    ensures
        state.users.len() < 2 ==> state.listed(true) == state && state.listed(false) == state,
        state.users.len() >= 2 ==> state.listed(true).switching && !state.listed(false).switching,
        state.users.len() >= 2 ==> state.listed(true).selected == state.selected,
        state.users.len() >= 2 ==> (state.authenticating matches Some(name) ==> state.listed(
            false,
        ).selected == user_from(state.users, 0, name)),
        state.listed(true).phase == state.phase && state.listed(false).phase == state.phase,
{
}

/// Choosing another account leaves the old attempt behind: the list closes, the field is
/// wiped, what was on the screen goes, and an attempt begins for the chosen account.
pub proof fn law_another_account_starts_afresh(state: GreeterView)
    requires
        state.wf(),
        state.users.len() > 0,
        state.authenticating != Some(state.users[state.selected].name),
    ensures
        ({
            let step = state.confirmed();
            let name = state.users[state.selected].name;
            &&& !step.state.switching
            &&& step.state.error is None && step.state.hint is None && !step.state.rejected
            &&& step.state.fingerprint is Off
            &&& step.state.phase is Ready
            &&& step.state.pending_password is None && !step.state.prompt_ready
            &&& step.state.authenticating == Some(name)
            &&& step.effects.first() == EffectView::ClearField
            &&& state.connected ==> step.effects == seq![
                EffectView::ClearField,
                EffectView::Authenticate { username: name },
            ]
            &&& !state.connected ==> step.effects == seq![EffectView::ClearField]
        }),
{
}

/// Losing the service forgets the password and closes the list, and the screen gives the
/// reason. The wait before the next try doubles, from half a second up to five seconds, and
/// grows only where there is a next try.
pub proof fn law_losing_the_service(state: GreeterView, reason: Seq<char>, retry: bool)
    requires
        state.wf(),
    ensures
        ({
            let after = state.cut_off(reason, retry);
            &&& !after.connected && !after.prompt_ready && !after.switching
            &&& after.pending_password is None
            &&& after.phase == PhaseView::Unavailable(reason)
            &&& after.users == state.users && after.selected == state.selected
            &&& !retry ==> after.retry_ms == state.retry_ms
            &&& retry && state.retry_ms <= 2500 ==> after.retry_ms == 2 * state.retry_ms
            &&& retry && state.retry_ms >= 2500 ==> after.retry_ms == 5000
        }),
        500 <= state.retry_ms <= 5000,
{
}

/// What is lost is not sent to: while the service is away nothing goes out to it.
pub proof fn law_nothing_is_sent_while_away(state: GreeterView, effect: EffectView)
    ensures
        !state.connected ==> state.sends(effect).len() == 0,
        state.connected ==> state.sends(effect) == seq![effect],
{
}

/// Every end of a connection is explained in words of its own.
pub proof fn law_ends_are_explained(end: ConnectionEnd)
    ensures
        end.text() == "The login screen was started outside of launch-greetd"@ <==> end is NoSocket,
        end.text() == "The login service cannot be reached"@ <==> end is Unreachable,
        end.text() == "The login screen stopped listening"@ <==> end is ScreenStoppedListening,
        end.text() == "The login service closed the connection"@ <==> end is Closed,
        end.text() == "The login service sent something unreadable"@ <==> end is Unreadable,
        end.text() == "The login service stopped accepting requests"@ <==> end is StoppedAccepting,
        end.text() == "The login screen stopped sending"@ <==> end is ScreenStoppedSending,
{
    reveal_strlit("The login screen was started outside of launch-greetd");
    assert("The login screen was started outside of launch-greetd"@.len() == 53);
    reveal_strlit("The login service cannot be reached");
    assert("The login service cannot be reached"@.len() == 35);
    reveal_strlit("The login screen stopped listening");
    assert("The login screen stopped listening"@.len() == 34);
    reveal_strlit("The login service closed the connection");
    assert("The login service closed the connection"@.len() == 39);
    reveal_strlit("The login service sent something unreadable");
    assert("The login service sent something unreadable"@.len() == 43);
    reveal_strlit("The login service stopped accepting requests");
    assert("The login service stopped accepting requests"@.len() == 44);
    reveal_strlit("The login screen stopped sending");
    assert("The login screen stopped sending"@.len() == 32);
}

} // verus!
