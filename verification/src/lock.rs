//! The lock screen's state, and what it does with each thing it hears: from the
//! keyboard, from PAM, and from the fingerprint reader.
//!
//! Two ways of unlocking run side by side, a password and a fingerprint. Either
//! one unlocks, and neither blocks the other.

use vstd::prelude::*;

use crate::auth::{AuthFailure, AuthUser, FingerprintState};
use crate::auth::{AuthFailureView, AuthUserView};
use crate::fprintd::{VerifyStatus, VerifyStatusView, VerifyUpdate};
use crate::text::same;

verus! {

/// Consecutive unrecognized fingers after which verification stops and the user
/// is pointed at their password.
pub const MAX_FINGERPRINT_FAILURES: u32 = 5;

/// What a PAM stack reports while it verifies a password.
#[derive(Debug)]
pub enum AuthEvent {
    /// An informational message, e.g. "Your password expires in 3 days".
    Info(String),
    /// An error message from a module.
    Error(String),
    /// The attempt ended. `Ok(())` means the password was accepted and the account
    /// is in good standing.
    Finished(Result<(), AuthFailure>),
}

/// An [`AuthEvent`] as a value.
pub enum AuthEventView {
    Info(Seq<char>),
    Error(Seq<char>),
    Accepted,
    Refused(AuthFailureView),
}

impl View for AuthEvent {
    type V = AuthEventView;

    open spec fn view(&self) -> AuthEventView {
        match self {
            AuthEvent::Info(message) => AuthEventView::Info(message@),
            AuthEvent::Error(message) => AuthEventView::Error(message@),
            AuthEvent::Finished(Ok(_)) => AuthEventView::Accepted,
            AuthEvent::Finished(Err(failure)) => AuthEventView::Refused(failure@),
        }
    }
}

/// What the lock asks of its surroundings.
#[derive(Debug)]
pub enum LockEffect {
    /// Verify this password.
    Verify { password: String },
    /// Show this text in the password fields of all screens but `source`.
    Mirror { value: String, source: Option<u64> },
    /// Outline the fields for a while, then call [`Lock::highlight_over`].
    Highlight,
    /// Look the reader up and claim it, after handing back the one that was held,
    /// if there was one.
    StartReader { release_first: bool },
    /// Follow the sensor of the reader that was claimed, and verify fingers on it.
    WatchReader,
    /// Stop the reader and hand it back.
    ReleaseReader,
    /// Let the session be seen again.
    UnlockSession,
}

/// A [`LockEffect`] as a value.
pub enum LockEffectView {
    Verify { password: Seq<char> },
    Mirror { value: Seq<char>, source: Option<u64> },
    Highlight,
    StartReader { release_first: bool },
    WatchReader,
    ReleaseReader,
    UnlockSession,
}

impl View for LockEffect {
    type V = LockEffectView;

    open spec fn view(&self) -> LockEffectView {
        match self {
            LockEffect::Verify { password } => LockEffectView::Verify { password: password@ },
            LockEffect::Mirror { value, source } => LockEffectView::Mirror {
                value: value@,
                source: *source,
            },
            LockEffect::Highlight => LockEffectView::Highlight,
            LockEffect::StartReader { release_first } => LockEffectView::StartReader {
                release_first: *release_first,
            },
            LockEffect::WatchReader => LockEffectView::WatchReader,
            LockEffect::ReleaseReader => LockEffectView::ReleaseReader,
            LockEffect::UnlockSession => LockEffectView::UnlockSession,
        }
    }
}

/// Effects as values.
pub open spec fn effect_views(effects: Seq<LockEffect>) -> Seq<LockEffectView> {
    effects.map_values(|e: LockEffect| e@)
}

/// Shared state of one lock session, drawn on every output.
#[derive(Debug)]
pub struct Lock {
    user: AuthUser,
    pam_service: String,
    fingerprint_enabled: bool,
    /// Set while a password attempt is in flight. Further submissions are ignored
    /// until it resolves.
    authenticating: bool,
    /// Why the last attempt failed, if it did.
    error: Option<String>,
    /// Whether an attempt was turned down just now, which the field is outlined
    /// for. It outlives neither the time the outline is given nor the next attempt.
    rejected: bool,
    /// Whatever PAM had to say during an attempt.
    hint: Option<String>,
    fingerprint_state: FingerprintState,
    /// Whether a reader is claimed.
    reader_held: bool,
}

/// The state of a lock session as a value.
#[verifier::ext_equal]
pub struct LockView {
    pub user: AuthUserView,
    pub pam_service: Seq<char>,
    pub fingerprint_enabled: bool,
    pub authenticating: bool,
    pub error: Option<Seq<char>>,
    pub rejected: bool,
    pub hint: Option<Seq<char>>,
    pub fingerprint_state: FingerprintState,
    pub reader_held: bool,
}

impl View for Lock {
    type V = LockView;

    closed spec fn view(&self) -> LockView {
        LockView {
            user: self.user@,
            pam_service: self.pam_service@,
            fingerprint_enabled: self.fingerprint_enabled,
            authenticating: self.authenticating,
            error: crate::text::opt_view(self.error),
            rejected: self.rejected,
            hint: crate::text::opt_view(self.hint),
            fingerprint_state: self.fingerprint_state,
            reader_held: self.reader_held,
        }
    }
}

/// A step of the lock: its state after, and what it asks for.
#[verifier::ext_equal]
pub struct LockStep {
    pub state: LockView,
    pub effects: Seq<LockEffectView>,
}

/// A step that asks for nothing.
pub open spec fn quiet(state: LockView) -> LockStep {
    LockStep { state, effects: Seq::empty() }
}

/// How setting up the fingerprint reader turned out.
#[derive(Clone, Copy, Debug, PartialEq, Eq, Structural)]
pub enum ReaderSetup {
    Ready,
    /// No service, no reader or no enrolled prints. Expected on plenty of
    /// machines, and nothing the lock screen should mention.
    Unavailable,
    /// The service stopped answering. Worth saying out loud, because the
    /// alternative is the user pressing a finger against a reader that will never
    /// reply.
    Unresponsive,
}

/// How one verification attempt ended.
#[derive(Clone, Copy, Debug, PartialEq, Eq, Structural)]
pub enum Attempt {
    /// A finger matched an enrolled print.
    Matched,
    /// The attempt ended without a match; another one can be started.
    Rejected,
    /// The reader can't be used any more.
    Failed,
    /// The lock screen went away mid-attempt.
    Gone,
}

impl LockView {
    /// Handing the reader back. Nothing is listening for a finger from here on.
    pub open spec fn released(self) -> LockStep {
        LockStep {
            state: LockView {
                fingerprint_state: FingerprintState::Off,
                reader_held: false,
                ..self
            },
            effects: if self.reader_held {
                seq![LockEffectView::ReleaseReader]
            } else {
                Seq::empty()
            },
        }
    }

    /// Unlocking the session.
    pub open spec fn unlocked(self) -> LockStep {
        LockStep {
            state: self.released().state,
            effects: self.released().effects.push(LockEffectView::UnlockSession),
        }
    }

    /// Taking the reader off the screen and saying why, in the same place a
    /// rejected password lands.
    pub open spec fn reader_lost(self, message: Seq<char>) -> LockView {
        LockView { error: Some(message), fingerprint_state: FingerprintState::Off, ..self }
    }

    /// What submitting a password does.
    pub open spec fn submitted(self, password: Seq<char>) -> LockStep {
        if self.authenticating || password.len() == 0 {
            quiet(self)
        } else {
            LockStep {
                state: LockView { authenticating: true, error: None, rejected: false, ..self },
                effects: seq![LockEffectView::Verify { password }],
            }
        }
    }

    /// What one message from the PAM stack does. A wrong password is answered by
    /// the outline alone; anything else is worth spelling out.
    pub open spec fn heard(self, event: AuthEventView) -> LockStep {
        match event {
            AuthEventView::Info(message) => quiet(LockView { hint: Some(message), ..self }),
            AuthEventView::Error(message) => quiet(LockView { error: Some(message), ..self }),
            AuthEventView::Accepted => self.unlocked(),
            AuthEventView::Refused(failure) => LockStep {
                state: LockView {
                    authenticating: false,
                    rejected: true,
                    error: match failure {
                        AuthFailureView::Error { message } => Some(message),
                        AuthFailureView::Rejected => self.error,
                    },
                    ..self
                },
                effects: seq![
                    LockEffectView::Highlight,
                    LockEffectView::Mirror { value: Seq::empty(), source: None },
                ],
            },
        }
    }

    /// What typing does: the other screens follow, and something actually typed
    /// drops the last error. Emptying the field is what a rejection does to it,
    /// and the message saying why has to outlive that.
    pub open spec fn typed(self, value: Seq<char>, source: u64) -> LockStep {
        LockStep {
            state: LockView {
                error: if value.len() > 0 {
                    None
                } else {
                    self.error
                },
                ..self
            },
            effects: seq![LockEffectView::Mirror { value, source: Some(source) }],
        }
    }

    /// What a status update of a running verification does, and how it ends the
    /// attempt, if it does. A retry hint that ends the attempt leaves the reader
    /// idle, so it has to be restarted like any other rejection.
    pub open spec fn scanned(self, status: VerifyStatusView, done: bool) -> (
        LockStep,
        Option<Attempt>,
    ) {
        match status {
            VerifyStatusView::Match => (quiet(self), Some(Attempt::Matched)),
            VerifyStatusView::NoMatch => (
                LockStep {
                    state: LockView { rejected: true, ..self },
                    effects: seq![LockEffectView::Highlight],
                },
                Some(Attempt::Rejected),
            ),
            VerifyStatusView::Retry(hint) => (
                quiet(LockView { error: Some(hint), ..self }),
                if done {
                    Some(Attempt::Rejected)
                } else {
                    None
                },
            ),
            VerifyStatusView::Failed(message) => (
                quiet(self.reader_lost(message)),
                Some(Attempt::Failed),
            ),
        }
    }

    /// What the end of setting up the reader does.
    pub open spec fn set_up(self, setup: ReaderSetup) -> LockStep {
        match setup {
            ReaderSetup::Ready => LockStep {
                state: LockView { reader_held: true, ..self },
                effects: seq![LockEffectView::WatchReader],
            },
            ReaderSetup::Unavailable => quiet(
                LockView { fingerprint_state: FingerprintState::Off, ..self },
            ),
            ReaderSetup::Unresponsive => quiet(
                self.reader_lost("The fingerprint reader isn't responding"@),
            ),
        }
    }
}

impl Lock {
    /// A lock session that has just begun.
    pub fn new(user: AuthUser, pam_service: String, fingerprint: bool) -> (r: Self)
        ensures
            r@ == (LockView {
                user: user@,
                pam_service: pam_service@,
                fingerprint_enabled: fingerprint,
                authenticating: false,
                error: None,
                rejected: false,
                hint: None,
                fingerprint_state: FingerprintState::Off,
                reader_held: false,
            }),
    {
        Lock {
            user,
            pam_service,
            fingerprint_enabled: fingerprint,
            authenticating: false,
            error: None,
            rejected: false,
            hint: None,
            fingerprint_state: FingerprintState::Off,
            reader_held: false,
        }
    }

    /// Starts what only makes sense once the lock surfaces are actually up.
    pub fn start(&mut self) -> (r: Vec<LockEffect>)
        ensures
            final(self)@ == (if old(self)@.fingerprint_enabled {
                LockView { fingerprint_state: FingerprintState::Starting, ..old(self)@ }
            } else {
                old(self)@
            }),
            effect_views(r@) == (if old(self)@.fingerprint_enabled {
                seq![LockEffectView::StartReader { release_first: false }]
            } else {
                Seq::empty()
            }),
    {
        let mut effects: Vec<LockEffect> = Vec::new();
        if self.fingerprint_enabled {
            self.fingerprint_state = FingerprintState::Starting;
            effects.push(LockEffect::StartReader { release_first: false });
            assert(effect_views(effects@) =~= seq![
                LockEffectView::StartReader { release_first: false },
            ]);
        } else {
            assert(effect_views(effects@) =~= Seq::<LockEffectView>::empty());
        }
        effects
    }

    /// Takes a password from a field; see [`LockView::submitted`].
    pub fn submit(&mut self, password: String) -> (r: Vec<LockEffect>)
        ensures
            final(self)@ == old(self)@.submitted(password@).state,
            effect_views(r@) == old(self)@.submitted(password@).effects,
    {
        let mut effects: Vec<LockEffect> = Vec::new();
        assert(effect_views(effects@) =~= Seq::<LockEffectView>::empty());
        if self.authenticating || password.as_str().is_empty() {
            return effects;
        }
        self.authenticating = true;
        self.error = None;
        self.rejected = false;
        effects.push(LockEffect::Verify { password });
        assert(effect_views(effects@) =~= seq![LockEffectView::Verify { password: password@ }]);
        effects
    }

    /// Applies one message from the PAM stack. Says whether the attempt is over.
    pub fn apply_auth_event(&mut self, event: AuthEvent) -> (r: (bool, Vec<LockEffect>))
        ensures
            final(self)@ == old(self)@.heard(event@).state,
            effect_views(r.1@) == old(self)@.heard(event@).effects,
            r.0 == (event is Finished),
    {
        let mut effects: Vec<LockEffect> = Vec::new();
        assert(effect_views(effects@) =~= Seq::<LockEffectView>::empty());
        match event {
            AuthEvent::Info(message) => {
                self.hint = Some(message);
                (false, effects)
            },
            AuthEvent::Error(message) => {
                self.error = Some(message);
                (false, effects)
            },
            AuthEvent::Finished(Ok(_)) => (true, self.unlock()),
            AuthEvent::Finished(Err(failure)) => {
                self.authenticating = false;
                if let AuthFailure::Error { message } = failure {
                    self.error = Some(message);
                }
                self.rejected = true;
                effects.push(LockEffect::Highlight);
                effects.push(LockEffect::Mirror { value: String::new(), source: None });
                assert(effect_views(effects@) =~= seq![
                    LockEffectView::Highlight,
                    LockEffectView::Mirror { value: Seq::empty(), source: None },
                ]);
                (true, effects)
            },
        }
    }

    /// Takes the outline off the fields again.
    pub fn highlight_over(&mut self)
        ensures
            final(self)@ == (LockView { rejected: false, ..old(self)@ }),
    {
        self.rejected = false;
    }

    /// Mirrors what was typed on one screen onto the others; see
    /// [`LockView::typed`].
    pub fn password_changed(&mut self, value: String, source: u64) -> (r: Vec<LockEffect>)
        ensures
            final(self)@ == old(self)@.typed(value@, source).state,
            effect_views(r@) == old(self)@.typed(value@, source).effects,
    {
        let mut effects: Vec<LockEffect> = Vec::new();
        if !value.as_str().is_empty() {
            self.error = None;
        }
        effects.push(LockEffect::Mirror { value, source: Some(source) });
        assert(effect_views(effects@) =~= seq![
            LockEffectView::Mirror { value: value@, source: Some(source) },
        ]);
        effects
    }

    /// Starts over with the fingerprint reader, for when the one in use is no
    /// longer good. Whatever is held is handed back first.
    pub fn restart_fingerprint(&mut self) -> (r: Vec<LockEffect>)
        ensures
            final(self)@ == (if old(self)@.fingerprint_enabled {
                LockView {
                    error: None,
                    reader_held: false,
                    fingerprint_state: FingerprintState::Starting,
                    ..old(self)@
                }
            } else {
                old(self)@
            }),
            effect_views(r@) == (if old(self)@.fingerprint_enabled {
                seq![LockEffectView::StartReader { release_first: old(self)@.reader_held }]
            } else {
                Seq::empty()
            }),
    {
        let mut effects: Vec<LockEffect> = Vec::new();
        if !self.fingerprint_enabled {
            assert(effect_views(effects@) =~= Seq::<LockEffectView>::empty());
            return effects;
        }
        // Nothing that was said about the old reader still applies.
        self.error = None;
        let previous: bool = self.reader_held;
        self.reader_held = false;
        self.fingerprint_state = FingerprintState::Starting;
        effects.push(LockEffect::StartReader { release_first: previous });
        assert(effect_views(effects@) =~= seq![
            LockEffectView::StartReader { release_first: previous },
        ]);
        effects
    }

    /// Takes in how setting up the reader turned out; see [`LockView::set_up`].
    pub fn reader_set_up(&mut self, setup: ReaderSetup) -> (r: Vec<LockEffect>)
        ensures
            final(self)@ == old(self)@.set_up(setup).state,
            effect_views(r@) == old(self)@.set_up(setup).effects,
    {
        let mut effects: Vec<LockEffect> = Vec::new();
        match setup {
            ReaderSetup::Ready => {
                self.reader_held = true;
                effects.push(LockEffect::WatchReader);
            },
            ReaderSetup::Unavailable => {
                self.fingerprint_state = FingerprintState::Off;
            },
            ReaderSetup::Unresponsive => {
                self.fingerprint_failed("The fingerprint reader isn't responding".to_owned());
            },
        }
        assert(effect_views(effects@) =~= old(self)@.set_up(setup).effects);
        effects
    }

    /// Takes in that the reader is actually listening, which is where asking for a
    /// finger becomes honest.
    pub fn reader_armed(&mut self)
        ensures
            final(self)@ == (LockView {
                fingerprint_state: FingerprintState::Waiting,
                ..old(self)@
            }),
    {
        self.fingerprint_state = FingerprintState::Waiting;
    }

    /// Takes the reader off the screen and says why.
    pub fn fingerprint_failed(&mut self, message: String)
        ensures
            final(self)@ == old(self)@.reader_lost(message@),
    {
        self.error = Some(message);
        self.fingerprint_state = FingerprintState::Off;
    }

    /// Takes in a status update of a running verification; see
    /// [`LockView::scanned`].
    pub fn apply_scan(&mut self, update: VerifyUpdate) -> (r: (Vec<LockEffect>, Option<Attempt>))
        ensures
            final(self)@ == old(self)@.scanned(update.status@, update.done).0.state,
            effect_views(r.0@) == old(self)@.scanned(update.status@, update.done).0.effects,
            r.1 == old(self)@.scanned(update.status@, update.done).1,
    {
        let mut effects: Vec<LockEffect> = Vec::new();
        let outcome = match update.status {
            VerifyStatus::Match => Some(Attempt::Matched),
            VerifyStatus::NoMatch => {
                self.rejected = true;
                effects.push(LockEffect::Highlight);
                Some(Attempt::Rejected)
            },
            VerifyStatus::Retry(hint) => {
                self.error = Some(hint);
                if update.done {
                    Some(Attempt::Rejected)
                } else {
                    None
                }
            },
            VerifyStatus::Failed(message) => {
                self.fingerprint_failed(message);
                Some(Attempt::Failed)
            },
        };
        assert(effect_views(effects@) =~= old(self)@.scanned(
            update.status@,
            update.done,
        ).0.effects);
        (effects, outcome)
    }

    /// Follows the sensor.
    pub fn set_finger_present(&mut self, present: bool)
        ensures
            final(self)@ == (LockView {
                fingerprint_state: old(self)@.fingerprint_state.sensed(present),
                ..old(self)@
            }),
    {
        self.fingerprint_state = self.fingerprint_state.sense(present);
    }

    /// Hands the reader back. Keeping it would lock out every other user of it.
    pub fn release_fingerprint(&mut self) -> (r: Vec<LockEffect>)
        ensures
            final(self)@ == old(self)@.released().state,
            effect_views(r@) == old(self)@.released().effects,
    {
        let mut effects: Vec<LockEffect> = Vec::new();
        self.fingerprint_state = FingerprintState::Off;
        if self.reader_held {
            self.reader_held = false;
            effects.push(LockEffect::ReleaseReader);
        }
        assert(effect_views(effects@) =~= old(self)@.released().effects);
        effects
    }

    /// Unlocks the session.
    pub fn unlock(&mut self) -> (r: Vec<LockEffect>)
        ensures
            final(self)@ == old(self)@.unlocked().state,
            effect_views(r@) == old(self)@.unlocked().effects,
    {
        let mut effects = self.release_fingerprint();
        effects.push(LockEffect::UnlockSession);
        assert(effect_views(effects@) =~= old(self)@.unlocked().effects);
        effects
    }

    /// Whether the field takes no input: typing is off while either check is
    /// mid-flight, since a rejected attempt empties the field and would take
    /// anything typed since with it.
    pub fn field_disabled(&self) -> (r: bool)
        ensures
            r == (self@.authenticating || self@.fingerprint_state is Reading),
    {
        self.authenticating || match self.fingerprint_state {
            FingerprintState::Reading => true,
            _ => false,
        }
    }

    pub fn user(&self) -> (r: &AuthUser)
        ensures
            r@ == self@.user,
    {
        &self.user
    }

    pub fn pam_service(&self) -> (r: &String)
        ensures
            r@ == self@.pam_service,
    {
        &self.pam_service
    }

    pub fn error(&self) -> (r: &Option<String>)
        ensures
            crate::text::opt_view(*r) == self@.error,
    {
        &self.error
    }

    pub fn hint(&self) -> (r: &Option<String>)
        ensures
            crate::text::opt_view(*r) == self@.hint,
    {
        &self.hint
    }

    pub fn rejected(&self) -> (r: bool)
        ensures
            r == self@.rejected,
    {
        self.rejected
    }

    pub fn authenticating(&self) -> (r: bool)
        ensures
            r == self@.authenticating,
    {
        self.authenticating
    }

    pub fn fingerprint_state(&self) -> (r: FingerprintState)
        ensures
            r == self@.fingerprint_state,
    {
        self.fingerprint_state
    }
}

/// Whether a screen takes over what was typed on another. Its own typing does not
/// come back to it, and a text it already shows is left alone, which also stops
/// the mirroring from bouncing back and forth.
pub fn applies_mirror(own: u64, source: Option<u64>, current: &str, value: &str) -> (r: bool)
    ensures
        r == (source != Some(own) && current@ != value@),
{
    let from_here: bool = match source {
        Some(source) => source == own,
        None => false,
    };
    !from_here && !same(current, value)
}

/// How a call to the reader's service ended.
#[derive(Clone, Copy, Debug, PartialEq, Eq, Structural)]
pub enum Call {
    /// It answered.
    Answered,
    /// It answered that there is nothing there.
    Nothing,
    /// It answered with an error.
    Error,
    /// It did not answer in time.
    TimedOut,
}

/// What looking the reader up means for setting it up; nothing where it can go
/// on to be claimed.
pub fn after_find(find: Call) -> (r: Option<ReaderSetup>)
    ensures
        r == (match find {
            Call::Answered => None,
            Call::Nothing | Call::Error => Some(ReaderSetup::Unavailable),
            Call::TimedOut => Some(ReaderSetup::Unresponsive),
        }),
{
    match find {
        Call::Answered => None,
        Call::Nothing | Call::Error => Some(ReaderSetup::Unavailable),
        Call::TimedOut => Some(ReaderSetup::Unresponsive),
    }
}

/// What claiming the reader means for setting it up, and whether the claim has to
/// be undone in the background: one that is still outstanding may yet land, and
/// would keep the reader for the rest of the process's life.
pub fn after_claim(claim: Call) -> (r: (ReaderSetup, bool))
    ensures
        r == (match claim {
            Call::Answered => (ReaderSetup::Ready, false),
            Call::Nothing | Call::Error => (ReaderSetup::Unavailable, false),
            Call::TimedOut => (ReaderSetup::Unresponsive, true),
        }),
{
    match claim {
        Call::Answered => (ReaderSetup::Ready, false),
        Call::Nothing | Call::Error => (ReaderSetup::Unavailable, false),
        Call::TimedOut => (ReaderSetup::Unresponsive, true),
    }
}

/// What verifying fingers does next.
#[derive(Clone, Copy, Debug, PartialEq, Eq, Structural)]
pub enum VerifyNext {
    /// Start another attempt.
    Again,
    /// Unlock the session.
    Unlock,
    /// Hand the reader back without the lock screen, which is gone.
    ReleaseAlone,
    /// Give the reader up.
    GiveUp,
    /// Say that there were too many attempts, and give the reader up.
    TooMany,
}

/// Verifies fingers until one matches, the reader gives up, or too many attempts
/// fail. Password entry stays usable the whole time.
#[derive(Clone, Copy, Debug, PartialEq, Eq, Structural)]
pub struct Verification {
    /// How many fingers in a row were turned down.
    pub failures: u32,
}

impl Verification {
    /// Whether fewer fingers were turned down than are allowed.
    pub open spec fn wf(self) -> bool {
        self.failures < MAX_FINGERPRINT_FAILURES
    }

    pub fn new() -> (r: Self)
        ensures
            r.wf(),
            r.failures == 0,
    {
        Verification { failures: 0 }
    }

    /// Takes in how an attempt ended.
    pub fn attempted(&mut self, attempt: Attempt) -> (r: VerifyNext)
        requires
            old(self).wf(),
        ensures
            final(self).failures == old(self).failures + (if attempt is Rejected {
                1int
            } else {
                0int
            }),
            r == (match attempt {
                Attempt::Matched => VerifyNext::Unlock,
                Attempt::Gone => VerifyNext::ReleaseAlone,
                Attempt::Failed => VerifyNext::GiveUp,
                Attempt::Rejected => if old(self).failures + 1 >= MAX_FINGERPRINT_FAILURES {
                    VerifyNext::TooMany
                } else {
                    VerifyNext::Again
                },
            }),
            r is Again ==> final(self).wf(),
            r is TooMany <==> attempt is Rejected && final(self).failures >= 5,
            r is Unlock <==> attempt is Matched,
    {
        match attempt {
            Attempt::Matched => VerifyNext::Unlock,
            Attempt::Gone => VerifyNext::ReleaseAlone,
            Attempt::Failed => VerifyNext::GiveUp,
            Attempt::Rejected => {
                self.failures = self.failures + 1;
                if self.failures >= MAX_FINGERPRINT_FAILURES {
                    VerifyNext::TooMany
                } else {
                    VerifyNext::Again
                }
            },
        }
    }
}

/// What starting an attempt came to: nothing where it runs, otherwise how it
/// ended, and whether the reader is to be reported as not responding.
pub fn after_start(start: Call) -> (r: Option<(Attempt, bool)>)
    ensures
        r == (match start {
            Call::Answered => None,
            Call::Nothing | Call::Error => Some((Attempt::Failed, false)),
            Call::TimedOut => Some((Attempt::Failed, true)),
        }),
{
    match start {
        Call::Answered => None,
        Call::Nothing | Call::Error => Some((Attempt::Failed, false)),
        Call::TimedOut => Some((Attempt::Failed, true)),
    }
}

/// What a request to lock comes to.
#[derive(Clone, Copy, Debug, PartialEq, Eq, Structural)]
pub enum LockRequest {
    /// The session is locked already.
    Already,
    /// It is not known whom to let back in, so nothing is locked.
    Refuse,
    /// Lock, after forgetting a lock that ended without unlocking, if there is
    /// one.
    Lock,
}

/// Decides a request to lock. The surfaces are the source of truth: a compositor
/// that takes the lock away closes them without unlocking. Says too whether a
/// lock that ended that way has to be forgotten first.
pub fn request_lock(screens_exist: bool, lock_known: bool, user_known: bool) -> (r: (
    LockRequest,
    bool,
))
    ensures
        r == (if screens_exist {
            (LockRequest::Already, false)
        } else if user_known {
            (LockRequest::Lock, lock_known)
        } else {
            (LockRequest::Refuse, lock_known)
        }),
{
    if screens_exist {
        (LockRequest::Already, false)
    } else if user_known {
        (LockRequest::Lock, lock_known)
    } else {
        (LockRequest::Refuse, lock_known)
    }
}

/// The session is let go only by the right password, the right finger, or a
/// request to unlock: no other message from the PAM stack unlocks it.
pub proof fn law_only_acceptance_unlocks(state: LockView, event: AuthEventView)
    ensures
        state.heard(event).effects.contains(LockEffectView::UnlockSession)
            <==> event is Accepted,
{
    let effects = state.heard(event).effects;
    if event is Accepted {
        assert(effects.last() == LockEffectView::UnlockSession);
    } else {
        assert(forall|i: int| 0 <= i < effects.len() ==> !(effects[i] is UnlockSession));
    }
}

/// Neither way of unlocking blocks the other: whatever the reader reports, a
/// password attempt goes on as it was, and a password can be submitted exactly as
/// before.
pub proof fn law_fingers_leave_the_password_alone(
    state: LockView,
    status: VerifyStatusView,
    done: bool,
    password: Seq<char>,
)
    ensures
        state.scanned(status, done).0.state.authenticating == state.authenticating,
        state.scanned(status, done).0.state.submitted(password).effects == state.submitted(
            password,
        ).effects,
{
}

/// A second password while the first is being verified changes nothing.
pub proof fn law_one_attempt_at_a_time(state: LockView, first: Seq<char>, second: Seq<char>)
    requires
        first.len() > 0,
        !state.authenticating,
    ensures
        state.submitted(first).state.submitted(second) == quiet(state.submitted(first).state),
{
}

/// A refused password leaves the field ready for the next one, whose attempt ends
/// the outline of the first.
pub proof fn law_refusal_allows_another_attempt(
    state: LockView,
    failure: AuthFailureView,
    password: Seq<char>,
)
    requires
        password.len() > 0,
    ensures
        state.heard(AuthEventView::Refused(failure)).state.submitted(password).effects == seq![
            LockEffectView::Verify { password },
        ],
        !state.heard(AuthEventView::Refused(failure)).state.submitted(password).state.rejected,
{
}

/// Unlocking always hands back a reader that is held, and leaves none held.
pub proof fn law_unlocking_releases_the_reader(state: LockView)
    ensures
        !state.unlocked().state.reader_held,
        state.unlocked().state.fingerprint_state is Off,
        state.reader_held ==> state.unlocked().effects == seq![
            LockEffectView::ReleaseReader,
            LockEffectView::UnlockSession,
        ],
{
    if state.reader_held {
        assert(state.unlocked().effects =~= seq![
            LockEffectView::ReleaseReader,
            LockEffectView::UnlockSession,
        ]);
    }
}

/// What the password stack says is shown as it is said: information as the hint, trouble as
/// the error, and neither touches the other, the attempt that runs or the reader.
pub proof fn law_messages_are_shown(state: LockView, message: Seq<char>)
    ensures
        ({
            let told = state.heard(AuthEventView::Info(message));
            let warned = state.heard(AuthEventView::Error(message));
            &&& told.state.hint == Some(message) && told.state.error == state.error
            &&& warned.state.error == Some(message) && warned.state.hint == state.hint
            &&& told.effects.len() == 0 && warned.effects.len() == 0
            &&& told.state.authenticating == state.authenticating
            &&& warned.state.authenticating == state.authenticating
            &&& told.state.rejected == state.rejected && warned.state.rejected == state.rejected
            &&& told.state.fingerprint_state == state.fingerprint_state
            &&& warned.state.fingerprint_state == state.fingerprint_state
        }),
{
}

/// A refused password ends the attempt, is highlighted and is wiped from every screen. Only a
/// refusal that gives its reason replaces the message on the screen.
pub proof fn law_refusals_wipe_the_field(state: LockView, message: Seq<char>)
    ensures
        ({
            let wrong = state.heard(AuthEventView::Refused(AuthFailureView::Rejected));
            let broken = state.heard(AuthEventView::Refused(AuthFailureView::Error { message }));
            let wiped = LockEffectView::Mirror { value: Seq::<char>::empty(), source: None };
            &&& !wrong.state.authenticating && !broken.state.authenticating
            &&& wrong.state.rejected && broken.state.rejected
            &&& wrong.state.error == state.error && broken.state.error == Some(message)
            &&& wrong.effects == seq![LockEffectView::Highlight, wiped]
            &&& broken.effects == wrong.effects
            &&& wrong.state.reader_held == state.reader_held
            &&& wrong.state.fingerprint_state == state.fingerprint_state
        }),
{
}

/// A password is checked, and checked as typed, exactly when there is one and none is being
/// checked. Checking clears what the last attempt left on the screen.
pub proof fn law_passwords_are_checked(state: LockView, password: Seq<char>)
    ensures
        ({
            let step = state.submitted(password);
            let checked = LockEffectView::Verify { password };
            &&& step.effects.contains(checked) <==> password.len() > 0 && !state.authenticating
            &&& step.effects.contains(checked) ==> step.effects.len() == 1
                && step.state.authenticating && step.state.error is None && !step.state.rejected
            &&& !step.effects.contains(checked) ==> step.state == state && step.effects.len() == 0
            &&& step.state.hint == state.hint
            &&& step.state.reader_held == state.reader_held
        }),
{
    let step = state.submitted(password);
    if password.len() > 0 && !state.authenticating {
        assert(step.effects[0] == (LockEffectView::Verify { password }));
    }
}

/// What is typed on one screen shows on the others, and typing anything clears the error.
pub proof fn law_typing_is_mirrored(state: LockView, value: Seq<char>, source: u64)
    ensures
        state.typed(value, source).effects == seq![
            LockEffectView::Mirror { value, source: Some(source) },
        ],
        value.len() > 0 ==> state.typed(value, source).state.error is None,
        value.len() == 0 ==> state.typed(value, source).state == state,
        (LockView { error: state.error, ..state.typed(value, source).state }) == state,
{
}

/// A scan unlocks when, and only when, the finger matched. A finger that did not match is
/// highlighted; one that could not be read says why, and counts only once the scan is over;
/// a reader that failed says so and is given up.
pub proof fn law_scans_are_judged(state: LockView, text: Seq<char>, done: bool)
    ensures
        state.scanned(VerifyStatusView::Match, done) == (quiet(state), Some(Attempt::Matched)),
        ({
            let (step, attempt) = state.scanned(VerifyStatusView::NoMatch, done);
            &&& attempt == Some(Attempt::Rejected)
            &&& step.state.rejected && step.effects == seq![LockEffectView::Highlight]
            &&& step.state.error == state.error
        }),
        ({
            let (step, attempt) = state.scanned(VerifyStatusView::Retry(text), done);
            &&& attempt is Some <==> done
            &&& attempt is Some ==> attempt == Some(Attempt::Rejected)
            &&& step.state.error == Some(text) && step.effects.len() == 0
            &&& step.state.rejected == state.rejected
            &&& step.state.fingerprint_state == state.fingerprint_state
        }),
        ({
            let (step, attempt) = state.scanned(VerifyStatusView::Failed(text), done);
            &&& attempt == Some(Attempt::Failed)
            &&& step.state.error == Some(text) && step.effects.len() == 0
            &&& step.state.fingerprint_state is Off
        }),
{
}

/// A reader is held from the moment it is ready and is watched from then on. One that is not
/// there is passed over in silence; one that does not answer is named.
pub proof fn law_readers_are_held_once_ready(state: LockView)
    ensures
        ({
            let step = state.set_up(ReaderSetup::Ready);
            &&& step.state.reader_held
            &&& step.effects == seq![LockEffectView::WatchReader]
            &&& step.state.error == state.error
            &&& step.state.fingerprint_state == state.fingerprint_state
        }),
        ({
            let step = state.set_up(ReaderSetup::Unavailable);
            &&& step.state.fingerprint_state is Off
            &&& step.state.error == state.error && step.effects.len() == 0
            &&& step.state.reader_held == state.reader_held
        }),
        ({
            let step = state.set_up(ReaderSetup::Unresponsive);
            &&& step.state.fingerprint_state is Off
            &&& step.state.error == Some("The fingerprint reader isn't responding"@)
            &&& step.effects.len() == 0
        }),
{
}

/// Only a reader that is held is released, and once.
pub proof fn law_readers_are_released_once(state: LockView)
    ensures
        state.released().effects.contains(LockEffectView::ReleaseReader) <==> state.reader_held,
        state.released().effects.len() <= 1,
        state.released().state.released() == quiet(state.released().state),
        state.released().state.fingerprint_state is Off,
        state.released().state.error == state.error,
        state.unlocked().effects.last() == LockEffectView::UnlockSession,
        state.unlocked().effects.drop_last() == state.released().effects,
{
    if state.reader_held {
        assert(state.released().effects[0] == LockEffectView::ReleaseReader);
    }
    assert(state.released().state.released().effects =~= Seq::<LockEffectView>::empty());
}

} // verus!
