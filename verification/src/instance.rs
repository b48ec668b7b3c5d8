//! One instance for everyone: what a second start asks of the first, and what the
//! first makes of it.

use vstd::prelude::*;

verus! {

/// What a start asks of the instance that is running.
#[derive(Debug)]
pub struct Request {
    /// The build that asks, where it knows.
    pub build_id: Option<Vec<u8>>,
    pub panel: Option<String>,
    pub open_window: bool,
    pub lock: bool,
}

/// A [`Request`] as a value.
#[verifier::ext_equal]
pub struct RequestView {
    pub build_id: Option<Seq<u8>>,
    pub panel: Option<Seq<char>>,
    pub open_window: bool,
    pub lock: bool,
}

/// An optional list of bytes as a value.
pub open spec fn bytes_view(bytes: Option<Vec<u8>>) -> Option<Seq<u8>> {
    match bytes {
        Some(bytes) => Some(bytes@),
        None => None,
    }
}

impl View for Request {
    type V = RequestView;

    open spec fn view(&self) -> RequestView {
        RequestView {
            build_id: bytes_view(self.build_id),
            panel: crate::text::opt_view(self.panel),
            open_window: self.open_window,
            lock: self.lock,
        }
    }
}

/// What the running instance answers.
#[derive(Clone, Copy, Debug, PartialEq, Eq, Structural)]
pub enum Response {
    /// It goes on, and does what was asked.
    Accepted,
    /// It quits, to make way for another build.
    Quitting,
}

/// What the running instance is told to do.
#[derive(Debug)]
pub enum Message {
    Open { panel: Option<String> },
    Lock,
}

/// A [`Message`] as a value.
pub enum MessageView {
    Open { panel: Option<Seq<char>> },
    Lock,
}

impl View for Message {
    type V = MessageView;

    open spec fn view(&self) -> MessageView {
        match self {
            Message::Open { panel } => MessageView::Open { panel: crate::text::opt_view(*panel) },
            Message::Lock => MessageView::Lock,
        }
    }
}

/// Asks for the launcher, on a panel if one is named.
pub fn open_request(build_id: Option<Vec<u8>>, panel: Option<String>) -> (r: Request)
    ensures
        r@ == (RequestView {
            build_id: bytes_view(build_id),
            panel: crate::text::opt_view(panel),
            open_window: true,
            lock: false,
        }),
{
    Request { build_id, panel, open_window: true, lock: false }
}

/// Asks for the screen to be locked.
pub fn lock_request(build_id: Option<Vec<u8>>) -> (r: Request)
    ensures
        r@ == (RequestView {
            build_id: bytes_view(build_id),
            panel: None,
            open_window: false,
            lock: true,
        }),
{
    Request { build_id, panel: None, open_window: false, lock: true }
}

/// Asks for nothing, so that only the build is compared.
pub fn version_check_request(build_id: Option<Vec<u8>>) -> (r: Request)
    ensures
        r@ == (RequestView {
            build_id: bytes_view(build_id),
            panel: None,
            open_window: false,
            lock: false,
        }),
{
    Request { build_id, panel: None, open_window: false, lock: false }
}

/// Asks the running instance to quit: no build has an empty id.
pub fn quit_request() -> (r: Request)
    ensures
        r@ == (RequestView {
            build_id: Some(Seq::empty()),
            panel: None,
            open_window: false,
            lock: false,
        }),
{
    let empty: Vec<u8> = Vec::new();
    assert(empty@ =~= Seq::<u8>::empty());
    Request { build_id: Some(empty), panel: None, open_window: false, lock: false }
}

/// What becomes of a request.
#[derive(Debug)]
pub struct Outcome {
    pub response: Response,
    /// Whether the instance quits once it has answered.
    pub quit: bool,
    /// What it does otherwise, in order.
    pub messages: Vec<Message>,
}

/// What the running instance does about a request that comes from its own build.
pub open spec fn messages_of(request: RequestView) -> Seq<MessageView> {
    (if request.open_window {
        seq![MessageView::Open { panel: request.panel }]
    } else {
        Seq::empty()
    }) + (if request.lock {
        seq![MessageView::Lock]
    } else {
        Seq::empty()
    })
}

fn same_build(ours: &Option<Vec<u8>>, theirs: &Option<Vec<u8>>) -> (r: bool)
    ensures
        r == (bytes_view(*ours) == bytes_view(*theirs)),
{
    match (ours, theirs) {
        (Some(a), Some(b)) => {
            if a.len() != b.len() {
                return false;
            }
            for i in 0..a.len()
                invariant
                    bytes_view(*ours) == Some(a@),
                    bytes_view(*theirs) == Some(b@),
                    a@.len() == b@.len(),
                    forall|j: int| 0 <= j < i ==> a@[j] == b@[j],
            {
                if a[i] != b[i] {
                    return false;
                }
            }
            assert(a@ =~= b@);
            true
        },
        (None, None) => true,
        _ => false,
    }
}

/// Whether the running instance quits when another start asks something of it.
pub open spec fn quits(ours: Option<Seq<u8>>, theirs: Option<Seq<u8>>, locked: bool) -> bool {
    ours != theirs && !locked
}

/// Answers a request. Another build is made way for, unless the session is locked:
/// quitting while we hold the session lock would leave the compositor locked with no
/// client left to unlock it, so the takeover has to wait until the screen is
/// unlocked.
pub fn answer(ours: &Option<Vec<u8>>, request: Request, locked: bool) -> (r: Outcome)
    ensures
        ({
            let same = bytes_view(*ours) == request@.build_id;
            &&& r.quit == quits(bytes_view(*ours), request@.build_id, locked)
            &&& r.response == (if r.quit {
                Response::Quitting
            } else {
                Response::Accepted
            })
            &&& r.messages@.map_values(|m: Message| m@) == (if same {
                messages_of(request@)
            } else {
                Seq::empty()
            })
        }),
{
    let mut messages: Vec<Message> = Vec::new();
    if !same_build(ours, &request.build_id) {
        assert(messages@.map_values(|m: Message| m@) =~= Seq::<MessageView>::empty());
        return if locked {
            Outcome { response: Response::Accepted, quit: false, messages }
        } else {
            Outcome { response: Response::Quitting, quit: true, messages }
        };
    }
    let ghost asked = request@;
    if request.open_window {
        messages.push(Message::Open { panel: request.panel });
    }
    if request.lock {
        messages.push(Message::Lock);
    }
    assert(messages@.map_values(|m: Message| m@) =~= messages_of(asked));
    Outcome { response: Response::Accepted, quit: false, messages }
}

/// A locked session is never abandoned: whatever is asked while it is locked, the
/// instance goes on.
pub proof fn law_locked_sessions_are_kept(ours: Option<Seq<u8>>, theirs: Option<Seq<u8>>)
    ensures
        !quits(ours, theirs, true),
{
}

/// What came of claiming the address.
#[derive(Clone, Copy, Debug, PartialEq, Eq, Structural)]
pub enum Claim {
    Claimed,
    InUse,
    Failed,
}

/// What to do next while waiting for the address.
#[derive(Clone, Copy, Debug, PartialEq, Eq, Structural)]
pub enum ClaimStep {
    Done,
    /// Try again in so many milliseconds.
    Retry { millis: u64 },
    GiveUp,
    /// Give up, and say that it took too long.
    TimeOut,
}

/// How often the address is tried while another instance quits.
pub const MAX_CLAIMS: u32 = 100;

/// Waits for another instance to let go of the address: `tries` attempts were made
/// before this one.
pub fn acquire_after_quit(tries: u32, claim: Claim) -> (r: ClaimStep)
    ensures
        r == (match claim {
            Claim::Claimed => ClaimStep::Done,
            Claim::Failed => ClaimStep::GiveUp,
            Claim::InUse => if tries + 1 < MAX_CLAIMS {
                ClaimStep::Retry { millis: 10 }
            } else {
                ClaimStep::TimeOut
            },
        }),
        r is TimeOut <==> claim is InUse && tries >= 99,
{
    match claim {
        Claim::Claimed => ClaimStep::Done,
        Claim::Failed => ClaimStep::GiveUp,
        Claim::InUse => {
            if tries < MAX_CLAIMS - 1 {
                ClaimStep::Retry { millis: 10 }
            } else {
                ClaimStep::TimeOut
            }
        },
    }
}

/// What is started.
#[derive(Debug)]
pub enum Startup {
    /// Open the launcher, on a specific panel if one was named.
    Launcher { panel: Option<String> },
    /// Only run the background services.
    Daemon,
    /// Lock the screen right away.
    Lock,
}

/// What was asked for on the command line.
#[derive(Clone, Copy, Debug, PartialEq, Eq, Structural)]
pub enum Command {
    Daemon,
    /// Print so many of the latest notifications.
    Notifications { count: u32 },
    Lock,
}

/// What is started; nothing where only notifications are printed.
pub fn startup(command: Option<Command>, panel: Option<String>) -> (r: Option<Startup>)
    ensures
        match command {
            Some(Command::Daemon) => r matches Some(Startup::Daemon),
            Some(Command::Lock) => r matches Some(Startup::Lock),
            Some(Command::Notifications { .. }) => r is None,
            None => r matches Some(Startup::Launcher { panel: named }) && crate::text::opt_view(
                named,
            ) == crate::text::opt_view(panel),
        },
{
    match command {
        Some(Command::Daemon) => Some(Startup::Daemon),
        Some(Command::Lock) => Some(Startup::Lock),
        Some(Command::Notifications { .. }) => None,
        None => Some(Startup::Launcher { panel }),
    }
}

/// What is asked of the instance that is running already.
pub fn startup_request(startup: &Startup, build_id: Option<Vec<u8>>) -> (r: Request)
    ensures
        r@ == (match *startup {
            Startup::Daemon => RequestView {
                build_id: bytes_view(build_id),
                panel: None,
                open_window: false,
                lock: false,
            },
            Startup::Lock => RequestView {
                build_id: bytes_view(build_id),
                panel: None,
                open_window: false,
                lock: true,
            },
            Startup::Launcher { panel } => RequestView {
                build_id: bytes_view(build_id),
                panel: crate::text::opt_view(panel),
                open_window: true,
                lock: false,
            },
        }),
{
    match startup {
        Startup::Daemon => version_check_request(build_id),
        Startup::Lock => lock_request(build_id),
        Startup::Launcher { panel } => open_request(
            build_id,
            match panel {
                Some(panel) => Some(panel.clone()),
                None => None,
            },
        ),
    }
}

/// How a start goes on once the running instance has answered, or has not.
#[derive(Clone, Copy, Debug, PartialEq, Eq, Structural)]
pub enum Takeover {
    /// The running instance sees to it.
    Leave,
    /// It quits: wait for the address.
    Wait,
    /// It speaks another language: make it quit.
    Force,
}

/// Decides how a start goes on; `None` stands for an answer that could not be had.
pub fn after_response(response: Option<Response>) -> (r: Takeover)
    ensures
        r == (match response {
            Some(Response::Accepted) => Takeover::Leave,
            Some(Response::Quitting) => Takeover::Wait,
            None => Takeover::Force,
        }),
{
    match response {
        Some(Response::Accepted) => Takeover::Leave,
        Some(Response::Quitting) => Takeover::Wait,
        None => Takeover::Force,
    }
}

/// Whether a launcher is opened when one is asked for. The compositor would hide it
/// while the session is locked, and it would still be there after unlocking; and
/// there is only ever one.
pub fn opens_launcher(locked: bool, has_launcher: bool) -> (r: bool)
    ensures
        r == (!locked && !has_launcher),
{
    !locked && !has_launcher
}

/// The running program quits for another build and for nothing else, and never while the
/// session is locked.
pub proof fn law_only_another_build_makes_it_quit(
    ours: Option<Seq<u8>>,
    theirs: Option<Seq<u8>>,
    locked: bool,
)
    ensures
        quits(ours, theirs, locked) <==> !locked && ours != theirs,
        !quits(ours, ours, locked),
        quits(ours, theirs, locked) == quits(theirs, ours, locked),
{
}

/// A request is passed on as it was made: a window opens on the panel that was asked for
/// when one was, and the session locks when that was asked for.
pub proof fn law_requests_are_passed_on(request: RequestView, message: MessageView)
    ensures
        messages_of(request).contains(message) <==> {
            ||| request.open_window && message == (MessageView::Open { panel: request.panel })
            ||| request.lock && message is Lock
        },
        messages_of(request).len() == (if request.open_window {
            1int
        } else {
            0
        }) + (if request.lock {
            1int
        } else {
            0
        }),
        request.open_window ==> messages_of(request)[0] is Open,
{
    let sent = messages_of(request);
    if request.open_window {
        assert(sent[0] == (MessageView::Open { panel: request.panel }));
    }
    if request.lock {
        assert(sent[sent.len() - 1] == MessageView::Lock);
    }
}

} // verus!
