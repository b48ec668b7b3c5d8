//! What the login manager asks for and tells, and what is done about it.

use vstd::prelude::*;

verus! {

/// A lock or unlock request logind forwarded to our session.
#[derive(Clone, Copy, Debug, PartialEq, Eq, Structural)]
pub enum SessionRequest {
    Lock,
    Unlock,
}

/// Locking only queues the request; letting go of the inhibitor right away would
/// race the suspend against it reaching the compositor. This is a fraction of
/// what logind waits for. In milliseconds.
pub const SLEEP_LOCK_GRACE: u64 = 250;



/// Something to do about the session.
#[derive(Clone, Copy, Debug, PartialEq, Eq, Structural)]
pub enum SessionAction {
    Lock,
    Unlock,
    /// Let so many milliseconds pass.
    Wait { millis: u64 },
    /// Hold the system back from suspending.
    TakeInhibitor,
    /// Let the system suspend.
    DropInhibitor,
    RestartFingerprint,
}

/// What is done about a request.
pub fn answer_request(request: SessionRequest) -> (r: SessionAction)
    ensures
        r == (match request {
            SessionRequest::Lock => SessionAction::Lock,
            SessionRequest::Unlock => SessionAction::Unlock,
        }),
{
    match request {
        SessionRequest::Lock => SessionAction::Lock,
        SessionRequest::Unlock => SessionAction::Unlock,
    }
}

/// What is done, in order, as the system goes to sleep or has woken up.
pub open spec fn transition_actions(sleeping: bool) -> Seq<SessionAction> {
    if sleeping {
        seq![
            SessionAction::Lock,
            SessionAction::Wait { millis: SLEEP_LOCK_GRACE },
            SessionAction::DropInhibitor,
        ]
    } else {
        seq![SessionAction::TakeInhibitor, SessionAction::RestartFingerprint]
    }
}

/// Follows the system into and out of sleep: locks the screen before it suspends,
/// and puts the fingerprint reader back together after it wakes. The inhibitor is
/// one use, and taking another is what arms this for the next time.
pub fn follow_sleep(sleeping: bool) -> (r: Vec<SessionAction>)
    ensures
        r@ == transition_actions(sleeping),
{
    let mut out: Vec<SessionAction> = Vec::new();
    if sleeping {
        out.push(SessionAction::Lock);
        out.push(SessionAction::Wait { millis: SLEEP_LOCK_GRACE });
        out.push(SessionAction::DropInhibitor);
    } else {
        out.push(SessionAction::TakeInhibitor);
        out.push(SessionAction::RestartFingerprint);
    }
    assert(out@ =~= transition_actions(sleeping));
    out
}

/// The system is never let go to sleep before the screen has been told to lock and
/// the grace has passed.
pub proof fn law_locked_before_sleep(sleeping: bool, i: int)
    requires
        0 <= i < transition_actions(sleeping).len(),
        transition_actions(sleeping)[i] is DropInhibitor,
    ensures
        exists|j: int, k: int|
            0 <= j < k < i && #[trigger] transition_actions(sleeping)[j] is Lock
                && #[trigger] transition_actions(sleeping)[k] == (SessionAction::Wait {
                millis: SLEEP_LOCK_GRACE,
            }),
{
    assert(transition_actions(sleeping)[0] is Lock);
    assert(transition_actions(sleeping)[1] is Wait);
}

/// Going to sleep locks the session, gives the lock a quarter of a second to show and only
/// then lets the machine go; waking up asks to be told again and starts the reader again, and
/// never unlocks.
pub proof fn law_sleep_and_waking(sleeping: bool, action: SessionAction)
    ensures
        transition_actions(true).len() == 3,
        transition_actions(true).first() is Lock,
        transition_actions(true)[1] == (SessionAction::Wait { millis: 250 }),
        transition_actions(true).last() is DropInhibitor,
        transition_actions(false).len() == 2,
        transition_actions(false).first() is TakeInhibitor,
        transition_actions(false).last() is RestartFingerprint,
        transition_actions(sleeping).contains(action) ==> !(action is Unlock),
{
}

} // verus!
