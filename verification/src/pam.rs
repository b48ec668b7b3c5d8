//! Verifying a password against PAM: which service is asked, how its questions
//! are answered, and what its failures mean.

use vstd::prelude::*;

use crate::auth::{AuthFailure, AuthFailureView};
use crate::names::find_name;
use crate::text::{chars_of, find_from, trim};

verus! {

/// The files that may describe a service, in the order in which they are looked
/// for.
pub open spec fn service_files(service: Seq<char>) -> Seq<Seq<char>> {
    seq!["/etc/pam.d/"@ + service, "/usr/lib/pam.d/"@ + service]
}

/// The files that may describe a service; see [`service_files`].
pub fn service_paths(service: &str) -> (r: Vec<String>)
    ensures
        crate::text::views(r@) == service_files(service@),
{
    let mut out: Vec<String> = Vec::new();
    let mut first = "/etc/pam.d/".to_owned();
    first.append(service);
    out.push(first);
    let mut second = "/usr/lib/pam.d/".to_owned();
    second.append(service);
    out.push(second);
    assert(crate::text::views(out@) =~= service_files(service@));
    out
}

/// Whether one of a service's files is among those that exist.
pub open spec fn described(service: Seq<char>, files: Seq<Seq<char>>) -> bool {
    exists|i: int| 0 <= i < service_files(service).len() && files.contains(
        #[trigger] service_files(service)[i],
    )
}

/// Whether PAM has a file for a service, given the files that exist.
pub fn service_exists(service: &str, files: &Vec<String>) -> (r: bool)
    ensures
        r == described(service@, crate::text::views(files@)),
{
    let paths = service_paths(service);
    let mut i: usize = 0;
    while i < paths.len()
        invariant
            i <= paths@.len(),
            crate::text::views(paths@) == service_files(service@),
            forall|j: int|
                0 <= j < i ==> !crate::text::views(files@).contains(
                    #[trigger] service_files(service@)[j],
                ),
        decreases paths@.len() - i,
    {
        assert(crate::text::views(paths@)[i as int] == paths@[i as int]@);
        if find_name(files, &paths[i]).is_some() {
            return true;
        }
        i = i + 1;
    }
    assert(crate::text::views(paths@).len() == paths@.len());
    false
}

/// The service to authenticate against: the configured one when PAM has a file
/// for it, otherwise the first known-good fallback.
///
/// A service that PAM does not know falls through to a stack that denies
/// everything, so without a fallback a missing file would mean a lock screen
/// that rejects the correct password.
pub open spec fn service_for(configured: Seq<char>, files: Seq<Seq<char>>) -> Seq<char> {
    if described(configured, files) {
        configured
    } else if described("swaylock"@, files) {
        "swaylock"@
    } else if described("hyprlock"@, files) {
        "hyprlock"@
    } else if described("login"@, files) {
        "login"@
    } else {
        configured
    }
}

/// Picks the service to authenticate against; see [`service_for`].
pub fn resolve_service(configured: &str, files: &Vec<String>) -> (r: String)
    ensures
        r@ == service_for(configured@, crate::text::views(files@)),
{
    if service_exists(configured, files) {
        configured.to_owned()
    } else if service_exists("swaylock", files) {
        "swaylock".to_owned()
    } else if service_exists("hyprlock", files) {
        "hyprlock".to_owned()
    } else if service_exists("login", files) {
        "login".to_owned()
    } else {
        configured.to_owned()
    }
}

/// Whichever service is picked, PAM has a file for it if it has one for any that
/// could have been.
pub proof fn law_picked_service_is_described(configured: Seq<char>, files: Seq<Seq<char>>)
    ensures
        described(service_for(configured, files), files) <==> {
            ||| described(configured, files)
            ||| described("swaylock"@, files)
            ||| described("hyprlock"@, files)
            ||| described("login"@, files)
        },
{
}

/// What kind of error PAM gave, as far as it makes a difference.
#[derive(Clone, Copy, Debug, PartialEq, Eq, Structural)]
pub enum PamCode {
    AuthErr,
    CredInsufficient,
    MaxTries,
    Other,
}

/// Sorts a PAM error into the everyday one and the rest.
pub fn failure(code: PamCode, text: String) -> (r: AuthFailure)
    ensures
        r@ == (if code is Other {
            AuthFailureView::Error { message: text@ }
        } else {
            AuthFailureView::Rejected
        }),
{
    match code {
        PamCode::AuthErr | PamCode::CredInsufficient | PamCode::MaxTries => AuthFailure::Rejected,
        PamCode::Other => AuthFailure::Error { message: text },
    }
}

/// The steps of an attempt, in order.
#[derive(Clone, Copy, Debug, PartialEq, Eq, Structural)]
pub enum PamStep {
    /// Opening the transaction.
    Start,
    /// Verifying the password.
    Authenticate,
    /// Asking whether the account is in good standing.
    Account,
    /// Refreshing the credentials that the session holds.
    Refresh,
}

/// What follows a step.
#[derive(Debug)]
pub enum PamNext {
    Step(PamStep),
    Finished(Result<(), AuthFailure>),
}

/// What follows a step of an attempt, given the error it ended with, if it did. A
/// failure to refresh credentials says nothing about the password that was just
/// accepted, so it does not fail the attempt.
pub fn after_step(step: PamStep, error: Option<(PamCode, String)>) -> (r: PamNext)
    ensures
        match (step, error) {
            (PamStep::Start, None) => r == PamNext::Step(PamStep::Authenticate),
            (PamStep::Start, Some(_)) => r matches PamNext::Finished(Err(failure)) && failure@
                == (AuthFailureView::Error { message: "Authentication is unavailable"@ }),
            (PamStep::Authenticate, None) => r == PamNext::Step(PamStep::Account),
            (PamStep::Account, None) => r == PamNext::Step(PamStep::Refresh),
            (PamStep::Refresh, _) => r matches PamNext::Finished(Ok(_)),
            (_, Some(e)) => r matches PamNext::Finished(Err(failure)) && failure@ == (
            if e.0 is Other {
                AuthFailureView::Error { message: e.1@ }
            } else {
                AuthFailureView::Rejected
            }),
        },
{
    match (step, error) {
        (PamStep::Start, None) => PamNext::Step(PamStep::Authenticate),
        (PamStep::Start, Some(_)) => PamNext::Finished(
            Err(AuthFailure::Error { message: "Authentication is unavailable".to_owned() }),
        ),
        (PamStep::Authenticate, None) => PamNext::Step(PamStep::Account),
        (PamStep::Account, None) => PamNext::Step(PamStep::Refresh),
        (PamStep::Refresh, _) => PamNext::Finished(Ok(())),
        (_, Some((code, text))) => PamNext::Finished(Err(failure(code, text))),
    }
}

/// The answer to a question of the stack. Anything it wants echoed is the user
/// name; anything else is the password. An answer that holds a zero character
/// cannot be given.
pub fn answer(echoed: bool, username: &str, password: &str) -> (r: Option<String>)
    ensures
        ({
            let text = if echoed {
                username@
            } else {
                password@
            };
            match r {
                Some(answer) => answer@ == text && !text.contains('\0'),
                None => text.contains('\0'),
            }
        }),
{
    let text = if echoed {
        username
    } else {
        password
    };
    let v = chars_of(text);
    let zero = find_from(&v, 0, '\0');
    proof {
        crate::text::lemma_index_from(v@, 0, '\0');
    }
    if zero < v.len() {
        assert(text@[zero as int] == '\0');
        None
    } else {
        assert(forall|i: int| 0 <= i < text@.len() ==> text@[i] != '\0');
        Some(text.to_owned())
    }
}

/// A message of the stack as it is shown: without white space around it, and not
/// at all if nothing is left.
pub fn message_text(message: &str) -> (r: Option<String>)
    ensures
        crate::text::opt_view(r) == crate::systray::non_empty(
            Some(crate::text::trimmed(message@)),
        ),
{
    let text = trim(message);
    crate::systray::keep_non_empty(Some(text))
}

/// A service is described by a file of its name in either of the two directories.
pub proof fn law_services_are_described_by_files(service: Seq<char>, files: Seq<Seq<char>>)
    ensures
        described(service, files) <==> files.contains("/etc/pam.d/"@ + service) || files.contains(
            "/usr/lib/pam.d/"@ + service,
        ),
{
    assert(service_files(service)[0] == "/etc/pam.d/"@ + service);
    assert(service_files(service)[1] == "/usr/lib/pam.d/"@ + service);
}

/// The service that was asked for is taken where it is described, and also where nothing
/// else is. Otherwise another screen lock stands in, and the login only as the last resort.
pub proof fn law_the_configured_service_comes_first(
    configured: Seq<char>,
    files: Seq<Seq<char>>,
)
    ensures
        ({
            let service = service_for(configured, files);
            let swaylock = described("swaylock"@, files);
            let hyprlock = described("hyprlock"@, files);
            let login = described("login"@, files);
            &&& described(configured, files) ==> service == configured
            &&& !swaylock && !hyprlock && !login ==> service == configured
            &&& !described(configured, files) && swaylock ==> service == "swaylock"@
            &&& !described(configured, files) && !swaylock && hyprlock ==> service == "hyprlock"@
            &&& !described(configured, files) && !swaylock && !hyprlock && login ==> service
                == "login"@
        }),
{
}

} // verus!
