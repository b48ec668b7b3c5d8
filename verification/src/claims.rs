//! Claiming the places on the bus that the services are found at.

use vstd::prelude::*;

verus! {

/// How the bus answers a request for a well-known name.
#[derive(Debug)]
pub enum NameClaim {
    PrimaryOwner,
    InQueue,
    Exists,
    AlreadyOwner,
    /// The request failed because somebody holds the name and keeps it.
    Taken(String),
    /// The request failed for another reason.
    Failed(String),
}

/// What keeps the registry of status items from being attached to the bus. Somebody
/// else may hold its name: their registry is then the one in use.
pub open spec fn watcher_obstacle(exported: bool, claim: NameClaim) -> Option<Seq<char>> {
    if !exported {
        Some(
            "Object already exists at /StatusNotifierWatcher -- is StatusNotifierWatcher already running?"@,
        )
    } else {
        match claim {
            NameClaim::Failed(reason) => Some(reason@),
            _ => None,
        }
    }
}

/// Attaches the registry of status items; see [`watcher_obstacle`]. `exported` says
/// whether its object could be put on the bus.
pub fn attach_watcher(exported: bool, claim: NameClaim) -> (r: Result<(), String>)
    ensures
        match r {
            Ok(()) => watcher_obstacle(exported, claim) is None,
            Err(reason) => watcher_obstacle(exported, claim) == Some(reason@),
        },
{
    if !exported {
        return Err(
            "Object already exists at /StatusNotifierWatcher -- is StatusNotifierWatcher already running?".to_owned(),
        );
    }
    match claim {
        NameClaim::Failed(reason) => Err(reason),
        _ => Ok(()),
    }
}

/// The start of what is said when the name of the notification server goes to
/// somebody else.
pub open spec fn not_owner() -> Seq<char> {
    "could not become owner of org.freedesktop.Notifications: "@
}

/// What keeps the notification server from being attached to the bus. It is of no use
/// unless it becomes the owner of its name.
pub open spec fn server_obstacle(exported: bool, claim: NameClaim) -> Option<Seq<char>> {
    if !exported {
        Some(
            "Object already exists at /org/freedesktop/Notifications -- is another notification daemon running?"@,
        )
    } else {
        match claim {
            NameClaim::PrimaryOwner => None,
            NameClaim::InQueue => Some(not_owner() + "InQueue"@),
            NameClaim::Exists => Some(not_owner() + "Exists"@),
            NameClaim::AlreadyOwner => Some(not_owner() + "AlreadyOwner"@),
            NameClaim::Taken(reason) => Some(reason@),
            NameClaim::Failed(reason) => Some(reason@),
        }
    }
}

fn blame(reply: &str) -> (r: String)
    ensures
        r@ == not_owner() + reply@,
{
    let mut out = "could not become owner of org.freedesktop.Notifications: ".to_owned();
    out.append(reply);
    out
}

/// Attaches the notification server; see [`server_obstacle`]. `exported` says whether
/// its object could be put on the bus.
pub fn attach_server(exported: bool, claim: NameClaim) -> (r: Result<(), String>)
    ensures
        match r {
            Ok(()) => server_obstacle(exported, claim) is None,
            Err(reason) => server_obstacle(exported, claim) == Some(reason@),
        },
{
    if !exported {
        return Err(
            "Object already exists at /org/freedesktop/Notifications -- is another notification daemon running?".to_owned(),
        );
    }
    match claim {
        NameClaim::PrimaryOwner => Ok(()),
        NameClaim::InQueue => Err(blame("InQueue")),
        NameClaim::Exists => Err(blame("Exists")),
        NameClaim::AlreadyOwner => Err(blame("AlreadyOwner")),
        NameClaim::Taken(reason) => Err(reason),
        NameClaim::Failed(reason) => Err(reason),
    }
}

/// The watcher runs unless its place is taken or the claim itself breaks down: it also waits
/// in line for its name.
pub proof fn law_watchers_wait_in_line(exported: bool, claim: NameClaim)
    ensures
        watcher_obstacle(exported, claim) is None <==> exported && !(claim is Failed),
        exported ==> (claim matches NameClaim::Failed(reason) ==> watcher_obstacle(exported, claim)
            == Some(reason@)),
{
}

/// The notification server runs only as the owner of its name, and otherwise says why it
/// does not.
pub proof fn law_servers_own_their_name(exported: bool, claim: NameClaim)
    ensures
        server_obstacle(exported, claim) is None <==> exported && claim is PrimaryOwner,
        exported ==> (claim matches NameClaim::Taken(reason) ==> server_obstacle(exported, claim)
            == Some(reason@)),
        exported ==> (claim matches NameClaim::Failed(reason) ==> server_obstacle(exported, claim)
            == Some(reason@)),
        exported && (claim is InQueue || claim is Exists || claim is AlreadyOwner) ==> (
        server_obstacle(exported, claim) matches Some(reason) && not_owner().is_prefix_of(reason)),
{
    if exported && (claim is InQueue || claim is Exists || claim is AlreadyOwner) {
        let reason = server_obstacle(exported, claim)->0;
        assert(reason.take(not_owner().len() as int) =~= not_owner());
    }
}

/// A place that is taken is named, whatever became of the claim.
pub proof fn law_taken_places_are_named(one: NameClaim, other: NameClaim)
    ensures
        watcher_obstacle(false, one) == watcher_obstacle(false, other),
        server_obstacle(false, one) == server_obstacle(false, other),
        watcher_obstacle(false, one) is Some && server_obstacle(false, one) is Some,
{
}

/// A server that does not own its name says what it was answered instead.
pub proof fn law_servers_repeat_the_answer(claim: NameClaim)
    ensures
        ({
            let blame = "could not become owner of org.freedesktop.Notifications: "@;
            &&& claim is InQueue ==> server_obstacle(true, claim) == Some(blame + "InQueue"@)
            &&& claim is Exists ==> server_obstacle(true, claim) == Some(blame + "Exists"@)
            &&& claim is AlreadyOwner ==> server_obstacle(true, claim) == Some(
                blame + "AlreadyOwner"@,
            )
        }),
        server_obstacle(false, claim) == Some(
            "Object already exists at /org/freedesktop/Notifications -- is another notification daemon running?"@,
        ),
        watcher_obstacle(false, claim) == Some(
            "Object already exists at /StatusNotifierWatcher -- is StatusNotifierWatcher already running?"@,
        ),
{
}

} // verus!
