//! The live notifications: which there are, in what order, and how much time
//! each has left.

use std::collections::HashMap;

use vstd::prelude::*;

use crate::notification::Notification;

verus! {

/// What followers of the notifications are told.
#[derive(Clone, Copy, Debug, PartialEq, Eq, Structural)]
pub enum NotificationEvent {
    /// The notifications on show have changed.
    Changed,
}

broadcast use vstd::std_specs::hash::group_hash_axioms;

/// Nanoseconds in a millisecond.
pub const NANOS_PER_MILLI: u64 = 1_000_000;

/// A notification's time to live, which can be paused while it is hovered.
/// Times are nanoseconds of a running clock.
#[derive(Clone, Copy, Debug, PartialEq, Eq, Structural)]
pub struct Expiry {
    /// What was left when the countdown began, or was paused.
    pub remaining: u64,
    /// When the running countdown began, or `None` while paused.
    pub started_at: Option<u64>,
}

impl Expiry {
    /// What is left at `now`.
    pub open spec fn left(self, now: u64) -> int {
        match self.started_at {
            Some(start) => {
                let elapsed = if now > start {
                    now - start
                } else {
                    0
                };
                if self.remaining > elapsed {
                    self.remaining - elapsed
                } else {
                    0
                }
            },
            None => self.remaining as int,
        }
    }

    /// The countdown stopped at `now`, keeping what is left. One that is already
    /// stopped stays as it is.
    pub open spec fn paused(self, now: u64) -> Expiry {
        Expiry { remaining: self.left(now) as u64, started_at: None }
    }

    /// The countdown running again from `now`. One that is running stays as it is.
    pub open spec fn resumed(self, now: u64) -> Expiry {
        match self.started_at {
            Some(_) => self,
            None => Expiry { remaining: self.remaining, started_at: Some(now) },
        }
    }

    /// Stops the countdown at `now`.
    pub fn pause(&mut self, now: u64)
        ensures
            *final(self) == old(self).paused(now),
    {
        if let Some(start) = self.started_at {
            let elapsed: u64 = if now > start {
                now - start
            } else {
                0
            };
            self.remaining = if self.remaining > elapsed {
                self.remaining - elapsed
            } else {
                0
            };
            self.started_at = None;
        }
    }

    /// Time spent paused costs nothing: whenever the countdown is stopped and
    /// resumed, at any later moment it has as much left as it had when it was
    /// stopped, less what has run since it was resumed.
    pub proof fn law_pausing_costs_no_time(self, pause: u64, resume: u64, now: u64)
        requires
            pause <= resume <= now,
        ensures
            self.paused(pause).resumed(resume).left(now) == (if self.left(pause) > now - resume {
                self.left(pause) - (now - resume)
            } else {
                0
            }),
    {
    }

    /// Pausing twice is pausing once.
    pub proof fn law_pausing_settles(self, now: u64, later: u64)
        ensures
            self.paused(now).paused(later) == self.paused(now),
    {
    }
}

/// What has to happen to a notification's timer.
#[derive(Clone, Copy, Debug, PartialEq, Eq, Structural)]
pub enum Timer {
    /// Nothing.
    Keep,
    /// It is to be dropped.
    Stop,
    /// It is to run for this many nanoseconds, in place of any other.
    Start(u64),
    /// The time is up: the notification is gone, and its client is to be told that
    /// it expired.
    Expired,
}

/// The source of truth for live notifications.
#[derive(Debug)]
pub struct Notifications {
    active: Vec<Notification>,
    expiry: HashMap<u32, Expiry>,
}

/// The position at or after `from` of the notification that goes by `id`.
pub open spec fn position(list: Seq<Notification>, from: int, id: u32) -> Option<int>
    decreases list.len() - from,
{
    if from >= list.len() {
        None
    } else if list[from].id == id {
        Some(from)
    } else {
        position(list, from + 1, id)
    }
}

/// What `position` stands for.
pub proof fn lemma_position(list: Seq<Notification>, from: int, id: u32)
    requires
        0 <= from,
    ensures
        match position(list, from, id) {
            Some(i) => from <= i < list.len() && list[i].id == id,
            None => forall|j: int| from <= j < list.len() ==> (#[trigger] list[j]).id != id,
        },
    decreases list.len() - from,
{
    if from < list.len() && list[from].id != id {
        lemma_position(list, from + 1, id);
    }
}

/// Whether no two notifications of a list go by the same id.
pub open spec fn ids_differ(list: Seq<Notification>) -> bool {
    forall|i: int, j: int|
        0 <= i < j < list.len() ==> (#[trigger] list[i]).id != (#[trigger] list[j]).id
}

impl Notifications {
    /// The live notifications, newest first.
    pub closed spec fn list(&self) -> Seq<Notification> {
        self.active@
    }

    /// The countdowns, by notification.
    pub closed spec fn countdowns(&self) -> Map<u32, Expiry> {
        self.expiry@
    }

    /// No two notifications share an id, and only a live one is counting down.
    pub open spec fn wf(&self) -> bool {
        &&& ids_differ(self.list())
        &&& forall|id: u32|
            self.countdowns().contains_key(id) ==> #[trigger] position(self.list(), 0, id) is Some
    }

    /// No notifications.
    pub fn new() -> (r: Self)
        ensures
            r.wf(),
            r.list().len() == 0,
            r.countdowns() == Map::<u32, Expiry>::empty(),
    {
        let r = Notifications { active: Vec::new(), expiry: HashMap::new() };
        assert(r.expiry@ =~= Map::<u32, Expiry>::empty());
        r
    }

    /// The live notifications, newest first.
    pub fn active(&self) -> (r: &Vec<Notification>)
        ensures
            r@ == self.list(),
    {
        &self.active
    }

    /// Finds a live notification.
    fn find(&self, id: u32) -> (r: Option<usize>)
        ensures
            match r {
                Some(i) => position(self.active@, 0, id) == Some(i as int) && i < self.active@.len(),
                None => position(self.active@, 0, id) is None,
            },
    {
        let mut i: usize = 0;
        while i < self.active.len()
            invariant
                i <= self.active@.len(),
                position(self.active@, 0, id) == position(self.active@, i as int, id),
            decreases self.active@.len() - i,
        {
            if self.active[i].id == id {
                return Some(i);
            }
            i = i + 1;
        }
        None
    }

    /// Takes a notification in. One with the id of a live one takes its place;
    /// any other goes on top. Its countdown, if it has one, begins at `now`.
    pub fn push(&mut self, notification: Notification, now: u64) -> (r: Timer)
        requires
            old(self).wf(),
        ensures
            final(self).wf(),
            final(self).list() == (match position(old(self).list(), 0, notification.id) {
                Some(i) => old(self).list().update(i, notification),
                None => seq![notification] + old(self).list(),
            }),
            final(self).countdowns() == (if notification.timeout_ms() > 0 {
                old(self).countdowns().insert(
                    notification.id,
                    Expiry {
                        remaining: (notification.timeout_ms() * NANOS_PER_MILLI) as u64,
                        started_at: Some(now),
                    },
                )
            } else {
                old(self).countdowns().remove(notification.id)
            }),
            r == (if notification.timeout_ms() > 0 {
                Timer::Start((notification.timeout_ms() * NANOS_PER_MILLI) as u64)
            } else {
                Timer::Stop
            }),
            r matches Timer::Start(nanos) ==> nanos == notification.timeout_ms() * 1_000_000,
    {
        let id: u32 = notification.id;
        let timeout: u64 = notification.effective_timeout_ms();
        let ghost before = self.active@;
        let found = self.find(id);
        proof {
            lemma_position(before, 0, id);
        }
        match found {
            Some(i) => {
                self.active.set(i, notification);
            },
            None => {
                self.active.insert(0, notification);
                assert(self.active@ =~= seq![notification] + before);
            },
        }
        let timer = if timeout > 0 {
            let remaining: u64 = timeout * NANOS_PER_MILLI;
            self.expiry.insert(id, Expiry { remaining, started_at: Some(now) });
            Timer::Start(remaining)
        } else {
            self.expiry.remove(&id);
            Timer::Stop
        };
        proof {
            let after = self.active@;
            assert forall|other: u32| self.countdowns().contains_key(
                other,
            ) implies #[trigger] position(after, 0, other) is Some by {
                lemma_position(after, 0, other);
                lemma_position(before, 0, other);
                if other == id {
                    if found is Some {
                        assert(after[found->0 as int].id == id);
                    } else {
                        assert(after[0].id == id);
                    }
                } else {
                    let i = position(before, 0, other)->0;
                    if found is Some {
                        assert(after[i].id == other);
                    } else {
                        assert(after[i + 1].id == other);
                    }
                }
            }
        }
        timer
    }

    /// Removes a notification. Says whether there was one, and so whether its
    /// client is to be told.
    pub fn dismiss(&mut self, id: u32) -> (r: bool)
        requires
            old(self).wf(),
        ensures
            final(self).wf(),
            r == (position(old(self).list(), 0, id) is Some),
            final(self).list() == (match position(old(self).list(), 0, id) {
                Some(i) => old(self).list().remove(i),
                None => old(self).list(),
            }),
            final(self).countdowns() == old(self).countdowns().remove(id),
            position(final(self).list(), 0, id) is None,
    {
        let ghost before = self.active@;
        proof {
            lemma_position(before, 0, id);
        }
        match self.find(id) {
            Some(i) => {
                self.active.remove(i);
                self.expiry.remove(&id);
                proof {
                    let after = self.active@;
                    assert(after =~= before.remove(i as int));
                    lemma_position(after, 0, id);
                    if position(after, 0, id) is Some {
                        let k = position(after, 0, id)->0;
                        let j = if k < i {
                            k
                        } else {
                            k + 1
                        };
                        assert(after[k] == before[j]);
                    }
                    assert forall|other: u32| self.countdowns().contains_key(
                        other,
                    ) implies #[trigger] position(after, 0, other) is Some by {
                        lemma_position(after, 0, other);
                        lemma_position(before, 0, other);
                        let k = position(before, 0, other)->0;
                        let j = if k < i {
                            k
                        } else {
                            k - 1
                        };
                        assert(after[j].id == other);
                    }
                    assert forall|a: int, b: int| 0 <= a < b < after.len() implies (
                    #[trigger] after[a]).id != (#[trigger] after[b]).id by {
                        let x = if a < i {
                            a
                        } else {
                            a + 1
                        };
                        let y = if b < i {
                            b
                        } else {
                            b + 1
                        };
                        assert(after[a] == before[x] && after[b] == before[y]);
                    }
                }
                true
            },
            None => {
                proof {
                    assert(!self.countdowns().contains_key(id));
                    assert(self.countdowns() =~= self.countdowns().remove(id));
                }
                false
            },
        }
    }

    /// Invokes an action of a notification, which dismisses it. Says whether
    /// there was one, and so whether its client is to be told of both.
    pub fn invoke_action(&mut self, id: u32) -> (r: bool)
        requires
            old(self).wf(),
        ensures
            final(self).wf(),
            r == (position(old(self).list(), 0, id) is Some),
            final(self).list() == (match position(old(self).list(), 0, id) {
                Some(i) => old(self).list().remove(i),
                None => old(self).list(),
            }),
            final(self).countdowns() == old(self).countdowns().remove(id),
    {
        self.dismiss(id)
    }

    /// Pauses a notification's countdown while the pointer is over it, and resumes
    /// it with what is left once the pointer leaves. One that has nothing left by
    /// that time is gone.
    pub fn set_hovered(&mut self, id: u32, hovered: bool, now: u64) -> (r: Timer)
        requires
            old(self).wf(),
        ensures
            final(self).wf(),
            ({
                let countdowns = old(self).countdowns();
                let expiry = countdowns[id];
                if !countdowns.contains_key(id) || (expiry.started_at is Some) != hovered {
                    &&& r == Timer::Keep
                    &&& final(self).list() == old(self).list()
                    &&& final(self).countdowns() == countdowns
                } else if hovered {
                    &&& r == Timer::Stop
                    &&& final(self).list() == old(self).list()
                    &&& final(self).countdowns() == countdowns.insert(id, expiry.paused(now))
                } else if expiry.remaining > 0 {
                    &&& r == Timer::Start(expiry.remaining)
                    &&& final(self).list() == old(self).list()
                    &&& final(self).countdowns() == countdowns.insert(id, expiry.resumed(now))
                } else {
                    &&& r == Timer::Expired
                    &&& position(old(self).list(), 0, id) matches Some(i) && final(self).list()
                        == old(self).list().remove(i)
                    &&& final(self).countdowns() == countdowns.remove(id)
                }
            }),
    {
        let found = match self.expiry.get(&id) {
            Some(expiry) => Some(*expiry),
            None => None,
        };
        match found {
            None => Timer::Keep,
            Some(expiry) => {
                let mut expiry = expiry;
                if hovered {
                    if expiry.started_at.is_none() {
                        return Timer::Keep;
                    }
                    expiry.pause(now);
                    self.expiry.insert(id, expiry);
                    Timer::Stop
                } else {
                    if expiry.started_at.is_some() {
                        return Timer::Keep;
                    }
                    if expiry.remaining == 0 {
                        self.dismiss(id);
                        return Timer::Expired;
                    }
                    expiry.started_at = Some(now);
                    self.expiry.insert(id, expiry);
                    Timer::Start(expiry.remaining)
                }
            },
        }
    }
}

/// Hands out the ids that notifications go by.
#[derive(Debug)]
pub struct NotificationIds {
    next: u32,
}

impl NotificationIds {
    /// The id that the next new notification gets.
    pub closed spec fn next_id(&self) -> u32 {
        self.next
    }

    /// Ids start at one; zero is how a client says that it replaces nothing.
    pub fn new() -> (r: Self)
        ensures
            r.next_id() == 1,
    {
        NotificationIds { next: 1 }
    }

    /// The id of a notification that replaces `replaces_id`, or of a new one if
    /// that is zero.
    pub fn assign(&mut self, replaces_id: u32) -> (r: u32)
        ensures
            replaces_id != 0 ==> r == replaces_id && final(self).next_id() == old(self).next_id(),
            replaces_id == 0 ==> r == old(self).next_id() && final(self).next_id() == (if old(
                self,
            ).next_id() == u32::MAX {
                0
            } else {
                (old(self).next_id() + 1) as u32
            }),
    {
        if replaces_id != 0 {
            replaces_id
        } else {
            let id: u32 = self.next;
            self.next = if id == 0xffff_ffff {
                0
            } else {
                id + 1
            };
            id
        }
    }
}

/// What the server says it can do.
pub fn capabilities() -> (r: Vec<String>)
    ensures
        crate::text::views(r@) == seq![
            "actions"@,
            "body"@,
            "body-markup"@,
            "icon-static"@,
            "persistence"@,
        ],
{
    let mut out: Vec<String> = Vec::new();
    out.push("actions".to_owned());
    out.push("body".to_owned());
    out.push("body-markup".to_owned());
    out.push("icon-static".to_owned());
    out.push("persistence".to_owned());
    assert(crate::text::views(out@) =~= seq![
        "actions"@,
        "body"@,
        "body-markup"@,
        "icon-static"@,
        "persistence"@,
    ]);
    out
}

/// Who the server says it is: its name, its vendor, its version and the version
/// of the protocol.
pub fn server_information(version: &str) -> (r: (String, String, String, String))
    ensures
        r.0@ == "launch"@,
        r.1@ == "launch"@,
        r.2@ == version@,
        r.3@ == "1.2"@,
{
    ("launch".to_owned(), "launch".to_owned(), version.to_owned(), "1.2".to_owned())
}

impl Expiry {
    /// Time runs while a countdown does: what is left shrinks by what has passed since it
    /// started, down to nothing, and nothing passes while it is paused.
    pub proof fn law_time_runs_only_while_counting(self, start: u64, passed: u64, now: u64)
        requires
            start + passed <= u64::MAX,
        ensures
            passed <= self.remaining ==> (Expiry { started_at: Some(start), ..self }).left(
                (start + passed) as u64,
            ) + passed == self.remaining,
            passed >= self.remaining ==> (Expiry { started_at: Some(start), ..self }).left(
                (start + passed) as u64,
            ) == 0,
            (Expiry { started_at: None, ..self }).left(now) == self.remaining,
    {
    }

    /// Pausing stops the countdown with what is left on it, and going on starts it from
    /// there; one that is running already is left alone.
    pub proof fn law_pausing_and_going_on(self, now: u64)
        ensures
            self.paused(now).started_at is None,
            self.paused(now).remaining == self.left(now),
            self.started_at is None ==> self.resumed(now).started_at == Some(now)
                && self.resumed(now).remaining == self.remaining,
            self.started_at is Some ==> self.resumed(now) == self,
    {
    }
}

/// A notification that is in the list is found by its id, wherever it stands.
pub proof fn law_listed_notifications_are_found(list: Seq<Notification>, i: int)
    requires
        0 <= i < list.len(),
        ids_differ(list),
    ensures
        position(list, 0, list[i].id) == Some(i),
{
    lemma_position(list, 0, list[i].id);
}

/// Only what is in the list is found in it.
pub proof fn law_found_notifications_are_listed(list: Seq<Notification>, id: u32)
    ensures
        position(list, 0, id) matches Some(i) ==> 0 <= i < list.len() && list[i].id == id,
        position(list, 0, id) is None <==> forall|i: int|
            0 <= i < list.len() ==> (#[trigger] list[i]).id != id,
{
    lemma_position(list, 0, id);
}

/// Ids differ exactly if no two notifications share one.
pub proof fn law_ids_tell_notifications_apart(list: Seq<Notification>, i: int, j: int)
    requires
        ids_differ(list),
        0 <= i < list.len(),
        0 <= j < list.len(),
        list[i].id == list[j].id,
    ensures
        i == j,
{
}

} // verus!
