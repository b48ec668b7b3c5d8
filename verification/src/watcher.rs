//! The registry of status items and of the hosts that show them.

use vstd::prelude::*;

use crate::names::{copy_names, find_name, split_by_prefix};
use crate::text::starts_with;

verus! {

/// Where an item is found when its service names none of its own.
pub fn item_object() -> (r: String)
    ensures
        r@ == "/StatusNotifierItem"@,
{
    "/StatusNotifierItem".to_owned()
}

/// The hosts and items that have been registered. Nothing is registered twice.
#[derive(Debug)]
pub struct Watcher {
    hosts: Vec<String>,
    items: Vec<String>,
}

/// What registering a host came to.
#[derive(Clone, Copy, Debug, PartialEq, Eq, Structural)]
pub enum HostRegistered {
    /// It was registered already: nothing is announced.
    Already,
    /// It is the first: there being a host at all is announced too.
    First,
    /// It is one more.
    Another,
}

/// What the loss of a bus name took with it.
#[derive(Debug)]
pub struct Lost {
    /// The items that are gone.
    pub items: Vec<String>,
    /// Whether a host is gone.
    pub host: bool,
    /// Whether that was the last host.
    pub last_host: bool,
}

impl Watcher {
    /// The names of the hosts.
    pub closed spec fn host_names(&self) -> Seq<Seq<char>> {
        crate::text::views(self.hosts@)
    }

    /// The addresses of the items.
    pub closed spec fn item_names(&self) -> Seq<Seq<char>> {
        crate::text::views(self.items@)
    }

    /// Nothing is registered twice.
    pub open spec fn wf(&self) -> bool {
        crate::names::distinct(self.host_names()) && crate::names::distinct(self.item_names())
    }

    pub fn new() -> (r: Watcher)
        ensures
            r.wf(),
            r.host_names() == Seq::<Seq<char>>::empty(),
            r.item_names() == Seq::<Seq<char>>::empty(),
    {
        let r = Watcher { hosts: Vec::new(), items: Vec::new() };
        assert(r.host_names() =~= Seq::<Seq<char>>::empty());
        assert(r.item_names() =~= Seq::<Seq<char>>::empty());
        r
    }

    /// Registers a host.
    pub fn register_host(&mut self, service: String) -> (r: HostRegistered)
        requires
            old(self).wf(),
        ensures
            final(self).wf(),
            final(self).item_names() == old(self).item_names(),
            final(self).host_names() == (if old(self).host_names().contains(service@) {
                old(self).host_names()
            } else {
                old(self).host_names().push(service@)
            }),
            r == (if old(self).host_names().contains(service@) {
                HostRegistered::Already
            } else if old(self).host_names().len() == 0 {
                HostRegistered::First
            } else {
                HostRegistered::Another
            }),
    {
        let ghost before = self.host_names();
        if find_name(&self.hosts, &service).is_some() {
            return HostRegistered::Already;
        }
        let first: bool = self.hosts.len() == 0;
        self.hosts.push(service);
        assert(self.host_names() =~= before.push(service@));
        if first {
            HostRegistered::First
        } else {
            HostRegistered::Another
        }
    }

    /// Whether there is a host.
    pub fn is_host_registered(&self) -> (r: bool)
        ensures
            r == (self.host_names().len() > 0),
    {
        self.hosts.len() > 0
    }

    /// Registers the item that a service offers at a path. Gives back its address,
    /// the two run together, unless it was registered already.
    pub fn register_item(&mut self, service: &str, object_path: &str) -> (r: Option<String>)
        requires
            old(self).wf(),
        ensures
            final(self).wf(),
            final(self).host_names() == old(self).host_names(),
            final(self).item_names() == (if old(self).item_names().contains(
                service@ + object_path@,
            ) {
                old(self).item_names()
            } else {
                old(self).item_names().push(service@ + object_path@)
            }),
            crate::text::opt_view(r) == (if old(self).item_names().contains(
                service@ + object_path@,
            ) {
                None
            } else {
                Some(service@ + object_path@)
            }),
    {
        let ghost before = self.item_names();
        let mut item = service.to_owned();
        item.append(object_path);
        if find_name(&self.items, &item).is_some() {
            return None;
        }
        self.items.push(item.clone());
        assert(self.item_names() =~= before.push(service@ + object_path@));
        Some(item)
    }

    /// The addresses of the items.
    pub fn registered_items(&self) -> (r: Vec<String>)
        ensures
            crate::text::views(r@) == self.item_names(),
    {
        copy_names(&self.items)
    }

    /// The version of the protocol.
    pub fn protocol_version(&self) -> (r: i32)
        ensures
            r == 0,
    {
        0
    }

    /// Forgets what a bus name that has no owner any more stood for: the items
    /// whose address starts with it, and the host of that name.
    pub fn name_lost(&mut self, name: &str) -> (r: Lost)
        requires
            old(self).wf(),
        ensures
            final(self).wf(),
            crate::text::views(r.items@) == old(self).item_names().filter(
                |n: Seq<char>| name@.is_prefix_of(n),
            ),
            final(self).item_names() == old(self).item_names().filter(
                |n: Seq<char>| !name@.is_prefix_of(n),
            ),
            r.host == old(self).host_names().contains(name@),
            r.last_host == (r.host && old(self).host_names().len() == 1),
            !final(self).host_names().contains(name@),
            final(self).host_names() == (match crate::names::name_from(
                old(self).host_names(),
                0,
                name@,
            ) {
                Some(i) => old(self).host_names().remove(i),
                None => old(self).host_names(),
            }),
    {
        let ghost hosts = self.host_names();
        let ghost items = self.item_names();
        proof {
            crate::names::lemma_filter_distinct(items, |n: Seq<char>| !name@.is_prefix_of(n));
            crate::names::lemma_name_from(hosts, 0, name@);
            crate::names::lemma_named(hosts, name@);
        }
        let (gone, left) = split_by_prefix(&self.items, name);
        self.items = left;
        let host = match find_name(&self.hosts, name) {
            Some(i) => {
                self.hosts.remove(i);
                proof {
                    assert(self.host_names() =~= hosts.remove(i as int));
                    assert forall|a: int| 0 <= a < self.host_names().len() implies self.host_names()[a]
                        != name@ by {
                        let x = if a < i {
                            a
                        } else {
                            a + 1
                        };
                        assert(self.host_names()[a] == hosts[x]);
                    }
                    assert forall|a: int, b: int| 0 <= a < b < self.host_names().len() implies self.host_names()[a]
                        != self.host_names()[b] by {
                        let x = if a < i {
                            a
                        } else {
                            a + 1
                        };
                        let y = if b < i {
                            b
                        } else {
                            b + 1
                        };
                        assert(self.host_names()[a] == hosts[x] && self.host_names()[b] == hosts[y]);
                    }
                }
                true
            },
            None => false,
        };
        let last_host: bool = host && self.hosts.len() == 0;
        Lost { items: gone, host, last_host }
    }
}

/// Losing a name takes every item whose address starts with it, and no other.
pub proof fn law_lost_name_takes_its_items(items: Seq<Seq<char>>, name: Seq<char>, item: Seq<char>)
    ensures
        items.filter(|n: Seq<char>| name.is_prefix_of(n)).contains(item) <==> items.contains(item)
            && name.is_prefix_of(item),
        items.filter(|n: Seq<char>| !name.is_prefix_of(n)).contains(item) <==> items.contains(item)
            && !name.is_prefix_of(item),
{
    crate::names::lemma_filter_within(items, |n: Seq<char>| name.is_prefix_of(n), item);
    crate::names::lemma_filter_within(items, |n: Seq<char>| !name.is_prefix_of(n), item);
}

/// What a text is as a bus name: a unique one (`true`), a well-known one
/// (`false`), or neither, with the reason in words. This is what reading it as a
/// `zbus::names::BusName` gives.
pub uninterp spec fn bus_name_kind(text: Seq<char>) -> Result<bool, Seq<char>>;

/// The view of a reading of a bus name.
pub open spec fn kind_view(kind: Result<bool, String>) -> Result<bool, Seq<char>> {
    match kind {
        Ok(unique) => Ok(unique),
        Err(reason) => Err(reason@),
    }
}

/// `zbus::names::BusName::try_from` reads a text as a bus name, unique or
/// well-known, or says why it is none.
#[verifier::external_body]
fn read_bus_name(text: &str) -> (r: Result<bool, String>)
    ensures
        kind_view(r) == bus_name_kind(text@),
{
    match zbus::names::BusName::try_from(text) {
        Ok(zbus::names::BusName::Unique(_)) => Ok(true),
        Ok(zbus::names::BusName::WellKnown(_)) => Ok(false),
        Err(error) => Err(error.to_string()),
    }
}

/// How the service that a client names is found.
#[derive(Debug)]
pub enum Service {
    /// It is this bus name, with its item at this path.
    Known { name: String, path: String },
    /// It is the owner of this well-known name, with its item at
    /// [`item_object`].
    OwnerOf { name: String },
    /// It is the caller itself, and the caller is not known.
    UnknownSender,
    /// It is not a bus name.
    Invalid { reason: String },
}

/// A [`Service`] as a value.
pub enum ServiceView {
    Known { name: Seq<char>, path: Seq<char> },
    OwnerOf { name: Seq<char> },
    UnknownSender,
    Invalid { reason: Seq<char> },
}

impl View for Service {
    type V = ServiceView;

    open spec fn view(&self) -> ServiceView {
        match self {
            Service::Known { name, path } => ServiceView::Known { name: name@, path: path@ },
            Service::OwnerOf { name } => ServiceView::OwnerOf { name: name@ },
            Service::UnknownSender => ServiceView::UnknownSender,
            Service::Invalid { reason } => ServiceView::Invalid { reason: reason@ },
        }
    }
}

/// How a service is found, given what it reads as. A client is meant to name its
/// bus name, but some pass just an object path of their own.
pub open spec fn service_by(
    service: Seq<char>,
    sender: Option<Seq<char>>,
    kind: Result<bool, Seq<char>>,
) -> ServiceView {
    if "/"@.is_prefix_of(service) {
        match sender {
            Some(name) => ServiceView::Known { name, path: service },
            None => ServiceView::UnknownSender,
        }
    } else {
        match kind {
            Ok(true) => ServiceView::Known { name: service, path: "/StatusNotifierItem"@ },
            Ok(false) => ServiceView::OwnerOf { name: service },
            Err(reason) => ServiceView::Invalid { reason },
        }
    }
}

/// Decides how a service is found; see [`service_by`].
pub fn classify_service(
    service: &str,
    sender: Option<String>,
    kind: Result<bool, String>,
) -> (r: Service)
    ensures
        r@ == service_by(service@, crate::text::opt_view(sender), kind_view(kind)),
{
    if starts_with(service, "/") {
        match sender {
            Some(name) => Service::Known { name, path: service.to_owned() },
            None => Service::UnknownSender,
        }
    } else {
        match kind {
            Ok(unique) => {
                if unique {
                    Service::Known { name: service.to_owned(), path: item_object() }
                } else {
                    Service::OwnerOf { name: service.to_owned() }
                }
            },
            Err(reason) => Service::Invalid { reason },
        }
    }
}

/// Decodes what a client passes for its service into a bus name and an object
/// path.
pub fn parse_service(service: &str, sender: Option<String>) -> (r: Service)
    ensures
        r@ == service_by(service@, crate::text::opt_view(sender), bus_name_kind(service@)),
{
    let kind = read_bus_name(service);
    classify_service(service, sender, kind)
}

/// A service that is a path belongs to whoever sent it. Any other is a name on the bus: one
/// that cannot pass to someone else stands for its item, one that can is looked up, and one
/// that is no name is turned down with the reason.
pub proof fn law_services_are_paths_or_names(
    path: Seq<char>,
    name: Seq<char>,
    sender: Seq<char>,
    reason: Seq<char>,
    kind: Result<bool, Seq<char>>,
)
    requires
        path.len() > 0 && path[0] == '/',
        name.len() == 0 || name[0] != '/',
    ensures
        service_by(path, Some(sender), kind) == (ServiceView::Known { name: sender, path }),
        service_by(path, None, kind) is UnknownSender,
        service_by(name, Some(sender), Ok(true)) == (ServiceView::Known {
            name,
            path: "/StatusNotifierItem"@,
        }),
        service_by(name, None, Ok(true)) == service_by(name, Some(sender), Ok(true)),
        service_by(name, Some(sender), Ok(false)) == (ServiceView::OwnerOf { name }),
        service_by(name, None, Ok(false)) == (ServiceView::OwnerOf { name }),
        service_by(name, Some(sender), Err(reason)) == (ServiceView::Invalid { reason }),
        service_by(name, None, Err(reason)) == (ServiceView::Invalid { reason }),
{
    reveal_strlit("/");
    assert("/"@.is_prefix_of(path)) by {
        assert(path.take(1) =~= "/"@);
    }
    if "/"@.is_prefix_of(name) {
        assert(name[0] == "/"@[0]);
    }
}

} // verus!
