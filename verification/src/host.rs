//! The host of the tray: claims its name, and follows the items that come and go.

use vstd::prelude::*;

use crate::systray::{host_name, Systray, TrayItem};
use crate::watcher::Watcher;

verus! {

/// How the bus answers a request for a name that must not be queued.
#[derive(Clone, Copy, Debug, PartialEq, Eq, Structural)]
pub enum NameReply {
    PrimaryOwner,
    Exists,
    AlreadyOwner,
}

/// Something to do for the tray.
#[derive(Debug)]
pub enum HostAction {
    /// Request a name from the bus.
    RequestName { name: String },
    /// Register as a host under a name.
    RegisterHost { name: String },
    /// Ask the item at an address for everything.
    Fetch { address: String },
    /// Follow the item at an address.
    Listen { address: String },
    /// Tell that an item is gone.
    EmitItemUnregistered { address: String },
    /// Tell that the list of items has changed.
    RefreshItems,
    /// Tell that a host is gone.
    EmitHostUnregistered,
    /// Tell that there may be no host any more.
    RefreshHost,
}

/// A [`HostAction`] as a value.
pub enum HostActionView {
    RequestName { name: Seq<char> },
    RegisterHost { name: Seq<char> },
    Fetch { address: Seq<char> },
    Listen { address: Seq<char> },
    EmitItemUnregistered { address: Seq<char> },
    RefreshItems,
    EmitHostUnregistered,
    RefreshHost,
}

impl View for HostAction {
    type V = HostActionView;

    open spec fn view(&self) -> HostActionView {
        match self {
            HostAction::RequestName { name } => HostActionView::RequestName { name: name@ },
            HostAction::RegisterHost { name } => HostActionView::RegisterHost { name: name@ },
            HostAction::Fetch { address } => HostActionView::Fetch { address: address@ },
            HostAction::Listen { address } => HostActionView::Listen { address: address@ },
            HostAction::EmitItemUnregistered { address } => HostActionView::EmitItemUnregistered {
                address: address@,
            },
            HostAction::RefreshItems => HostActionView::RefreshItems,
            HostAction::EmitHostUnregistered => HostActionView::EmitHostUnregistered,
            HostAction::RefreshHost => HostActionView::RefreshHost,
        }
    }
}

/// Actions as values.
pub open spec fn action_views(actions: Seq<HostAction>) -> Seq<HostActionView> {
    actions.map_values(|a: HostAction| a@)
}

/// What is told when a bus name is lost: each item that is gone, then that the list
/// has changed if any is, then that a host is gone if one is, and that there is none
/// any more if that was the last.
pub open spec fn loss_actions(items: Seq<Seq<char>>, host: bool, last_host: bool) -> Seq<
    HostActionView,
> {
    items.map_values(|address: Seq<char>| HostActionView::EmitItemUnregistered { address }) + (
    if items.len() > 0 {
        seq![HostActionView::RefreshItems]
    } else {
        Seq::empty()
    }) + (if host {
        seq![HostActionView::EmitHostUnregistered]
    } else {
        Seq::empty()
    }) + (if last_host {
        seq![HostActionView::RefreshHost]
    } else {
        Seq::empty()
    })
}

/// The host of the tray.
#[derive(Debug)]
pub struct Host {
    pid: u32,
    attempt: u64,
    watcher: Watcher,
    systray: Systray,
}

impl Host {
    /// The process that the host runs in, and how often it has asked for a name.
    pub closed spec fn claim(&self) -> (u32, u64) {
        (self.pid, self.attempt)
    }

    /// The items that were registered.
    pub closed spec fn registered(&self) -> Seq<Seq<char>> {
        self.watcher.item_names()
    }

    /// The hosts that were registered.
    pub closed spec fn hosts(&self) -> Seq<Seq<char>> {
        self.watcher.host_names()
    }

    /// The items in the tray.
    pub closed spec fn tray(&self) -> Seq<TrayItem> {
        self.systray.list()
    }

    /// Whether no item and no host is registered twice.
    pub open spec fn registers_once(&self) -> bool {
        crate::names::distinct(self.registered()) && crate::names::distinct(self.hosts())
    }

    /// Whether nothing is registered twice, and no item is in the tray twice.
    pub open spec fn wf(&self) -> bool {
        self.registers_once() && crate::systray::apart(self.tray())
    }

    /// A host that asks for its first name.
    pub fn new(pid: u32) -> (r: (Self, HostAction))
        ensures
            r.0.wf(),
            r.0.claim() == (pid, 1u64),
            r.0.registered().len() == 0,
            r.0.hosts().len() == 0,
            r.0.tray().len() == 0,
            r.1@ == (HostActionView::RequestName {
                name: crate::systray::host_named(pid as int, 1),
            }),
    {
        let name = host_name(pid, 1);
        let host = Host { pid, attempt: 1, watcher: Watcher::new(), systray: Systray::new() };
        (host, HostAction::RequestName { name })
    }

    pub fn watcher(&mut self) -> (r: &mut Watcher)
        ensures
            old(self).registers_once() ==> r.wf(),
            r.item_names() == old(self).registered(),
            r.host_names() == old(self).hosts(),
            final(self).registered() == final(r).item_names(),
            final(self).hosts() == final(r).host_names(),
            final(self).tray() == old(self).tray(),
            final(self).claim() == old(self).claim(),
            final(r).wf() ==> final(self).registers_once(),
    {
        &mut self.watcher
    }

    pub fn systray(&self) -> (r: &Systray)
        ensures
            r.list() == self.tray(),
    {
        &self.systray
    }

    /// The tray, to bring an item of it up to date.
    pub fn systray_mut(&mut self) -> (r: &mut Systray)
        ensures
            old(self).wf() ==> r.wf(),
            r.list() == old(self).tray(),
            final(self).tray() == final(r).list(),
            old(self).wf() && final(r).wf() ==> final(self).wf(),
            final(self).claim() == old(self).claim(),
            final(self).registered() == old(self).registered(),
            final(self).hosts() == old(self).hosts(),
    {
        &mut self.systray
    }

    /// The bus has answered the request for a name: the host registers under it, or
    /// asks for another.
    pub fn name_replied(&mut self, reply: NameReply) -> (r: HostAction)
        requires
            old(self).claim().1 < u64::MAX,
        ensures
            final(self).wf() == old(self).wf(),
            final(self).registered() == old(self).registered(),
            final(self).hosts() == old(self).hosts(),
            final(self).tray() == old(self).tray(),
            final(self).claim() == (if reply == NameReply::PrimaryOwner {
                old(self).claim()
            } else {
                (old(self).claim().0, (old(self).claim().1 + 1) as u64)
            }),
            r@ == ({
                let name = crate::systray::host_named(
                    final(self).claim().0 as int,
                    final(self).claim().1 as int,
                );
                if reply == NameReply::PrimaryOwner {
                    HostActionView::RegisterHost { name }
                } else {
                    HostActionView::RequestName { name }
                }
            }),
    {
        if reply == NameReply::PrimaryOwner {
            let name = host_name(self.pid, self.attempt);
            HostAction::RegisterHost { name }
        } else {
            self.attempt = self.attempt + 1;
            let name = host_name(self.pid, self.attempt);
            HostAction::RequestName { name }
        }
    }

    /// The items that were registered before the host came are all asked.
    pub fn fetch_existing(addresses: &Vec<String>) -> (r: Vec<HostAction>)
        ensures
            action_views(r@) == crate::text::views(addresses@).map_values(
                |address: Seq<char>| HostActionView::Fetch { address },
            ),
    {
        let mut out: Vec<HostAction> = Vec::new();
        for i in 0..addresses.len()
            invariant
                out@.len() == i,
                forall|j: int|
                    0 <= j < i ==> (#[trigger] out@[j])@ == (HostActionView::Fetch {
                        address: addresses@[j]@,
                    }),
        {
            out.push(HostAction::Fetch { address: addresses[i].clone() });
        }
        assert(action_views(out@) =~= crate::text::views(addresses@).map_values(
            |address: Seq<char>| HostActionView::Fetch { address },
        ));
        out
    }

    /// An item has registered: it is asked for everything, unless it is in the tray.
    pub fn item_registered(&self, address: &str) -> (r: Option<HostAction>)
        ensures
            match r {
                Some(action) => action@ == (HostActionView::Fetch { address: address@ })
                    && crate::systray::item_at(self.tray(), 0, address@) is None,
                None => crate::systray::item_at(self.tray(), 0, address@) is Some,
            },
    {
        if self.systray.is_new(address) {
            Some(HostAction::Fetch { address: address.to_owned() })
        } else {
            None
        }
    }

    /// An item has told everything, or could not: it goes into the tray and is
    /// followed from now on. [`Host::item_registered`] asks only items that are not in
    /// the tray.
    pub fn item_fetched(&mut self, item: Option<TrayItem>) -> (r: Option<HostAction>)
        ensures
            old(self).wf() && (item matches Some(new) ==> crate::systray::item_at(
                old(self).tray(),
                0,
                new.address@,
            ) is None) ==> final(self).wf(),
            final(self).claim() == old(self).claim(),
            final(self).registered() == old(self).registered(),
            final(self).hosts() == old(self).hosts(),
            match item {
                Some(item) => {
                    &&& final(self).tray() == old(self).tray().push(item)
                    &&& r matches Some(action)
                    &&& action@ == (HostActionView::Listen { address: item.address@ })
                },
                None => final(self).tray() == old(self).tray() && r is None,
            },
    {
        match item {
            Some(item) => {
                let address = item.address().clone();
                self.systray.add_item(item);
                Some(HostAction::Listen { address })
            },
            None => None,
        }
    }

    /// An item has unregistered: it leaves the tray.
    pub fn item_unregistered(&mut self, address: &str)
        ensures
            old(self).wf() ==> final(self).wf(),
            final(self).claim() == old(self).claim(),
            final(self).registered() == old(self).registered(),
            final(self).hosts() == old(self).hosts(),
            final(self).tray() == (match crate::systray::item_at(old(self).tray(), 0, address@) {
                Some(i) => old(self).tray().remove(i),
                None => old(self).tray(),
            }),
    {
        let _ = self.systray.remove_item(address);
    }

    /// The owner of a bus name has changed. If it has none any more, what was
    /// registered under it is gone, from the list and from the tray.
    pub fn name_owner_changed(&mut self, name: &str, has_owner: bool) -> (r: Vec<HostAction>)
        requires
            old(self).registers_once(),
        ensures
            final(self).registers_once(),
            old(self).wf() ==> final(self).wf(),
            final(self).claim() == old(self).claim(),
            has_owner ==> {
                &&& r@.len() == 0
                &&& final(self).registered() == old(self).registered()
                &&& final(self).hosts() == old(self).hosts()
                &&& final(self).tray() == old(self).tray()
            },
            !has_owner ==> {
                let gone = old(self).registered().filter(|n: Seq<char>| name@.is_prefix_of(n));
                let host = old(self).hosts().contains(name@);
                &&& action_views(r@) == loss_actions(gone, host, host && old(self).hosts().len() == 1)
                &&& final(self).registered() == old(self).registered().filter(
                    |n: Seq<char>| !name@.is_prefix_of(n),
                )
                &&& final(self).hosts() == (match crate::names::name_from(
                    old(self).hosts(),
                    0,
                    name@,
                ) {
                    Some(i) => old(self).hosts().remove(i),
                    None => old(self).hosts(),
                })
                &&& final(self).tray() == crate::systray::without(old(self).tray(), gone)
            },
    {
        let mut out: Vec<HostAction> = Vec::new();
        if has_owner {
            return out;
        }
        let lost = self.watcher.name_lost(name);
        let ghost gone = crate::text::views(lost.items@);
        for i in 0..lost.items.len()
            invariant
                out@.len() == i,
                forall|j: int|
                    0 <= j < i ==> (#[trigger] out@[j])@ == (HostActionView::EmitItemUnregistered {
                        address: lost.items@[j]@,
                    }),
        {
            out.push(HostAction::EmitItemUnregistered { address: lost.items[i].clone() });
        }
        if lost.items.len() > 0 {
            out.push(HostAction::RefreshItems);
        }
        if lost.host {
            out.push(HostAction::EmitHostUnregistered);
        }
        if lost.last_host {
            out.push(HostAction::RefreshHost);
        }
        assert(action_views(out@) =~= loss_actions(gone, lost.host, lost.last_host));
        self.systray.remove_items(&lost.items);
        out
    }
}

/// When a program goes, every item of it is reported, once and in order, before the list is
/// read again; that it was a host, and the last one, is reported after.
pub proof fn law_losses_are_reported(
    items: Seq<Seq<char>>,
    host: bool,
    last_host: bool,
    i: int,
    action: HostActionView,
)
    requires
        0 <= i < loss_actions(items, host, last_host).len(),
    ensures
        ({
            let actions = loss_actions(items, host, last_host);
            &&& i < items.len() ==> actions[i] == (HostActionView::EmitItemUnregistered {
                address: items[i],
            })
            &&& i >= items.len() ==> !(actions[i] is EmitItemUnregistered)
            &&& actions.contains(HostActionView::RefreshItems) <==> items.len() > 0
            &&& actions.contains(HostActionView::EmitHostUnregistered) <==> host
            &&& actions.contains(HostActionView::RefreshHost) <==> last_host
        }),
{
    let actions = loss_actions(items, host, last_host);
    let n = items.len() as int;
    if n > 0 {
        assert(actions[n] == HostActionView::RefreshItems);
    }
    let m: int = if n > 0 { n + 1 } else { 0 };
    if host {
        assert(actions[m] == HostActionView::EmitHostUnregistered);
    }
    if last_host {
        assert(actions[actions.len() - 1] == HostActionView::RefreshHost);
    }
}

/// Nothing is reported when nothing is lost.
pub proof fn law_no_loss_no_report()
    ensures
        loss_actions(Seq::empty(), false, false) == Seq::<HostActionView>::empty(),
{
}

/// Nothing is registered twice with a sound host, neither an item nor a host.
pub proof fn law_everything_is_registered_once(host: &Host, i: int, j: int)
    requires
        host.registers_once(),
        0 <= i < j,
    ensures
        j < host.registered().len() ==> host.registered()[i] != host.registered()[j],
        j < host.hosts().len() ==> host.hosts()[i] != host.hosts()[j],
{
}

} // verus!
