//! The items of the system tray: how their addresses are read, what they show,
//! and how the list of them follows the signals on the bus.

use vstd::prelude::*;

use crate::number::decimal;
use crate::text::{chars_of, find_from, same, starts_with, string_between};

verus! {

/// How much attention an item asks for.
#[derive(Clone, Copy, Debug, PartialEq, Eq, Structural)]
pub enum Status {
    Passive,
    Active,
    NeedsAttention,
}

/// A text in quotes, with what would not print escaped: how the `Debug` form of
/// `str` writes it.
pub uninterp spec fn quoted(text: Seq<char>) -> Seq<char>;

/// `format!("{:?}", ..)` on a `str` puts it in quotes and escapes what would not
/// print.
#[verifier::external_body]
pub(crate) fn quote(text: &str) -> (r: String)
    ensures
        r@ == quoted(text@),
{
    format!("{:?}", text)
}

/// The status that a text names.
pub open spec fn status_named(value: Seq<char>) -> Option<Status> {
    if value == "Passive"@ {
        Some(Status::Passive)
    } else if value == "Active"@ {
        Some(Status::Active)
    } else if value == "NeedsAttention"@ {
        Some(Status::NeedsAttention)
    } else {
        None
    }
}

impl Status {
    /// Reads a status, or says in words that it is none.
    pub fn from_str(value: &str) -> (r: Result<Self, String>)
        ensures
            match r {
                Ok(status) => status_named(value@) == Some(status),
                Err(reason) => status_named(value@) is None && reason@ == "invalid status: "@
                    + quoted(value@),
            },
    {
        if same(value, "Passive") {
            Ok(Status::Passive)
        } else if same(value, "Active") {
            Ok(Status::Active)
        } else if same(value, "NeedsAttention") {
            Ok(Status::NeedsAttention)
        } else {
            let mut reason = "invalid status: ".to_owned();
            let other = quote(value);
            reason.append(&other);
            Err(reason)
        }
    }
}

/// The status that an item's reply stands for: active if there is none, or none
/// that is known.
pub open spec fn status_of(reply: Option<Seq<char>>) -> Status {
    match reply {
        Some(value) => match status_named(value) {
            Some(status) => status,
            None => Status::Active,
        },
        None => Status::Active,
    }
}

/// Reads an item's status; see [`status_of`].
pub fn read_status(reply: Option<String>) -> (r: Status)
    ensures
        r == status_of(crate::text::opt_view(reply)),
{
    match reply {
        Some(value) => match Status::from_str(&value) {
            Ok(status) => status,
            Err(_) => Status::Active,
        },
        None => Status::Active,
    }
}

/// A picture that an item carries: its width, its height and its bytes.
#[derive(Debug)]
pub struct Pixmap {
    pub width: i32,
    pub height: i32,
    pub data: Vec<u8>,
}

/// What an item shows as its icon.
#[derive(Debug)]
pub struct TrayIcon {
    pub name: Option<String>,
    pub theme_path: Option<String>,
    pub pixmap: Option<Vec<Pixmap>>,
}

/// A text that is there and not empty.
pub open spec fn non_empty(text: Option<Seq<char>>) -> Option<Seq<char>> {
    match text {
        Some(text) => if text.len() > 0 {
            Some(text)
        } else {
            None
        },
        None => None,
    }
}

/// Drops a text that is empty.
pub fn keep_non_empty(text: Option<String>) -> (r: Option<String>)
    ensures
        crate::text::opt_view(r) == non_empty(crate::text::opt_view(text)),
{
    match text {
        Some(text) => {
            if text.as_str().is_empty() {
                None
            } else {
                Some(text)
            }
        },
        None => None,
    }
}

impl TrayIcon {
    /// The icon that an item's replies stand for: what is empty counts as not
    /// there.
    pub fn from_replies(
        name: Option<String>,
        theme_path: Option<String>,
        pixmap: Option<Vec<Pixmap>>,
    ) -> (r: Self)
        ensures
            crate::text::opt_view(r.name) == non_empty(crate::text::opt_view(name)),
            crate::text::opt_view(r.theme_path) == non_empty(crate::text::opt_view(theme_path)),
            r.pixmap == (match pixmap {
                Some(list) => if list@.len() > 0 {
                    Some(list)
                } else {
                    None
                },
                None => None,
            }),
    {
        let pixmap = match pixmap {
            Some(list) => {
                if list.len() > 0 {
                    Some(list)
                } else {
                    None
                }
            },
            None => None,
        };
        TrayIcon { name: keep_non_empty(name), theme_path: keep_non_empty(theme_path), pixmap }
    }
}

/// An item of the tray.
#[derive(Debug)]
pub struct TrayItem {
    pub id: String,
    pub title: String,
    pub status: Status,
    pub icon: TrayIcon,
    pub menu_path: Option<String>,
    pub item_is_menu: bool,
    pub address: String,
}

/// A text, or an empty one if there is none.
pub open spec fn or_empty(text: Option<Seq<char>>) -> Seq<char> {
    match text {
        Some(text) => text,
        None => Seq::empty(),
    }
}

/// A text, or an empty one if there is none.
pub fn text_or_empty(text: Option<String>) -> (r: String)
    ensures
        r@ == or_empty(crate::text::opt_view(text)),
{
    match text {
        Some(text) => text,
        None => String::new(),
    }
}

impl TrayItem {
    /// The item at an address, made of what it replied; a reply that did not come
    /// leaves its default.
    pub fn from_replies(
        address: &str,
        id: Option<String>,
        title: Option<String>,
        status: Option<String>,
        icon: TrayIcon,
        menu_path: Option<String>,
        item_is_menu: Option<bool>,
    ) -> (r: Self)
        ensures
            r.address@ == address@,
            r.id@ == or_empty(crate::text::opt_view(id)),
            r.title@ == or_empty(crate::text::opt_view(title)),
            r.status == status_of(crate::text::opt_view(status)),
            r.icon == icon,
            r.menu_path == menu_path,
            r.item_is_menu == (item_is_menu == Some(true)),
    {
        TrayItem {
            id: text_or_empty(id),
            title: text_or_empty(title),
            status: read_status(status),
            icon,
            menu_path,
            item_is_menu: match item_is_menu {
                Some(menu) => menu,
                None => false,
            },
            address: address.to_owned(),
        }
    }

    /// Whether the item has a menu.
    pub fn has_menu(&self) -> (r: bool)
        ensures
            r == (self.menu_path is Some),
    {
        self.menu_path.is_some()
    }

    /// The address the item is known by.
    pub fn address(&self) -> (r: &String)
        ensures
            r@ == self.address@,
    {
        &self.address
    }
}

/// Where an address says that an item is.
#[derive(Debug)]
pub enum ItemAddress {
    /// At this path of this destination.
    At { destination: String, path: String },
    /// Somewhere below the root of this destination.
    Below { destination: String },
    /// Nowhere: it is not an address.
    Invalid,
}

/// An [`ItemAddress`] as a value.
pub enum ItemAddressView {
    At { destination: Seq<char>, path: Seq<char> },
    Below { destination: Seq<char> },
    Invalid,
}

impl View for ItemAddress {
    type V = ItemAddressView;

    open spec fn view(&self) -> ItemAddressView {
        match self {
            ItemAddress::At { destination, path } => ItemAddressView::At {
                destination: destination@,
                path: path@,
            },
            ItemAddress::Below { destination } => ItemAddressView::Below {
                destination: destination@,
            },
            ItemAddress::Invalid => ItemAddressView::Invalid,
        }
    }
}

/// Where an address says that an item is: it names a destination and, from its
/// first slash on, a path. A unique bus name may come without a path.
pub open spec fn item_address(address: Seq<char>) -> ItemAddressView {
    let slash = crate::text::index_from(address, 0, '/');
    if slash < address.len() {
        ItemAddressView::At { destination: address.take(slash), path: address.skip(slash) }
    } else if ":"@.is_prefix_of(address) {
        ItemAddressView::Below { destination: address }
    } else {
        ItemAddressView::Invalid
    }
}

/// Reads an item's address; see [`item_address`].
pub fn read_item_address(address: &str) -> (r: ItemAddress)
    ensures
        r@ == item_address(address@),
{
    let v = chars_of(address);
    let slash = find_from(&v, 0, '/');
    if slash < v.len() {
        let destination = string_between(&v, 0, slash);
        let path = string_between(&v, slash, v.len());
        assert(destination@ =~= address@.take(slash as int));
        assert(path@ =~= address@.skip(slash as int));
        ItemAddress::At { destination, path }
    } else if starts_with(address, ":") {
        ItemAddress::Below { destination: address.to_owned() }
    } else {
        ItemAddress::Invalid
    }
}

/// Reading an address loses nothing: the parts run together are the address.
pub proof fn law_address_parts_rejoin(address: Seq<char>)
    ensures
        match item_address(address) {
            ItemAddressView::At { destination, path } => destination + path == address
                && !destination.contains('/') && path.len() > 0 && path[0] == '/',
            ItemAddressView::Below { destination } => destination == address
                && !address.contains('/'),
            ItemAddressView::Invalid => !address.contains('/'),
        },
{
    crate::text::lemma_index_from(address, 0, '/');
    let slash = crate::text::index_from(address, 0, '/');
    assert(address.take(slash) + address.skip(slash) =~= address);
}

/// The path of a node below another.
pub open spec fn joined(path: Seq<char>, name: Seq<char>) -> Seq<char> {
    if path == "/"@ {
        path + name
    } else {
        path + "/"@ + name
    }
}

/// The path of a node below another; see [`joined`].
pub fn join_to_path(path: &str, name: &str) -> (r: String)
    ensures
        r@ == joined(path@, name@),
{
    let mut out = path.to_owned();
    if !same(path, "/") {
        out.append("/");
    }
    out.append(name);
    out
}

/// The name of a host in a process at its `attempt`-th try.
pub open spec fn host_named(pid: int, attempt: int) -> Seq<char> {
    "org.freedesktop.StatusNotifierHost-"@ + crate::number::written(pid, 10) + "-"@
        + crate::number::written(attempt, 10)
}

/// The name under which a host registers at its `attempt`-th try.
pub fn host_name(pid: u32, attempt: u64) -> (r: String)
    ensures
        r@ == host_named(pid as int, attempt as int),
{
    let mut out = "org.freedesktop.StatusNotifierHost-".to_owned();
    let pid = decimal(pid as u64);
    out.append(&pid);
    out.append("-");
    let attempt = decimal(attempt);
    out.append(&attempt);
    out
}

/// The tray's items, in the order in which they came.
#[derive(Debug)]
pub struct Systray {
    items: Vec<TrayItem>,
}

/// The position at or after `from` of the item at an address.
pub open spec fn item_at(items: Seq<TrayItem>, from: int, address: Seq<char>) -> Option<int>
    decreases items.len() - from,
{
    if from >= items.len() {
        None
    } else if items[from].address@ == address {
        Some(from)
    } else {
        item_at(items, from + 1, address)
    }
}

/// Removing the first item at each of `addresses`, one after the other.
pub open spec fn without(items: Seq<TrayItem>, addresses: Seq<Seq<char>>) -> Seq<TrayItem>
    decreases addresses.len(),
{
    if addresses.len() == 0 {
        items
    } else {
        let before = without(items, addresses.drop_last());
        match item_at(before, 0, addresses.last()) {
            Some(i) => before.remove(i),
            None => before,
        }
    }
}

/// Whether no two items have the same address.
pub open spec fn apart(items: Seq<TrayItem>) -> bool {
    forall|i: int, j: int|
        0 <= i < j < items.len() ==> (#[trigger] items[i]).address@ != (
        #[trigger] items[j]).address@
}

proof fn lemma_item_at(items: Seq<TrayItem>, from: int, address: Seq<char>)
    requires
        0 <= from,
    ensures
        match item_at(items, from, address) {
            Some(i) => from <= i < items.len() && items[i].address@ == address,
            None => forall|j: int|
                from <= j < items.len() ==> (#[trigger] items[j]).address@ != address,
        },
    decreases items.len() - from,
{
    if from < items.len() && items[from].address@ != address {
        lemma_item_at(items, from + 1, address);
    }
}

proof fn lemma_remove_keeps_apart(items: Seq<TrayItem>, k: int)
    requires
        apart(items),
        0 <= k < items.len(),
    ensures
        apart(items.remove(k)),
{
    let left = items.remove(k);
    assert forall|i: int, j: int| 0 <= i < j < left.len() implies (#[trigger] left[i]).address@ != (
    #[trigger] left[j]).address@ by {
        let a = if i < k {
            i
        } else {
            i + 1
        };
        let b = if j < k {
            j
        } else {
            j + 1
        };
        assert(left[i] == items[a] && left[j] == items[b]);
    }
}

/// Where no two items have the same address, none of the addresses whose items are removed
/// is left, and every item at another address is.
pub proof fn law_removed_addresses_are_gone(items: Seq<TrayItem>, addresses: Seq<Seq<char>>)
    requires
        apart(items),
    ensures
        apart(without(items, addresses)),
        forall|i: int|
            0 <= i < without(items, addresses).len() ==> !addresses.contains(
                (#[trigger] without(items, addresses)[i]).address@,
            ),
        forall|item: TrayItem|
            items.contains(item) && !addresses.contains(item.address@)
                ==> #[trigger] without(items, addresses).contains(item),
    decreases addresses.len(),
{
    if addresses.len() > 0 {
        let fewer = addresses.drop_last();
        let last = addresses.last();
        let before = without(items, fewer);
        let after = without(items, addresses);
        law_removed_addresses_are_gone(items, fewer);
        lemma_item_at(before, 0, last);
        assert forall|a: Seq<char>| addresses.contains(a) implies fewer.contains(a) || a == last by {
            let k = choose|k: int| 0 <= k < addresses.len() && addresses[k] == a;
            assert(k < fewer.len() ==> fewer[k] == a);
        }
        assert forall|a: Seq<char>| fewer.contains(a) implies addresses.contains(a) by {
            let k = choose|k: int| 0 <= k < fewer.len() && fewer[k] == a;
            assert(addresses[k] == a);
        }
        assert(addresses[addresses.len() - 1] == last);
        if let Some(at) = item_at(before, 0, last) {
            lemma_remove_keeps_apart(before, at);
            assert forall|i: int| 0 <= i < after.len() implies !addresses.contains(
                (#[trigger] after[i]).address@,
            ) by {
                let j = if i < at {
                    i
                } else {
                    i + 1
                };
                assert(after[i] == before[j]);
                assert(before[j].address@ != before[at].address@);
            }
            assert forall|item: TrayItem|
                items.contains(item) && !addresses.contains(
                    item.address@,
                ) implies #[trigger] after.contains(item) by {
                assert(before.contains(item));
                let j = choose|j: int| 0 <= j < before.len() && before[j] == item;
                assert(j != at);
                let i = if j < at {
                    j
                } else {
                    j - 1
                };
                assert(after[i] == item);
            }
        }
    }
}

/// Items that were asked for because the tray did not have them, each under an address
/// of its own, leave no address in the tray twice.
pub proof fn law_fetched_items_stand_apart(items: Seq<TrayItem>, fetched: Seq<TrayItem>)
    requires
        apart(items),
        apart(fetched),
        forall|i: int|
            0 <= i < fetched.len() ==> item_at(items, 0, (#[trigger] fetched[i]).address@) is None,
    ensures
        apart(items + fetched),
{
    let all = items + fetched;
    assert forall|i: int, j: int| 0 <= i < j < all.len() implies (#[trigger] all[i]).address@ != (
    #[trigger] all[j]).address@ by {
        if i < items.len() && j >= items.len() {
            let new = fetched[j - items.len()];
            lemma_item_at(items, 0, new.address@);
            assert(items[i].address@ != new.address@);
        } else if i >= items.len() {
            assert(fetched[i - items.len()].address@ != fetched[j - items.len()].address@);
        }
    }
}

impl Systray {
    /// No two items have the same address.
    pub open spec fn wf(&self) -> bool {
        apart(self.list())
    }

    /// The items, in the order in which they came.
    pub closed spec fn list(&self) -> Seq<TrayItem> {
        self.items@
    }

    /// An empty tray.
    pub fn new() -> (r: Self)
        ensures
            r.list().len() == 0,
            r.wf(),
    {
        Systray { items: Vec::new() }
    }

    /// The items, in the order in which they came.
    pub fn items(&self) -> (r: &Vec<TrayItem>)
        ensures
            r@ == self.list(),
    {
        &self.items
    }

    /// Finds the item at an address.
    fn find(&self, address: &str) -> (r: Option<usize>)
        ensures
            match r {
                Some(i) => i < self.items@.len() && item_at(self.items@, 0, address@) == Some(
                    i as int,
                ),
                None => item_at(self.items@, 0, address@) is None,
            },
    {
        let mut i: usize = 0;
        while i < self.items.len()
            invariant
                i <= self.items@.len(),
                item_at(self.items@, 0, address@) == item_at(self.items@, i as int, address@),
            decreases self.items@.len() - i,
        {
            if same(&self.items[i].address, address) {
                return Some(i);
            }
            i = i + 1;
        }
        None
    }

    /// Whether a registration is of an item that the tray does not have yet.
    pub fn is_new(&self, address: &str) -> (r: bool)
        ensures
            r == (item_at(self.list(), 0, address@) is None),
    {
        self.find(address).is_none()
    }

    /// Adds an item.
    pub fn add_item(&mut self, item: TrayItem)
        ensures
            final(self).list() == old(self).list().push(item),
            (old(self).wf() && item_at(old(self).list(), 0, item.address@) is None)
                ==> final(self).wf(),
    {
        proof {
            lemma_item_at(self.items@, 0, item.address@);
        }
        self.items.push(item);
    }

    /// Removes the item at an address. Says whether there was one.
    pub fn remove_item(&mut self, address: &str) -> (r: bool)
        ensures
            r == (item_at(old(self).list(), 0, address@) is Some),
            final(self).list() == (match item_at(old(self).list(), 0, address@) {
                Some(i) => old(self).list().remove(i),
                None => old(self).list(),
            }),
            old(self).wf() ==> final(self).wf(),
    {
        match self.find(address) {
            Some(i) => {
                proof {
                    if self.wf() {
                        lemma_remove_keeps_apart(self.items@, i as int);
                    }
                }
                self.items.remove(i);
                true
            },
            None => false,
        }
    }

    /// Removes the items at the addresses that a lost bus name took with it.
    pub fn remove_items(&mut self, addresses: &Vec<String>)
        ensures
            final(self).list() == without(old(self).list(), crate::text::views(addresses@)),
            old(self).wf() ==> final(self).wf(),
    {
        let ghost views = crate::text::views(addresses@);
        let mut i: usize = 0;
        assert(views.take(0) =~= Seq::<Seq<char>>::empty());
        while i < addresses.len()
            invariant
                i <= addresses@.len(),
                views == crate::text::views(addresses@),
                self.items@ == without(old(self).list(), views.take(i as int)),
                old(self).wf() ==> self.wf(),
            decreases addresses@.len() - i,
        {
            assert(views.take(i + 1).drop_last() =~= views.take(i as int));
            assert(views.take(i + 1).last() == addresses@[i as int]@);
            self.remove_item(&addresses[i]);
            i = i + 1;
        }
        assert(views.take(views.len() as int) =~= views);
    }

    /// Gives the item at an address a new icon. Says whether there was one.
    pub fn set_icon(&mut self, address: &str, icon: TrayIcon) -> (r: bool)
        ensures
            r == (item_at(old(self).list(), 0, address@) is Some),
            final(self).list() == (match item_at(old(self).list(), 0, address@) {
                Some(i) => old(self).list().update(
                    i,
                    (TrayItem { icon, ..old(self).list()[i] }),
                ),
                None => old(self).list(),
            }),
            old(self).wf() ==> final(self).wf(),
    {
        match self.find(address) {
            Some(i) => {
                let mut item = self.items.remove(i);
                item.icon = icon;
                self.items.insert(i, item);
                assert(self.items@ =~= old(self).list().update(i as int, item));
                true
            },
            None => false,
        }
    }

    /// Gives the item at an address a new title; an empty one if it replied none.
    /// Says whether there was one.
    pub fn set_title(&mut self, address: &str, title: Option<String>) -> (r: bool)
        ensures
            r == (item_at(old(self).list(), 0, address@) is Some),
            match item_at(old(self).list(), 0, address@) {
                Some(i) => {
                    let item = final(self).list()[i];
                    &&& final(self).list() == old(self).list().update(i, item)
                    &&& item == (TrayItem { title: item.title, ..old(self).list()[i] })
                    &&& item.title@ == or_empty(crate::text::opt_view(title))
                },
                None => final(self).list() == old(self).list(),
            },
            old(self).wf() ==> final(self).wf(),
    {
        match self.find(address) {
            Some(i) => {
                let mut item = self.items.remove(i);
                item.title = text_or_empty(title);
                self.items.insert(i, item);
                assert(self.items@ =~= old(self).list().update(i as int, item));
                true
            },
            None => false,
        }
    }

    /// Gives the item at an address a new status. Says whether there was one.
    pub fn set_status(&mut self, address: &str, status: String) -> (r: bool)
        ensures
            r == (item_at(old(self).list(), 0, address@) is Some),
            final(self).list() == (match item_at(old(self).list(), 0, address@) {
                Some(i) => old(self).list().update(
                    i,
                    (TrayItem { status: status_of(Some(status@)), ..old(self).list()[i] }),
                ),
                None => old(self).list(),
            }),
            old(self).wf() ==> final(self).wf(),
    {
        match self.find(address) {
            Some(i) => {
                let mut item = self.items.remove(i);
                item.status = read_status(Some(status));
                self.items.insert(i, item);
                assert(self.items@ =~= old(self).list().update(i as int, item));
                true
            },
            None => false,
        }
    }
}

/// A node of an object tree, as introspecting it describes it.
#[derive(Debug)]
pub struct Node {
    /// The interfaces that it has.
    pub interfaces: Vec<String>,
    /// The names of the nodes below it, as far as they have one.
    pub children: Vec<Option<String>>,
}

/// A step of the search for an item.
#[derive(Debug)]
pub enum SearchStep {
    /// It is at this path.
    Found(String),
    /// The node at this path has to be looked at next.
    Look(String),
    /// There is none.
    Missing,
}

/// A [`SearchStep`] as a value.
pub enum SearchStepView {
    Found(Seq<char>),
    Look(Seq<char>),
    Missing,
}

impl View for SearchStep {
    type V = SearchStepView;

    open spec fn view(&self) -> SearchStepView {
        match self {
            SearchStep::Found(path) => SearchStepView::Found(path@),
            SearchStep::Look(path) => SearchStepView::Look(path@),
            SearchStep::Missing => SearchStepView::Missing,
        }
    }
}

/// A place that the search has yet to come to: its path, and whether its name
/// alone says that the item is there.
pub struct Place {
    pub path: Seq<char>,
    pub sure: bool,
}

/// The places below a node, first to last. A node that goes by the item's own
/// name is taken for it without being looked at.
pub open spec fn below(path: Seq<char>, children: Seq<Option<Seq<char>>>) -> Seq<Place>
    decreases children.len(),
{
    if children.len() == 0 {
        Seq::empty()
    } else {
        match children[0] {
            Some(name) => seq![
                Place { path: joined(path, name), sure: name == "StatusNotifierItem"@ },
            ] + below(path, children.skip(1)),
            None => below(path, children.skip(1)),
        }
    }
}

/// What the search does next, with these places still to come.
pub open spec fn next_step(places: Seq<Place>) -> SearchStepView {
    if places.len() == 0 {
        SearchStepView::Missing
    } else if places[0].sure {
        SearchStepView::Found(places[0].path)
    } else {
        SearchStepView::Look(places[0].path)
    }
}

/// Finds the item of a service that gave no path, by walking its object tree
/// depth first from the root.
#[derive(Debug)]
pub struct ItemSearch {
    /// The places still to come, the next one last.
    pending: Vec<(String, bool)>,
}

/// The names of children as values.
pub open spec fn child_views(children: Seq<Option<String>>) -> Seq<Option<Seq<char>>> {
    children.map_values(|c: Option<String>| crate::text::opt_view(c))
}

impl ItemSearch {
    /// The places still to come, the next one first.
    pub closed spec fn places(&self) -> Seq<Place> {
        Seq::new(
            self.pending@.len(),
            |i: int|
                Place {
                    path: self.pending@[self.pending@.len() - 1 - i].0@,
                    sure: self.pending@[self.pending@.len() - 1 - i].1,
                },
        )
    }

    /// A search that starts at the root.
    pub fn new() -> (r: Self)
        ensures
            r.places() == seq![Place { path: "/"@, sure: false }],
    {
        let mut pending: Vec<(String, bool)> = Vec::new();
        pending.push(("/".to_owned(), false));
        let r = ItemSearch { pending };
        assert(r.places() =~= seq![Place { path: "/"@, sure: false }]);
        r
    }

    /// What the search does next.
    pub fn step(&self) -> (r: SearchStep)
        ensures
            r@ == next_step(self.places()),
    {
        let n: usize = self.pending.len();
        if n == 0 {
            return SearchStep::Missing;
        }
        let path = self.pending[n - 1].0.clone();
        if self.pending[n - 1].1 {
            SearchStep::Found(path)
        } else {
            SearchStep::Look(path)
        }
    }

    /// Takes in what the node that had to be looked at turned out to be. If it has
    /// the item's interface the search ends there; otherwise the nodes below it
    /// come next, before any other.
    pub fn looked(&mut self, node: &Node) -> (r: SearchStep)
        requires
            old(self).places().len() > 0,
        ensures
            ({
                let here = old(self).places()[0].path;
                if crate::text::views(node.interfaces@).contains("org.kde.StatusNotifierItem"@) {
                    r@ == SearchStepView::Found(here) && final(self).places() == old(self).places()
                } else {
                    &&& final(self).places() == below(here, child_views(node.children@)) + old(
                        self,
                    ).places().skip(1)
                    &&& r@ == next_step(final(self).places())
                }
            }),
    {
        let ghost before = self.places();
        let n: usize = self.pending.len();
        if crate::names::find_name(&node.interfaces, "org.kde.StatusNotifierItem").is_some() {
            return SearchStep::Found(self.pending[n - 1].0.clone());
        }
        let (here, _) = self.pending.remove(n - 1);
        assert(here@ == before[0].path);
        assert(self.places() =~= before.skip(1));
        let ghost names = child_views(node.children@);
        let mut i: usize = node.children.len();
        assert(names.skip(i as int) =~= Seq::<Option<Seq<char>>>::empty());
        assert(below(here@, names.skip(i as int)) + before.skip(1) =~= before.skip(1));
        while i > 0
            invariant
                i <= node.children@.len(),
                names == child_views(node.children@),
                self.places() == below(here@, names.skip(i as int)) + before.skip(1),
            decreases i,
        {
            i = i - 1;
            let ghost was = self.places();
            assert(names.skip(i as int).skip(1) =~= names.skip(i + 1));
            assert(names.skip(i as int)[0] == crate::text::opt_view(node.children@[i as int]));
            if let Some(name) = &node.children[i] {
                let sure: bool = same(name, "StatusNotifierItem");
                let path = join_to_path(&here, name);
                let ghost place = Place { path: path@, sure };
                self.pending.push((path, sure));
                assert(self.places() =~= seq![place] + was);
                assert(seq![place] + (below(here@, names.skip(i + 1)) + before.skip(1)) =~= (
                seq![place] + below(here@, names.skip(i + 1))) + before.skip(1));
            }
        }
        assert(names.skip(0) =~= names);
        self.step()
    }
}

/// A status goes by its name, and a status that is missing or unknown is active.
pub proof fn law_unknown_statuses_are_active(value: Seq<char>)
    ensures
        status_of(None) is Active,
        status_of(Some(value)) is Passive <==> value == "Passive"@,
        status_of(Some(value)) is NeedsAttention <==> value == "NeedsAttention"@,
        status_named(value) is None <==> value != "Passive"@ && value != "Active"@ && value
            != "NeedsAttention"@,
        status_named(value) == Some(Status::Active) <==> value == "Active"@,
{
    reveal_strlit("Passive");
    reveal_strlit("Active");
    reveal_strlit("NeedsAttention");
    assert("Passive"@.len() == 7 && "Active"@.len() == 6 && "NeedsAttention"@.len() == 14);
}

/// A text that is missing and one that is empty are the same thing.
pub proof fn law_empty_texts_are_missing(text: Seq<char>)
    ensures
        non_empty(None) is None,
        non_empty(Some(text)) is None <==> text.len() == 0,
        text.len() > 0 ==> non_empty(Some(text)) == Some(text),
        or_empty(None) == Seq::<char>::empty(),
        or_empty(Some(text)) == text,
        or_empty(non_empty(Some(text))) == text,
{
    if text.len() == 0 {
        assert(text =~= Seq::<char>::empty());
    }
}

/// An address names a program and the path of its item; without a path it is that of a
/// program whose item has yet to be looked for, as long as it is a connection's own name.
pub proof fn law_addresses_are_told_apart(destination: Seq<char>, path: Seq<char>)
    requires
        !destination.contains('/'),
        path.len() > 0 && path[0] == '/',
    ensures
        item_address(destination + path) == (ItemAddressView::At { destination, path }),
        item_address(destination) == (ItemAddressView::Below { destination }) <==> (
        destination.len() > 0 && destination[0] == ':'),
        item_address(destination) is Invalid <==> destination.len() == 0 || destination[0] != ':',
{
    let rest = path.skip(1);
    assert(destination + seq!['/'] + rest =~= destination + path);
    crate::text::law_first_place_is_found(destination, '/', rest);
    let whole = destination + path;
    assert(whole.take(destination.len() as int) =~= destination);
    assert(whole.skip(destination.len() as int) =~= path);
    reveal_strlit(":");
    if destination.len() > 0 && destination[0] == ':' {
        assert(destination.take(1) =~= ":"@);
    }
    if ":"@.is_prefix_of(destination) {
        assert(destination[0] == ":"@[0]);
    }
}

/// Below the root a name stands right behind the slash, and below any other path behind one
/// more.
pub proof fn law_paths_are_joined_by_one_slash(path: Seq<char>, name: Seq<char>)
    ensures
        joined(seq!['/'], name) == seq!['/'] + name,
        path != seq!['/'] ==> joined(path, name) == path + seq!['/'] + name,
{
    reveal_strlit("/");
    assert("/"@ =~= seq!['/']);
}

/// An item is found by its address, the first of it, and an address that no item has is not
/// found.
pub proof fn law_items_are_found_by_address(items: Seq<TrayItem>, address: Seq<char>, k: int)
    ensures
        item_at(items, 0, address) is Some <==> exists|j: int|
            0 <= j < items.len() && (#[trigger] items[j]).address@ == address,
        item_at(items, 0, address) matches Some(i) ==> 0 <= i < items.len() && items[i].address@
            == address && (0 <= k < i ==> items[k].address@ != address),
{
    lemma_first_item(items, 0, address, k);
}

proof fn lemma_first_item(items: Seq<TrayItem>, from: int, address: Seq<char>, k: int)
    requires
        0 <= from <= items.len(),
    ensures
        item_at(items, from, address) is Some <==> exists|j: int|
            from <= j < items.len() && (#[trigger] items[j]).address@ == address,
        item_at(items, from, address) matches Some(i) ==> from <= i < items.len()
            && items[i].address@ == address && (from <= k < i ==> items[k].address@ != address),
    decreases items.len() - from,
{
    if from < items.len() && items[from].address@ != address {
        lemma_first_item(items, from + 1, address, k);
    }
}

/// Every child that has a name is looked at in its turn, under its own path, and only one
/// that is called like the item is taken without a look.
pub proof fn law_every_child_is_looked_at(
    path: Seq<char>,
    children: Seq<Option<Seq<char>>>,
    place: Place,
)
    ensures
        below(path, children).contains(place) <==> exists|i: int|
            0 <= i < children.len() && (#[trigger] children[i]) is Some && place.path == joined(
                path,
                children[i]->0,
            ) && (place.sure <==> children[i]->0 == "StatusNotifierItem"@),
        below(path, children).len() <= children.len(),
    decreases children.len(),
{
    if children.len() > 0 {
        let rest = children.skip(1);
        law_every_child_is_looked_at(path, rest, place);
        let later = below(path, rest);
        let all = below(path, children);
        assert forall|i: int| 0 <= i < rest.len() implies rest[i] == children[i + 1] by {}
        if later.contains(place) {
            let k = choose|k: int| 0 <= k < later.len() && later[k] == place;
            if children[0] is Some {
                assert(all[k + 1] == place);
            }
            let i = choose|i: int|
                0 <= i < rest.len() && (#[trigger] rest[i]) is Some && place.path == joined(
                    path,
                    rest[i]->0,
                ) && (place.sure <==> rest[i]->0 == "StatusNotifierItem"@);
            assert(children[i + 1] is Some);
        }
        if children[0] is Some {
            assert(all[0] == (Place {
                path: joined(path, children[0]->0),
                sure: children[0]->0 == "StatusNotifierItem"@,
            }));
        }
        if all.contains(place) && !later.contains(place) {
            let k = choose|k: int| 0 <= k < all.len() && all[k] == place;
            if children[0] is Some {
                if k > 0 {
                    assert(later[k - 1] == place);
                }
                assert(k == 0);
            } else {
                assert(later[k] == place);
            }
            assert(children[0] is Some);
        }
        if exists|i: int|
            0 <= i < children.len() && (#[trigger] children[i]) is Some && place.path == joined(
                path,
                children[i]->0,
            ) && (place.sure <==> children[i]->0 == "StatusNotifierItem"@) {
            let i = choose|i: int|
                0 <= i < children.len() && (#[trigger] children[i]) is Some && place.path
                    == joined(path, children[i]->0) && (place.sure <==> children[i]->0
                    == "StatusNotifierItem"@);
            if i == 0 {
                assert(all[0] == place);
            } else {
                assert(rest[i - 1] is Some);
                assert(later.contains(place));
            }
        }
    }
}

/// The search takes the places in their order and gives up only when there are none left.
pub proof fn law_places_are_taken_in_order(first: Place, rest: Seq<Place>)
    ensures
        next_step(Seq::empty()) is Missing,
        first.sure ==> next_step(seq![first] + rest) == SearchStepView::Found(first.path),
        !first.sure ==> next_step(seq![first] + rest) == SearchStepView::Look(first.path),
{
    assert((seq![first] + rest)[0] == first);
}

/// A host's name tells the process and, behind a dash, the attempt.
pub proof fn law_hosts_are_named_by_process_and_attempt(pid: int, attempt: int)
    ensures
        host_named(pid, attempt) == "org.freedesktop.StatusNotifierHost-"@ + (
        crate::number::written(pid, 10) + (seq!['-'] + crate::number::written(attempt, 10))),
{
    reveal_strlit("-");
    assert("-"@ =~= seq!['-']);
    assert(host_named(pid, attempt) =~= "org.freedesktop.StatusNotifierHost-"@ + (
    crate::number::written(pid, 10) + (seq!['-'] + crate::number::written(attempt, 10))));
}

} // verus!
