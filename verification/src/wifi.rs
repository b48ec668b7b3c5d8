//! The wireless networks in reach, and joining and leaving them.

use vstd::prelude::*;

use crate::matcher::{search_texts, MAX_QUERY, MAX_TERM};
use crate::names::find_name;
use crate::networkmanager::{AccessPoint, KnownNetwork};
use crate::picker::Category;
use crate::text::same;

verus! {

/// A network, as the strongest of its access points offers it, and the objects of
/// the others.
#[derive(Debug)]
pub struct Network {
    pub access_point: AccessPoint,
    pub alternates: Vec<String>,
}

/// A [`Network`] as a value.
#[verifier::ext_equal]
pub struct NetworkView {
    pub access_point: crate::networkmanager::AccessPointView,
    pub alternates: Seq<Seq<char>>,
}

impl View for Network {
    type V = NetworkView;

    open spec fn view(&self) -> NetworkView {
        NetworkView {
            access_point: self.access_point@,
            alternates: crate::text::views(self.alternates@),
        }
    }
}

/// Networks as values.
pub open spec fn network_views(networks: Seq<Network>) -> Seq<NetworkView> {
    networks.map_values(|n: Network| n@)
}

/// Access points as values.
pub open spec fn point_views(points: Seq<AccessPoint>) -> Seq<
    crate::networkmanager::AccessPointView,
> {
    points.map_values(|p: AccessPoint| p@)
}

/// A list of names with one more, unless it is in it already.
pub open spec fn with_name(names: Seq<Seq<char>>, name: Seq<char>) -> Seq<Seq<char>> {
    if names.contains(name) {
        names
    } else {
        names.push(name)
    }
}

fn insert_name(names: &mut Vec<String>, name: &str)
    ensures
        crate::text::views(final(names)@) == with_name(crate::text::views(old(names)@), name@),
{
    if find_name(names, name).is_none() {
        names.push(name.to_owned());
        assert(crate::text::views(names@) =~= crate::text::views(old(names)@).push(name@));
    }
}

/// The position at or after `from` of the network of a name.
pub open spec fn network_from(networks: Seq<NetworkView>, from: int, ssid: Seq<char>) -> Option<int>
    decreases networks.len() - from,
{
    if from >= networks.len() {
        None
    } else if networks[from].access_point.ssid == ssid {
        Some(from)
    } else {
        network_from(networks, from + 1, ssid)
    }
}

/// A network once another of its access points is found: the stronger one stands
/// for it, the other becomes an alternate.
pub open spec fn beside(
    network: NetworkView,
    point: crate::networkmanager::AccessPointView,
) -> NetworkView {
    if point.strength > network.access_point.strength {
        NetworkView {
            access_point: point,
            alternates: with_name(network.alternates, network.access_point.path),
        }
    } else {
        NetworkView { alternates: with_name(network.alternates, point.path), ..network }
    }
}

/// The networks once one more access point is found. One without a name is left
/// out.
pub open spec fn absorbed(
    networks: Seq<NetworkView>,
    point: crate::networkmanager::AccessPointView,
) -> Seq<NetworkView> {
    if point.ssid.len() == 0 {
        networks
    } else {
        match network_from(networks, 0, point.ssid) {
            Some(i) => networks.update(i, beside(networks[i], point)),
            None => networks.push(
                NetworkView { access_point: point, alternates: Seq::empty() },
            ),
        }
    }
}

/// The networks that the first `n` access points offer.
pub open spec fn deduplicated(
    points: Seq<crate::networkmanager::AccessPointView>,
    n: int,
) -> Seq<NetworkView>
    decreases n,
{
    if n <= 0 {
        Seq::empty()
    } else {
        absorbed(deduplicated(points, n - 1), points[n - 1])
    }
}

fn find_network(networks: &Vec<Network>, ssid: &str) -> (r: Option<usize>)
    ensures
        match r {
            Some(i) => i < networks@.len() && network_from(network_views(networks@), 0, ssid@)
                == Some(i as int),
            None => network_from(network_views(networks@), 0, ssid@) is None,
        },
{
    let ghost all = network_views(networks@);
    let mut i: usize = 0;
    while i < networks.len()
        invariant
            i <= networks@.len(),
            all == network_views(networks@),
            network_from(all, 0, ssid@) == network_from(all, i as int, ssid@),
        decreases networks@.len() - i,
    {
        if same(&networks[i].access_point.ssid, ssid) {
            return Some(i);
        }
        i = i + 1;
    }
    None
}

fn absorb(networks: &mut Vec<Network>, point: AccessPoint)
    ensures
        network_views(final(networks)@) == absorbed(network_views(old(networks)@), point@),
{
    if point.ssid.as_str().is_empty() {
        return;
    }
    match find_network(networks, &point.ssid) {
        Some(i) => {
            let Network { access_point, alternates } = networks.remove(i);
            let mut alternates = alternates;
            let ghost at = i as int;
            let ghost rest = networks@;
            let network = if point.strength > access_point.strength {
                insert_name(&mut alternates, &access_point.path);
                Network { access_point: point, alternates }
            } else {
                insert_name(&mut alternates, &point.path);
                Network { access_point, alternates }
            };
            networks.insert(i, network);
            assert(networks@[at]@ =~= beside(old(networks)@[at]@, point@));
            assert(network_views(networks@) =~= network_views(old(networks)@).update(
                at,
                beside(network_views(old(networks)@)[at], point@),
            ));
        },
        None => {
            let network = Network { access_point: point, alternates: Vec::new() };
            assert(network@.alternates =~= Seq::<Seq<char>>::empty());
            networks.push(network);
            assert(network_views(networks@) =~= network_views(old(networks)@).push(
                NetworkView { access_point: point@, alternates: Seq::empty() },
            ));
        },
    }
}

/// Deduplicates access points by SSID, keeping the one with the highest signal strength.
/// Returns the winning access points along with the set of alternate object paths for each.
pub fn deduplicate_access_points(points: &Vec<AccessPoint>) -> (r: Vec<Network>)
    ensures
        network_views(r@) == deduplicated(point_views(points@), points@.len() as int),
{
    let ghost all = point_views(points@);
    let mut out: Vec<Network> = Vec::new();
    assert(network_views(out@) =~= deduplicated(all, 0));
    for i in 0..points.len()
        invariant
            all == point_views(points@),
            network_views(out@) == deduplicated(all, i as int),
    {
        absorb(&mut out, points[i].clone());
    }
    out
}

proof fn lemma_network_from(networks: Seq<NetworkView>, from: int, ssid: Seq<char>)
    requires
        0 <= from,
    ensures
        match network_from(networks, from, ssid) {
            Some(i) => from <= i < networks.len() && networks[i].access_point.ssid == ssid,
            None => forall|j: int|
                from <= j < networks.len() ==> (#[trigger] networks[j]).access_point.ssid != ssid,
        },
    decreases networks.len() - from,
{
    if from < networks.len() && networks[from].access_point.ssid != ssid {
        lemma_network_from(networks, from + 1, ssid);
    }
}

/// No two of the networks share a name, and each has one.
pub proof fn law_one_network_per_name(
    points: Seq<crate::networkmanager::AccessPointView>,
    n: int,
)
    requires
        0 <= n <= points.len(),
    ensures
        forall|i: int|
            0 <= i < deduplicated(points, n).len() ==> (#[trigger] deduplicated(
                points,
                n,
            )[i]).access_point.ssid.len() > 0,
        forall|i: int, j: int|
            0 <= i < j < deduplicated(points, n).len() ==> (#[trigger] deduplicated(
                points,
                n,
            )[i]).access_point.ssid != (#[trigger] deduplicated(points, n)[j]).access_point.ssid,
    decreases n,
{
    if n > 0 {
        law_one_network_per_name(points, n - 1);
        lemma_network_from(deduplicated(points, n - 1), 0, points[n - 1].ssid);
    }
}

/// Whether an access point is stood for by a network: the network has its name, is
/// at least as strong, and knows its object.
pub open spec fn stands_for(
    network: NetworkView,
    point: crate::networkmanager::AccessPointView,
) -> bool {
    &&& network.access_point.ssid == point.ssid
    &&& network.access_point.strength >= point.strength
    &&& network.access_point.path == point.path || network.alternates.contains(point.path)
}

proof fn lemma_still_stands_for(
    network: NetworkView,
    point: crate::networkmanager::AccessPointView,
    more: crate::networkmanager::AccessPointView,
)
    requires
        stands_for(network, point),
        more.ssid == network.access_point.ssid,
    ensures
        stands_for(beside(network, more), point),
        stands_for(beside(network, more), more),
{
    let old = network.access_point.path;
    lemma_with_name(network.alternates, old, point.path);
    lemma_with_name(network.alternates, more.path, point.path);
}

proof fn lemma_with_name(names: Seq<Seq<char>>, name: Seq<char>, other: Seq<char>)
    ensures
        with_name(names, name).contains(name),
        names.contains(other) ==> with_name(names, name).contains(other),
{
    if !names.contains(name) {
        assert(names.push(name)[names.len() as int] == name);
        if names.contains(other) {
            let i = choose|i: int| 0 <= i < names.len() && names[i] == other;
            assert(names.push(name)[i] == other);
        }
    }
}

/// Every access point that has a name is stood for by a network, which is at least
/// as strong.
pub proof fn law_every_access_point_is_stood_for(
    points: Seq<crate::networkmanager::AccessPointView>,
    n: int,
    k: int,
)
    requires
        0 <= k < n <= points.len(),
        points[k].ssid.len() > 0,
    ensures
        exists|i: int|
            0 <= i < deduplicated(points, n).len() && stands_for(
                #[trigger] deduplicated(points, n)[i],
                points[k],
            ),
    decreases n,
{
    let before = deduplicated(points, n - 1);
    let after = deduplicated(points, n);
    let more = points[n - 1];
    lemma_network_from(before, 0, more.ssid);
    if k == n - 1 {
        match network_from(before, 0, more.ssid) {
            Some(i) => {
                lemma_with_name(before[i].alternates, before[i].access_point.path, more.path);
                lemma_with_name(before[i].alternates, more.path, more.path);
                assert(stands_for(after[i], more));
            },
            None => {
                assert(stands_for(after[before.len() as int], more));
            },
        }
    } else {
        law_every_access_point_is_stood_for(points, n - 1, k);
        let i = choose|i: int|
            0 <= i < before.len() && stands_for(#[trigger] before[i], points[k]);
        if more.ssid.len() > 0 && network_from(before, 0, more.ssid) == Some(i) {
            lemma_still_stands_for(before[i], points[k], more);
        }
        assert(stands_for(after[i], points[k]));
    }
}

/// How joining a network is going.
#[derive(Clone, Copy, Debug, PartialEq, Eq, Structural)]
pub enum ConnectionState {
    Idle,
    Connecting,
    Failed,
}

/// A network on the list.
#[derive(Debug)]
pub struct WifiEntry {
    /// Tells the entry apart from every other that was ever on the list.
    pub key: u64,
    /// The object that the network was first seen as.
    pub id: String,
    /// What the network is found under.
    pub search_string: String,
    /// Whether it is listed as one that was joined before.
    pub is_known: bool,
    pub alternates: Vec<String>,
    pub access_point: AccessPoint,
    pub is_connected: bool,
    /// Whether it can be joined again as it was before.
    pub is_saved: bool,
    pub connection_path: Option<String>,
    pub connection_state: ConnectionState,
}

/// A [`WifiEntry`] as a value.
#[verifier::ext_equal]
pub struct EntryView {
    pub key: u64,
    pub id: Seq<char>,
    pub search_string: Seq<char>,
    pub is_known: bool,
    pub alternates: Seq<Seq<char>>,
    pub access_point: crate::networkmanager::AccessPointView,
    pub is_connected: bool,
    pub is_saved: bool,
    pub connection_path: Option<Seq<char>>,
    pub connection_state: ConnectionState,
}

impl View for WifiEntry {
    type V = EntryView;

    open spec fn view(&self) -> EntryView {
        EntryView {
            key: self.key,
            id: self.id@,
            search_string: self.search_string@,
            is_known: self.is_known,
            alternates: crate::text::views(self.alternates@),
            access_point: self.access_point@,
            is_connected: self.is_connected,
            is_saved: self.is_saved,
            connection_path: crate::text::opt_view(self.connection_path),
            connection_state: self.connection_state,
        }
    }
}

/// Entries as values.
pub open spec fn entry_views(entries: Seq<WifiEntry>) -> Seq<EntryView> {
    entries.map_values(|e: WifiEntry| e@)
}

/// The connection that joins the network of a name, from `from` on.
pub open spec fn known_path(
    known: Seq<(Seq<char>, Seq<char>)>,
    from: int,
    ssid: Seq<char>,
) -> Option<Seq<char>>
    decreases known.len() - from,
{
    if from >= known.len() {
        None
    } else if known[from].0 == ssid {
        Some(known[from].1)
    } else {
        known_path(known, from + 1, ssid)
    }
}

fn find_known(known: &Vec<KnownNetwork>, ssid: &str) -> (r: Option<String>)
    ensures
        crate::text::opt_view(r) == known_path(
            crate::networkmanager::known_views(known@),
            0,
            ssid@,
        ),
{
    let ghost all = crate::networkmanager::known_views(known@);
    let mut i: usize = 0;
    while i < known.len()
        invariant
            i <= known@.len(),
            all == crate::networkmanager::known_views(known@),
            known_path(all, 0, ssid@) == known_path(all, i as int, ssid@),
        decreases known@.len() - i,
    {
        if same(&known[i].ssid, ssid) {
            return Some(known[i].path.clone());
        }
        i = i + 1;
    }
    None
}

/// A network that comes onto the list. It is connected if the access point that is
/// in use is the one that stands for it.
pub open spec fn new_entry(
    key: u64,
    network: NetworkView,
    active: Option<Seq<char>>,
    known: Seq<(Seq<char>, Seq<char>)>,
) -> EntryView {
    let path = known_path(known, 0, network.access_point.ssid);
    EntryView {
        key,
        id: network.access_point.path,
        search_string: network.access_point.ssid,
        is_known: path is Some,
        alternates: network.alternates,
        access_point: network.access_point,
        is_connected: active == Some(network.access_point.hw_address),
        is_saved: path is Some,
        connection_path: path,
        connection_state: ConnectionState::Idle,
    }
}

impl WifiEntry {
    pub fn new(
        key: u64,
        network: Network,
        active: &Option<String>,
        known: &Vec<KnownNetwork>,
    ) -> (r: Self)
        ensures
            r@ == new_entry(
                key,
                network@,
                crate::text::opt_view(*active),
                crate::networkmanager::known_views(known@),
            ),
    {
        let connection_path = find_known(known, &network.access_point.ssid);
        let is_known: bool = connection_path.is_some();
        let is_connected: bool = match active {
            Some(active) => same(active, &network.access_point.hw_address),
            None => false,
        };
        WifiEntry {
            key,
            id: network.access_point.path.clone(),
            search_string: network.access_point.ssid.clone(),
            is_known,
            alternates: network.alternates,
            access_point: network.access_point,
            is_connected,
            is_saved: is_known,
            connection_path,
            connection_state: ConnectionState::Idle,
        }
    }

    /// What is said of the network beside its name.
    pub fn status(&self) -> (r: Option<String>)
        ensures
            crate::text::opt_view(r) == (match self.connection_state {
                ConnectionState::Connecting => Some("Connecting..."@),
                ConnectionState::Failed => Some("Connection failed"@),
                ConnectionState::Idle => if self.is_connected {
                    Some("Connected"@)
                } else if self.is_saved {
                    Some("Saved"@)
                } else {
                    None
                },
            }),
    {
        match self.connection_state {
            ConnectionState::Connecting => Some("Connecting...".to_owned()),
            ConnectionState::Failed => Some("Connection failed".to_owned()),
            ConnectionState::Idle => {
                if self.is_connected {
                    Some("Connected".to_owned())
                } else if self.is_saved {
                    Some("Saved".to_owned())
                } else {
                    None
                }
            },
        }
    }
}

/// Whether an object belongs to one of the networks.
pub open spec fn represented(networks: Seq<NetworkView>, path: Seq<char>) -> bool {
    exists|i: int|
        0 <= i < networks.len() && ((#[trigger] networks[i]).access_point.path == path
            || networks[i].alternates.contains(path))
}

fn is_represented(networks: &Vec<Network>, path: &str) -> (r: bool)
    ensures
        r == represented(network_views(networks@), path@),
{
    let ghost all = network_views(networks@);
    for i in 0..networks.len()
        invariant
            all == network_views(networks@),
            forall|j: int|
                0 <= j < i ==> (#[trigger] all[j]).access_point.path != path@
                    && !all[j].alternates.contains(path@),
    {
        assert(all[i as int] == networks@[i as int]@);
        if same(&networks[i].access_point.path, path) || find_name(
            &networks[i].alternates,
            path,
        ).is_some() {
            return true;
        }
    }
    false
}

/// Whether an entry stays on the list after a scan: its own object or one of its
/// alternates was seen.
pub open spec fn survives(entry: EntryView, networks: Seq<NetworkView>) -> bool {
    ||| represented(networks, entry.id)
    ||| exists|i: int|
        0 <= i < entry.alternates.len() && represented(networks, #[trigger] entry.alternates[i])
}

fn stays(entry: &WifiEntry, networks: &Vec<Network>) -> (r: bool)
    ensures
        r == survives(entry@, network_views(networks@)),
{
    if is_represented(networks, &entry.id) {
        return true;
    }
    let ghost all = entry@.alternates;
    for i in 0..entry.alternates.len()
        invariant
            all == entry@.alternates,
            all == crate::text::views(entry.alternates@),
            forall|j: int|
                0 <= j < i ==> !represented(network_views(networks@), #[trigger] all[j]),
    {
        assert(all[i as int] == entry.alternates@[i as int]@);
        if is_represented(networks, &entry.alternates[i]) {
            assert(represented(network_views(networks@), all[i as int]));
            return true;
        }
    }
    false
}

/// Whether an entry is the one that an object belongs to.
pub open spec fn owns(entry: EntryView, path: Seq<char>) -> bool {
    entry.id == path || entry.alternates.contains(path)
}

/// The position at or after `from` of the entry that an object belongs to.
pub open spec fn owner_from(entries: Seq<EntryView>, from: int, path: Seq<char>) -> Option<int>
    decreases entries.len() - from,
{
    if from >= entries.len() {
        None
    } else if owns(entries[from], path) {
        Some(from)
    } else {
        owner_from(entries, from + 1, path)
    }
}

fn find_owner(entries: &Vec<WifiEntry>, path: &str) -> (r: Option<usize>)
    ensures
        match r {
            Some(i) => i < entries@.len() && owner_from(entry_views(entries@), 0, path@) == Some(
                i as int,
            ),
            None => owner_from(entry_views(entries@), 0, path@) is None,
        },
{
    let ghost all = entry_views(entries@);
    let mut i: usize = 0;
    while i < entries.len()
        invariant
            i <= entries@.len(),
            all == entry_views(entries@),
            owner_from(all, 0, path@) == owner_from(all, i as int, path@),
        decreases entries@.len() - i,
    {
        if same(&entries[i].id, path) || find_name(&entries[i].alternates, path).is_some() {
            return Some(i);
        }
        i = i + 1;
    }
    None
}

/// A list of entries, and the key that the next one gets.
#[verifier::ext_equal]
pub struct ListView {
    pub entries: Seq<EntryView>,
    pub next_key: int,
}

/// The list once a network was seen: an entry that it belongs to is brought up to
/// date, else it comes onto the list.
pub open spec fn seen(
    list: ListView,
    network: NetworkView,
    active: Option<Seq<char>>,
    known: Seq<(Seq<char>, Seq<char>)>,
) -> ListView {
    match owner_from(list.entries, 0, network.access_point.path) {
        Some(i) => ListView {
            entries: list.entries.update(
                i,
                EntryView {
                    access_point: network.access_point,
                    alternates: network.alternates,
                    ..list.entries[i]
                },
            ),
            ..list
        },
        None => ListView {
            entries: list.entries.push(new_entry(list.next_key as u64, network, active, known)),
            next_key: list.next_key + 1,
        },
    }
}

/// The list once the first `n` networks were seen.
pub open spec fn seen_all(
    list: ListView,
    networks: Seq<NetworkView>,
    n: int,
    active: Option<Seq<char>>,
    known: Seq<(Seq<char>, Seq<char>)>,
) -> ListView
    decreases n,
{
    if n <= 0 {
        list
    } else {
        seen(seen_all(list, networks, n - 1, active, known), networks[n - 1], active, known)
    }
}

/// The list once a scan is done: what was not seen is gone, what was seen is up to
/// date or new.
pub open spec fn rescanned(
    list: ListView,
    networks: Seq<NetworkView>,
    active: Option<Seq<char>>,
    known: Seq<(Seq<char>, Seq<char>)>,
) -> ListView {
    seen_all(
        ListView {
            entries: list.entries.filter(|e: EntryView| survives(e, networks)),
            ..list
        },
        networks,
        networks.len() as int,
        active,
        known,
    )
}

/// What the first `n` networks look like as a list of their own.
pub open spec fn listed(
    next_key: int,
    networks: Seq<NetworkView>,
    n: int,
    active: Option<Seq<char>>,
    known: Seq<(Seq<char>, Seq<char>)>,
) -> Seq<EntryView>
    decreases n,
{
    if n <= 0 {
        Seq::empty()
    } else {
        listed(next_key, networks, n - 1, active, known).push(
            new_entry((next_key + n - 1) as u64, networks[n - 1], active, known),
        )
    }
}

proof fn lemma_owner_from(entries: Seq<EntryView>, from: int, path: Seq<char>)
    requires
        0 <= from,
    ensures
        match owner_from(entries, from, path) {
            Some(i) => from <= i < entries.len() && owns(entries[i], path),
            None => forall|j: int| from <= j < entries.len() ==> !owns(#[trigger] entries[j], path),
        },
    decreases entries.len() - from,
{
    if from < entries.len() && !owns(entries[from], path) {
        lemma_owner_from(entries, from + 1, path);
    }
}

proof fn lemma_seen_keys(
    list: ListView,
    networks: Seq<NetworkView>,
    n: int,
    active: Option<Seq<char>>,
    known: Seq<(Seq<char>, Seq<char>)>,
)
    requires
        0 <= n,
    ensures
        list.next_key <= seen_all(list, networks, n, active, known).next_key <= list.next_key + n,
    decreases n,
{
    if n > 0 {
        lemma_seen_keys(list, networks, n - 1, active, known);
    }
}

/// Whether the keys of a list are in order, each of them given out already.
pub open spec fn keys_in_order(list: ListView) -> bool {
    &&& 0 <= list.next_key
    &&& forall|i: int| 0 <= i < list.entries.len() ==> (#[trigger] list.entries[i]).key
        < list.next_key
    &&& forall|i: int, j: int|
        0 <= i < j < list.entries.len() ==> (#[trigger] list.entries[i]).key < (
        #[trigger] list.entries[j]).key
}

proof fn lemma_filter_keeps_order(list: ListView, keep: spec_fn(EntryView) -> bool)
    requires
        keys_in_order(list),
    ensures
        keys_in_order(ListView { entries: list.entries.filter(keep), ..list }),
        forall|i: int|
            0 <= i < list.entries.filter(keep).len() ==> list.entries.contains(
                #[trigger] list.entries.filter(keep)[i],
            ),
    decreases list.entries.len(),
{
    reveal(Seq::filter);
    if list.entries.len() > 0 {
        let init = list.entries.drop_last();
        let last = list.entries.last();
        lemma_filter_keeps_order(ListView { entries: init, ..list }, keep);
        let left = init.filter(keep);
        assert forall|i: int| 0 <= i < left.len() implies (#[trigger] left[i]).key < last.key
            && list.entries.contains(left[i]) by {
            assert(init.contains(left[i]));
            let at = choose|at: int| 0 <= at < init.len() && init[at] == left[i];
            assert(list.entries[at] == left[i]);
        }
        if keep(last) {
            assert(list.entries[list.entries.len() - 1] == last);
        }
    }
}

/// A scan never gives one key to two entries.
pub proof fn law_scans_keep_entries_apart(
    list: ListView,
    networks: Seq<NetworkView>,
    active: Option<Seq<char>>,
    known: Seq<(Seq<char>, Seq<char>)>,
)
    requires
        keys_in_order(list),
        list.next_key + networks.len() <= u64::MAX,
    ensures
        keys_in_order(rescanned(list, networks, active, known)),
{
    let keep = |e: EntryView| survives(e, networks);
    lemma_filter_keeps_order(list, keep);
    lemma_seen_keeps_order(
        ListView { entries: list.entries.filter(keep), ..list },
        networks,
        networks.len() as int,
        active,
        known,
    );
}

proof fn lemma_seen_keeps_order(
    list: ListView,
    networks: Seq<NetworkView>,
    n: int,
    active: Option<Seq<char>>,
    known: Seq<(Seq<char>, Seq<char>)>,
)
    requires
        0 <= n <= networks.len(),
        keys_in_order(list),
        list.next_key + n <= u64::MAX,
    ensures
        keys_in_order(seen_all(list, networks, n, active, known)),
    decreases n,
{
    if n > 0 {
        lemma_seen_keeps_order(list, networks, n - 1, active, known);
        lemma_seen_keys(list, networks, n - 1, active, known);
        let before = seen_all(list, networks, n - 1, active, known);
        lemma_owner_from(before.entries, 0, networks[n - 1].access_point.path);
    }
}

/// The position at or after `from` of the entry with a key.
pub open spec fn entry_from(entries: Seq<EntryView>, from: int, key: u64) -> Option<int>
    decreases entries.len() - from,
{
    if from >= entries.len() {
        None
    } else if entries[from].key == key {
        Some(from)
    } else {
        entry_from(entries, from + 1, key)
    }
}

proof fn lemma_entry_from(entries: Seq<EntryView>, from: int, key: u64)
    requires
        0 <= from,
    ensures
        match entry_from(entries, from, key) {
            Some(i) => from <= i < entries.len() && entries[i].key == key,
            None => forall|j: int| from <= j < entries.len() ==> (#[trigger] entries[j]).key != key,
        },
    decreases entries.len() - from,
{
    if from < entries.len() && entries[from].key != key {
        lemma_entry_from(entries, from + 1, key);
    }
}

/// The prompt for the password of a network.
#[derive(Debug)]
pub struct PasswordPopup {
    /// The entry that is to be joined.
    pub key: u64,
    /// The access point that the password is for.
    pub access_point: String,
    /// Whether the prompt is on its way out.
    pub closing: bool,
}

/// A [`PasswordPopup`] as a value.
pub struct PopupView {
    pub key: u64,
    pub access_point: Seq<char>,
    pub closing: bool,
}

impl View for PasswordPopup {
    type V = PopupView;

    open spec fn view(&self) -> PopupView {
        PopupView { key: self.key, access_point: self.access_point@, closing: self.closing }
    }
}

/// An optional prompt as a value.
pub open spec fn popup_view(popup: Option<PasswordPopup>) -> Option<PopupView> {
    match popup {
        Some(popup) => Some(popup@),
        None => None,
    }
}

/// The menu of what can be done with an entry.
#[derive(Debug)]
pub struct ActionMenu {
    /// The entry that it was opened for.
    pub key: u64,
    /// Whether the entry was listed as known when the menu was opened.
    pub is_known: bool,
    /// The entry, once it has gone off the list.
    pub gone: Option<WifiEntry>,
}

/// An [`ActionMenu`] as a value.
#[verifier::ext_equal]
pub struct MenuView {
    pub key: u64,
    pub is_known: bool,
    pub gone: Option<EntryView>,
}

impl View for ActionMenu {
    type V = MenuView;

    open spec fn view(&self) -> MenuView {
        MenuView {
            key: self.key,
            is_known: self.is_known,
            gone: match self.gone {
                Some(entry) => Some(entry@),
                None => None,
            },
        }
    }
}

/// An optional menu as a value.
pub open spec fn menu_view(menu: Option<ActionMenu>) -> Option<MenuView> {
    match menu {
        Some(menu) => Some(menu@),
        None => None,
    }
}

/// An open menu once only some entries are kept on the list. It keeps its own entry,
/// even if the list does not.
pub open spec fn holding(
    menu: Option<MenuView>,
    entries: Seq<EntryView>,
    keep: spec_fn(EntryView) -> bool,
) -> Option<MenuView> {
    match menu {
        Some(menu) => match entry_from(entries, 0, menu.key) {
            Some(i) => if keep(entries[i]) {
                Some(menu)
            } else {
                Some(MenuView { gone: Some(entries[i]), ..menu })
            },
            None => Some(menu),
        },
        None => None,
    }
}

/// How long the prompt takes to go away, in milliseconds.
pub const PASSWORD_ANIM_EXIT: u64 = 100;

/// Something to do for the panel.
#[derive(Debug)]
pub enum WifiEffect {
    /// Take the active connection down, for an entry.
    Disconnect { key: u64 },
    /// Bring a connection up that is set up already.
    Activate { key: u64, connection: String, access_point: String },
    /// Set a connection up and bring it up.
    Join { key: u64, access_point: String },
    /// Set a connection up with a password and bring it up.
    JoinWithPassword { key: u64, access_point: String, password: String },
    /// Move the focus to the prompt for the password.
    FocusPassword,
    /// Move the focus to the search field.
    FocusSearch,
    /// Say when the prompt has gone away.
    StartDismissTimer { millis: u64 },
    /// Delete a connection, for the entry with a key and an id.
    Forget { key: u64, id: String, connection: String },
}

/// A [`WifiEffect`] as a value.
pub enum EffectView {
    Disconnect { key: u64 },
    Activate { key: u64, connection: Seq<char>, access_point: Seq<char> },
    Join { key: u64, access_point: Seq<char> },
    JoinWithPassword { key: u64, access_point: Seq<char>, password: Seq<char> },
    FocusPassword,
    FocusSearch,
    StartDismissTimer { millis: u64 },
    Forget { key: u64, id: Seq<char>, connection: Seq<char> },
}

impl View for WifiEffect {
    type V = EffectView;

    open spec fn view(&self) -> EffectView {
        match self {
            WifiEffect::Disconnect { key } => EffectView::Disconnect { key: *key },
            WifiEffect::Activate { key, connection, access_point } => EffectView::Activate {
                key: *key,
                connection: connection@,
                access_point: access_point@,
            },
            WifiEffect::Join { key, access_point } => EffectView::Join {
                key: *key,
                access_point: access_point@,
            },
            WifiEffect::JoinWithPassword { key, access_point, password } =>
                EffectView::JoinWithPassword {
                key: *key,
                access_point: access_point@,
                password: password@,
            },
            WifiEffect::FocusPassword => EffectView::FocusPassword,
            WifiEffect::FocusSearch => EffectView::FocusSearch,
            WifiEffect::StartDismissTimer { millis } => EffectView::StartDismissTimer {
                millis: *millis,
            },
            WifiEffect::Forget { key, id, connection } => EffectView::Forget {
                key: *key,
                id: id@,
                connection: connection@,
            },
        }
    }
}

/// Effects as values.
pub open spec fn effect_views(effects: Seq<WifiEffect>) -> Seq<EffectView> {
    effects.map_values(|e: WifiEffect| e@)
}

/// How a connection was to be made or ended.
#[derive(Clone, Copy, Debug, PartialEq, Eq, Structural)]
pub enum Attempt {
    /// With a connection that was set up already.
    Known,
    /// With a new connection.
    New,
    Disconnect,
}

/// The panel as a value.
#[verifier::ext_equal]
pub struct PanelView {
    /// Whether NetworkManager and a wireless device are there.
    pub ready: bool,
    pub list: ListView,
    pub scanning: bool,
    pub popup: Option<PopupView>,
    /// What can be done with an entry, if that is shown.
    pub submenu: Option<MenuView>,
}

/// A panel and what is to be done.
#[verifier::ext_equal]
pub struct Step {
    pub panel: PanelView,
    pub effects: Seq<EffectView>,
}

impl PanelView {
    /// Nothing happens.
    pub open spec fn unmoved(self) -> Step {
        Step { panel: self, effects: Seq::empty() }
    }

    /// The entry with a key that has gone off the list, if the open menu still has it.
    pub open spec fn gone(self, key: u64) -> Option<EntryView> {
        match self.submenu {
            Some(menu) => if menu.key == key {
                menu.gone
            } else {
                None
            },
            None => None,
        }
    }

    /// The entry with a key, on the list or off it.
    pub open spec fn entry(self, key: u64) -> Option<EntryView> {
        match entry_from(self.list.entries, 0, key) {
            Some(i) => Some(self.list.entries[i]),
            None => self.gone(key),
        }
    }

    /// The panel with another value for an entry, on the list or off it.
    pub open spec fn putting(self, key: u64, entry: EntryView) -> PanelView {
        match entry_from(self.list.entries, 0, key) {
            Some(i) => PanelView {
                list: ListView { entries: self.list.entries.update(i, entry), ..self.list },
                ..self
            },
            None => PanelView {
                submenu: match self.submenu {
                    Some(menu) => Some(MenuView { gone: Some(entry), ..menu }),
                    None => None,
                },
                ..self
            },
        }
    }

    /// The panel with one entry changed, on the list or off it.
    pub open spec fn with_entry(self, key: u64, change: spec_fn(EntryView) -> EntryView) -> PanelView {
        match self.entry(key) {
            Some(entry) => self.putting(key, change(entry)),
            None => self,
        }
    }

    /// The networks that are there at first are listed, in place of all others.
    pub open spec fn initialized(
        self,
        networks: Seq<NetworkView>,
        active: Option<Seq<char>>,
        known: Seq<(Seq<char>, Seq<char>)>,
    ) -> PanelView {
        PanelView {
            ready: true,
            list: ListView {
                entries: listed(
                    self.list.next_key,
                    networks,
                    networks.len() as int,
                    active,
                    known,
                ),
                next_key: self.list.next_key + networks.len(),
            },
            scanning: true,
            submenu: holding(self.submenu, self.list.entries, |e: EntryView| false),
            ..self
        }
    }

    /// A scan is done.
    pub open spec fn after_scan(
        self,
        networks: Seq<NetworkView>,
        active: Option<Seq<char>>,
        known: Seq<(Seq<char>, Seq<char>)>,
    ) -> PanelView {
        PanelView {
            scanning: false,
            list: rescanned(self.list, networks, active, known),
            submenu: holding(
                self.submenu,
                self.list.entries,
                |e: EntryView| survives(e, networks),
            ),
            ..self
        }
    }

    /// The panel while an entry is being joined.
    pub open spec fn connecting(self, key: u64) -> PanelView {
        self.with_entry(
            key,
            |e: EntryView| EntryView { connection_state: ConnectionState::Connecting, ..e },
        )
    }

    /// An entry was picked: it is left if it is in use, else joined, with a password
    /// if it takes one and is not known.
    pub open spec fn picked(self, key: u64) -> Step {
        match self.entry(key) {
            Some(entry) => {
                let access_point = entry.access_point.path;
                if entry.is_connected {
                    if self.ready {
                        Step { panel: self, effects: seq![EffectView::Disconnect { key }] }
                    } else {
                        self.unmoved()
                    }
                } else if entry.is_saved {
                    match entry.connection_path {
                        Some(connection) => if self.ready {
                            Step {
                                panel: self.connecting(key),
                                effects: seq![
                                    EffectView::Activate { key, connection, access_point },
                                ],
                            }
                        } else {
                            self.unmoved()
                        },
                        None => self.unmoved(),
                    }
                } else if entry.access_point.security
                    != crate::networkmanager::SecurityType::Open {
                    Step {
                        panel: PanelView {
                            popup: Some(PopupView { key, access_point, closing: false }),
                            ..self
                        },
                        effects: seq![EffectView::FocusPassword],
                    }
                } else if self.ready {
                    Step {
                        panel: self.connecting(key),
                        effects: seq![EffectView::Join { key, access_point }],
                    }
                } else {
                    self.unmoved()
                }
            },
            None => self.unmoved(),
        }
    }

    /// The prompt is dismissed, unless it is on its way out.
    pub open spec fn dismissed(self) -> Step {
        match self.popup {
            Some(popup) => if popup.closing {
                self.unmoved()
            } else {
                Step {
                    panel: PanelView { popup: Some(PopupView { closing: true, ..popup }), ..self },
                    effects: seq![
                        EffectView::FocusSearch,
                        EffectView::StartDismissTimer { millis: PASSWORD_ANIM_EXIT },
                    ],
                }
            },
            None => self.unmoved(),
        }
    }

    /// A password was entered: the network is joined with it, and the prompt goes.
    pub open spec fn submitted(self, password: Seq<char>) -> Step {
        match self.popup {
            Some(popup) => if self.ready {
                let then = self.connecting(popup.key).dismissed();
                Step {
                    panel: then.panel,
                    effects: seq![
                        EffectView::JoinWithPassword {
                            key: popup.key,
                            access_point: popup.access_point,
                            password,
                        },
                    ] + then.effects,
                }
            } else {
                self.dismissed()
            },
            None => self.unmoved(),
        }
    }

    /// An attempt ended, well or not.
    pub open spec fn finished(self, key: u64, attempt: Attempt, ok: bool) -> PanelView {
        if !ok {
            self.with_entry(
                key,
                |e: EntryView| EntryView { connection_state: ConnectionState::Failed, ..e },
            )
        } else {
            match attempt {
                Attempt::Known => self.with_entry(
                    key,
                    |e: EntryView|
                        EntryView {
                            connection_state: ConnectionState::Idle,
                            is_connected: true,
                            ..e
                        },
                ),
                Attempt::New => self.with_entry(
                    key,
                    |e: EntryView|
                        EntryView {
                            connection_state: ConnectionState::Idle,
                            is_connected: true,
                            is_saved: true,
                            is_known: true,
                            ..e
                        },
                ),
                Attempt::Disconnect => self.with_entry(
                    key,
                    |e: EntryView| EntryView { is_connected: false, ..e },
                ),
            }
        }
    }

    /// An entry is to be forgotten, which counts as known or not. Only one that is known
    /// can be.
    pub open spec fn forgetting_as(self, key: u64, is_known: bool) -> Step {
        match self.entry(key) {
            Some(entry) => match entry.connection_path {
                Some(connection) => if is_known && self.ready {
                    Step {
                        panel: self,
                        effects: seq![EffectView::Forget { key, id: entry.id, connection }],
                    }
                } else {
                    self.unmoved()
                },
                None => self.unmoved(),
            },
            None => self.unmoved(),
        }
    }

    /// An entry is to be forgotten. One on the list counts as known if it is listed so,
    /// one that only the open menu still has if it was when the menu was opened.
    pub open spec fn forgetting(self, key: u64) -> Step {
        self.forgetting_as(
            key,
            match entry_from(self.list.entries, 0, key) {
                Some(i) => self.list.entries[i].is_known,
                None => self.submenu matches Some(menu) && menu.is_known,
            },
        )
    }

    /// An action was picked in the open menu. It is for the entry that the menu was opened
    /// for, whether or not that is still on the list.
    pub open spec fn acted(self, action: WifiAction) -> Step {
        match self.submenu {
            Some(menu) => match action {
                WifiAction::Connect => self.picked(menu.key),
                WifiAction::Forget => self.forgetting_as(menu.key, menu.is_known),
            },
            None => self.unmoved(),
        }
    }

    /// An entry was forgotten.
    pub open spec fn forgotten(self, key: u64, id: Seq<char>) -> PanelView {
        let after = self.with_entry(
            key,
            |e: EntryView|
                EntryView { is_saved: false, connection_path: None, is_connected: false, ..e },
        );
        PanelView {
            list: ListView {
                entries: after.list.entries.map_values(
                    |e: EntryView|
                        EntryView {
                            is_known: if e.id == id {
                                false
                            } else {
                                e.is_known
                            },
                            ..e
                        },
                ),
                ..after.list
            },
            ..after
        }
    }
}

/// The list of wireless networks.
#[derive(Debug)]
pub struct WifiPanel {
    ready: bool,
    entries: Vec<WifiEntry>,
    next_key: u64,
    scanning: bool,
    popup: Option<PasswordPopup>,
    submenu: Option<ActionMenu>,
}

impl View for WifiPanel {
    type V = PanelView;

    closed spec fn view(&self) -> PanelView {
        PanelView {
            ready: self.ready,
            list: ListView {
                entries: entry_views(self.entries@),
                next_key: self.next_key as int,
            },
            scanning: self.scanning,
            popup: popup_view(self.popup),
            submenu: menu_view(self.submenu),
        }
    }
}

fn one_effect(effect: WifiEffect) -> (r: Vec<WifiEffect>)
    ensures
        effect_views(r@) == seq![effect@],
{
    let mut out: Vec<WifiEffect> = Vec::new();
    out.push(effect);
    assert(effect_views(out@) =~= seq![effect@]);
    out
}

fn no_effects() -> (r: Vec<WifiEffect>)
    ensures
        effect_views(r@) == Seq::<EffectView>::empty(),
{
    let out: Vec<WifiEffect> = Vec::new();
    assert(effect_views(out@) =~= Seq::<EffectView>::empty());
    out
}

impl WifiPanel {
    pub fn new() -> (r: Self)
        ensures
            r@ == (PanelView {
                ready: false,
                list: ListView { entries: Seq::empty(), next_key: 0 },
                scanning: false,
                popup: None,
                submenu: None,
            }),
    {
        let panel = WifiPanel {
            ready: false,
            entries: Vec::new(),
            next_key: 0,
            scanning: false,
            popup: None,
            submenu: None,
        };
        assert(panel@.list.entries =~= Seq::<EntryView>::empty());
        panel
    }

    pub fn entries(&self) -> (r: &Vec<WifiEntry>)
        ensures
            entry_views(r@) == self@.list.entries,
    {
        &self.entries
    }

    pub fn is_scanning(&self) -> (r: bool)
        ensures
            r == self@.scanning,
    {
        self.scanning
    }

    pub fn popup(&self) -> (r: &Option<PasswordPopup>)
        ensures
            popup_view(*r) == self@.popup,
    {
        &self.popup
    }

    /// The entry whose actions are shown.
    pub fn submenu(&self) -> (r: Option<u64>)
        ensures
            r == (match self@.submenu {
                Some(menu) => Some(menu.key),
                None => None,
            }),
    {
        match &self.submenu {
            Some(menu) => Some(menu.key),
            None => None,
        }
    }

    fn find_entry(&self, key: u64) -> (r: Option<usize>)
        ensures
            match r {
                Some(i) => i < self.entries@.len() && entry_from(self@.list.entries, 0, key) == Some(
                    i as int,
                ),
                None => entry_from(self@.list.entries, 0, key) is None,
            },
    {
        let mut i: usize = 0;
        while i < self.entries.len()
            invariant
                i <= self.entries@.len(),
                entry_from(self@.list.entries, 0, key) == entry_from(
                    self@.list.entries,
                    i as int,
                    key,
                ),
            decreases self.entries@.len() - i,
        {
            if self.entries[i].key == key {
                return Some(i);
            }
            i = i + 1;
        }
        None
    }

    /// The entry with a key, on the list or off it; see [`PanelView::entry`].
    fn look_up(&self, key: u64) -> (r: Option<&WifiEntry>)
        ensures
            match r {
                Some(entry) => self@.entry(key) == Some(entry@),
                None => self@.entry(key) is None,
            },
    {
        match self.find_entry(key) {
            Some(i) => Some(&self.entries[i]),
            None => match &self.submenu {
                Some(menu) => {
                    if menu.key == key {
                        match &menu.gone {
                            Some(entry) => Some(entry),
                            None => None,
                        }
                    } else {
                        None
                    }
                },
                None => None,
            },
        }
    }

    /// The entry with a key, on the list or off it, to be changed.
    fn entry_mut(&mut self, key: u64) -> (r: Option<&mut WifiEntry>)
        ensures
            match r {
                Some(entry) => {
                    &&& old(self)@.entry(key) == Some(entry@)
                    &&& final(self)@ == old(self)@.putting(key, final(entry)@)
                },
                None => old(self)@.entry(key) is None && final(self)@ == old(self)@,
            },
    {
        match self.find_entry(key) {
            Some(i) => Some(&mut self.entries[i]),
            None => match &mut self.submenu {
                Some(menu) => {
                    if menu.key == key {
                        match &mut menu.gone {
                            Some(entry) => Some(entry),
                            None => None,
                        }
                    } else {
                        None
                    }
                },
                None => None,
            },
        }
    }

    /// Where the entry of the open menu stands on the list.
    fn find_held(&self) -> (r: Option<usize>)
        ensures
            match r {
                Some(i) => i < self.entries@.len() && self.submenu is Some && entry_from(
                    self@.list.entries,
                    0,
                    self.submenu->0.key,
                ) == Some(i as int),
                None => self.submenu matches Some(menu) ==> entry_from(
                    self@.list.entries,
                    0,
                    menu.key,
                ) is None,
            },
    {
        match &self.submenu {
            Some(menu) => self.find_entry(menu.key),
            None => None,
        }
    }

    /// Lets the open menu have an entry that goes off the list.
    fn hold(&mut self, entry: WifiEntry)
        ensures
            final(self)@ == (PanelView {
                submenu: match old(self)@.submenu {
                    Some(menu) => Some(MenuView { gone: Some(entry@), ..menu }),
                    None => None,
                },
                ..old(self)@
            }),
            final(self).entries == old(self).entries,
            final(self).next_key == old(self).next_key,
            final(self).popup == old(self).popup,
    {
        if let Some(menu) = self.submenu.take() {
            self.submenu = Some(
                ActionMenu { key: menu.key, is_known: menu.is_known, gone: Some(entry) },
            );
        }
    }

    /// NetworkManager and a wireless device are there. The networks that are known
    /// already are listed, and a scan for more begins.
    pub fn initialize(
        &mut self,
        networks: Vec<Network>,
        active: &Option<String>,
        known: &Vec<KnownNetwork>,
    )
        requires
            old(self)@.list.next_key + networks@.len() <= u64::MAX,
        ensures
            final(self)@ == old(self)@.initialized(
                network_views(networks@),
                crate::text::opt_view(*active),
                crate::networkmanager::known_views(known@),
            ),
    {
        let ghost all = network_views(networks@);
        let ghost first = self.next_key as int;
        let ghost at = crate::text::opt_view(*active);
        let ghost names = crate::networkmanager::known_views(known@);
        let n: usize = networks.len();
        if let Some(at) = self.find_held() {
            let entry = self.entries.remove(at);
            self.hold(entry);
        }
        let mut rest = networks;
        let mut entries: Vec<WifiEntry> = Vec::new();
        assert(entry_views(entries@) =~= listed(first, all, 0, at, names));
        assert(network_views(rest@) =~= all.skip(0));
        let mut i: usize = 0;
        while i < n
            invariant
                i <= n,
                n == all.len(),
                rest@.len() == n - i,
                network_views(rest@) == all.skip(i as int),
                first == old(self)@.list.next_key,
                first + n <= u64::MAX,
                self.next_key == first + i,
                at == crate::text::opt_view(*active),
                names == crate::networkmanager::known_views(known@),
                entry_views(entries@) == listed(first, all, i as int, at, names),
                self.popup == old(self).popup,
                menu_view(self.submenu) == holding(
                    old(self)@.submenu,
                    old(self)@.list.entries,
                    |e: EntryView| false,
                ),
            decreases n - i,
        {
            assert(all.skip(i as int)[0] == rest@[0]@);
            let ghost was = entries@;
            let ghost here = all.skip(i as int);
            assert(here.skip(1) =~= all.skip(i + 1));
            let network = rest.remove(0);
            assert(network_views(rest@) =~= here.skip(1));
            entries.push(WifiEntry::new(self.next_key, network, active, known));
            assert(entry_views(entries@) =~= entry_views(was).push(
                new_entry(self.next_key, all[i as int], at, names),
            ));
            self.next_key = self.next_key + 1;
            i = i + 1;
        }
        self.entries = entries;
        self.ready = true;
        self.scanning = true;
    }

    /// Begins another scan, if there is something to scan with.
    pub fn refresh(&mut self) -> (r: bool)
        ensures
            r == old(self)@.ready,
            final(self)@ == (if old(self)@.ready {
                PanelView { scanning: true, ..old(self)@ }
            } else {
                old(self)@
            }),
    {
        if self.ready {
            self.scanning = true;
        }
        self.ready
    }

    fn drop_unseen(&mut self, networks: &Vec<Network>)
        ensures
            final(self)@ == (PanelView {
                list: ListView {
                    entries: old(self)@.list.entries.filter(
                        |e: EntryView| survives(e, network_views(networks@)),
                    ),
                    ..old(self)@.list
                },
                submenu: holding(
                    old(self)@.submenu,
                    old(self)@.list.entries,
                    |e: EntryView| survives(e, network_views(networks@)),
                ),
                ..old(self)@
            }),
    {
        let ghost before = self@.list.entries;
        let ghost keep = |e: EntryView| survives(e, network_views(networks@));
        let held = self.find_held();
        let mut gone: Option<WifiEntry> = None;
        let mut left: Vec<WifiEntry> = Vec::new();
        let mut rest: Vec<WifiEntry> = Vec::new();
        rest.append(&mut self.entries);
        let n: usize = rest.len();
        assert(before.skip(0) =~= before);
        assert(entry_views(left@) + before.filter(keep) =~= before.filter(keep));
        let mut i: usize = 0;
        while i < n
            invariant
                i <= n,
                n == before.len(),
                rest@.len() == n - i,
                entry_views(rest@) == before.skip(i as int),
                keep == (|e: EntryView| survives(e, network_views(networks@))),
                entry_views(left@) + before.skip(i as int).filter(keep) == before.filter(keep),
                gone is Some <==> (held matches Some(at) && at < i && !keep(before[at as int])),
                gone matches Some(entry) ==> entry@ == before[held->0 as int],
            decreases n - i,
        {
            let ghost here = before.skip(i as int);
            let ghost was = entry_views(left@);
            proof {
                crate::names::lemma_filter_first(here, keep);
                assert(here.skip(1) =~= before.skip(i + 1));
                assert(here[0] == rest@[0]@);
            }
            let entry = rest.remove(0);
            assert(entry_views(rest@) =~= before.skip(i + 1));
            if stays(&entry, networks) {
                left.push(entry);
                assert(entry_views(left@) =~= was.push(entry@));
                assert(was.push(entry@) + here.skip(1).filter(keep) =~= was + (seq![entry@]
                    + here.skip(1).filter(keep)));
            } else if let Some(at) = held {
                if at == i {
                    gone = Some(entry);
                }
            }
            i = i + 1;
        }
        proof {
            reveal(Seq::filter);
            assert(before.skip(i as int) =~= Seq::<EntryView>::empty());
            assert(entry_views(left@) + Seq::<EntryView>::empty() =~= entry_views(left@));
        }
        self.entries = left;
        if let Some(entry) = gone {
            self.hold(entry);
        }
    }

    fn see(&mut self, network: Network, active: &Option<String>, known: &Vec<KnownNetwork>)
        requires
            old(self)@.list.next_key < u64::MAX,
        ensures
            final(self)@ == (PanelView {
                list: seen(
                    old(self)@.list,
                    network@,
                    crate::text::opt_view(*active),
                    crate::networkmanager::known_views(known@),
                ),
                ..old(self)@
            }),
    {
        match find_owner(&self.entries, &network.access_point.path) {
            Some(i) => {
                let Network { access_point, alternates } = network;
                self.entries[i].access_point = access_point;
                self.entries[i].alternates = alternates;
                assert(self@.list.entries =~= seen(
                    old(self)@.list,
                    network@,
                    crate::text::opt_view(*active),
                    crate::networkmanager::known_views(known@),
                ).entries);
            },
            None => {
                let ghost shown = network@;
                let entry = WifiEntry::new(self.next_key, network, active, known);
                self.entries.push(entry);
                self.next_key = self.next_key + 1;
                assert(self@.list.entries =~= old(self)@.list.entries.push(entry@));
            },
        }
    }

    /// Takes in the networks that a scan found.
    pub fn scanned(
        &mut self,
        networks: Vec<Network>,
        active: &Option<String>,
        known: &Vec<KnownNetwork>,
    )
        requires
            old(self)@.list.next_key + networks@.len() <= u64::MAX,
        ensures
            final(self)@ == old(self)@.after_scan(
                network_views(networks@),
                crate::text::opt_view(*active),
                crate::networkmanager::known_views(known@),
            ),
    {
        let ghost all = network_views(networks@);
        let ghost at = crate::text::opt_view(*active);
        let ghost names = crate::networkmanager::known_views(known@);
        self.scanning = false;
        self.drop_unseen(&networks);
        let ghost base = self@;
        let n: usize = networks.len();
        let mut rest = networks;
        assert(network_views(rest@) =~= all.skip(0));
        let mut i: usize = 0;
        while i < n
            invariant
                i <= n,
                n == all.len(),
                rest@.len() == n - i,
                network_views(rest@) == all.skip(i as int),
                at == crate::text::opt_view(*active),
                names == crate::networkmanager::known_views(known@),
                base.list.next_key + n <= u64::MAX,
                self@ == (PanelView {
                    list: seen_all(base.list, all, i as int, at, names),
                    ..base
                }),
            decreases n - i,
        {
            assert(all.skip(i as int)[0] == rest@[0]@);
            let ghost here = all.skip(i as int);
            assert(here.skip(1) =~= all.skip(i + 1));
            let network = rest.remove(0);
            assert(network_views(rest@) =~= here.skip(1));
            proof {
                lemma_seen_keys(base.list, all, i as int, at, names);
            }
            self.see(network, active, known);
            i = i + 1;
        }
    }

    fn set_state(&mut self, key: u64, state: ConnectionState)
        ensures
            final(self)@ == old(self)@.with_entry(
                key,
                |e: EntryView| EntryView { connection_state: state, ..e },
            ),
    {
        if let Some(entry) = self.entry_mut(key) {
            entry.connection_state = state;
        }
    }

    /// An entry was picked; see [`PanelView::picked`].
    pub fn pick(&mut self, key: u64) -> (r: Vec<WifiEffect>)
        ensures
            (Step { panel: final(self)@, effects: effect_views(r@) }) == old(self)@.picked(key),
    {
        match self.look_up(key) {
            Some(entry) => {
                let access_point = entry.access_point.path.clone();
                if entry.is_connected {
                    if self.ready {
                        one_effect(WifiEffect::Disconnect { key })
                    } else {
                        no_effects()
                    }
                } else if entry.is_saved {
                    let connection = entry.connection_path.clone();
                    match connection {
                        Some(connection) => {
                            if self.ready {
                                self.set_state(key, ConnectionState::Connecting);
                                one_effect(WifiEffect::Activate { key, connection, access_point })
                            } else {
                                no_effects()
                            }
                        },
                        None => no_effects(),
                    }
                } else if entry.access_point.security.is_secured() {
                    self.popup = Some(PasswordPopup { key, access_point, closing: false });
                    one_effect(WifiEffect::FocusPassword)
                } else if self.ready {
                    self.set_state(key, ConnectionState::Connecting);
                    one_effect(WifiEffect::Join { key, access_point })
                } else {
                    no_effects()
                }
            },
            None => no_effects(),
        }
    }

    /// Dismisses the prompt; see [`PanelView::dismissed`].
    pub fn dismiss_popup(&mut self) -> (r: Vec<WifiEffect>)
        ensures
            (Step { panel: final(self)@, effects: effect_views(r@) }) == old(self)@.dismissed(),
    {
        let mut out: Vec<WifiEffect> = Vec::new();
        let popup = self.popup.take();
        self.popup = match popup {
            Some(popup) => {
                if !popup.closing {
                    out.push(WifiEffect::FocusSearch);
                    out.push(WifiEffect::StartDismissTimer { millis: PASSWORD_ANIM_EXIT });
                }
                Some(
                    PasswordPopup {
                        key: popup.key,
                        access_point: popup.access_point,
                        closing: true,
                    },
                )
            },
            None => None,
        };
        assert(effect_views(out@) =~= old(self)@.dismissed().effects);
        assert(self@ =~= old(self)@.dismissed().panel);
        out
    }

    /// The prompt has gone away.
    pub fn popup_gone(&mut self)
        ensures
            final(self)@ == (PanelView { popup: None, ..old(self)@ }),
    {
        self.popup = None;
    }

    /// A password was entered; see [`PanelView::submitted`].
    pub fn submit_password(&mut self, password: &str) -> (r: Vec<WifiEffect>)
        ensures
            (Step { panel: final(self)@, effects: effect_views(r@) }) == old(self)@.submitted(
                password@,
            ),
    {
        let joined = match &self.popup {
            Some(popup) => {
                if self.ready {
                    Some((popup.key, popup.access_point.clone()))
                } else {
                    None
                }
            },
            None => None,
        };
        match joined {
            Some((key, access_point)) => {
                let mut out = one_effect(
                    WifiEffect::JoinWithPassword {
                        key,
                        access_point,
                        password: password.to_owned(),
                    },
                );
                let ghost head = out@;
                self.set_state(key, ConnectionState::Connecting);
                let mut more = self.dismiss_popup();
                let ghost tail = more@;
                out.append(&mut more);
                assert(effect_views(out@) =~= effect_views(head) + effect_views(tail));
                out
            },
            None => self.dismiss_popup(),
        }
    }

    /// An attempt ended; see [`PanelView::finished`].
    pub fn finish(&mut self, key: u64, attempt: Attempt, ok: bool)
        ensures
            final(self)@ == old(self)@.finished(key, attempt, ok),
    {
        if let Some(entry) = self.entry_mut(key) {
            if !ok {
                entry.connection_state = ConnectionState::Failed;
            } else {
                match attempt {
                    Attempt::Known => {
                        entry.connection_state = ConnectionState::Idle;
                        entry.is_connected = true;
                    },
                    Attempt::New => {
                        entry.connection_state = ConnectionState::Idle;
                        entry.is_connected = true;
                        entry.is_saved = true;
                        entry.is_known = true;
                    },
                    Attempt::Disconnect => {
                        entry.is_connected = false;
                    },
                }
            }
        }
    }

    /// Forgets an entry; see [`PanelView::forgetting`].
    pub fn forget(&mut self, key: u64) -> (r: Vec<WifiEffect>)
        ensures
            (Step { panel: final(self)@, effects: effect_views(r@) }) == old(self)@.forgetting(key),
    {
        let is_known: bool = match self.find_entry(key) {
            Some(i) => self.entries[i].is_known,
            None => match &self.submenu {
                Some(menu) => menu.is_known,
                None => false,
            },
        };
        self.forget_as(key, is_known)
    }

    fn forget_as(&mut self, key: u64, is_known: bool) -> (r: Vec<WifiEffect>)
        ensures
            (Step { panel: final(self)@, effects: effect_views(r@) }) == old(self)@.forgetting_as(
                key,
                is_known,
            ),
    {
        match self.look_up(key) {
            Some(entry) => match &entry.connection_path {
                Some(connection) => {
                    if is_known && self.ready {
                        one_effect(
                            WifiEffect::Forget {
                                key,
                                id: entry.id.clone(),
                                connection: connection.clone(),
                            },
                        )
                    } else {
                        no_effects()
                    }
                },
                None => no_effects(),
            },
            None => no_effects(),
        }
    }

    /// An action was picked in the open menu; see [`PanelView::acted`].
    pub fn act(&mut self, action: WifiAction) -> (r: Vec<WifiEffect>)
        ensures
            (Step { panel: final(self)@, effects: effect_views(r@) }) == old(self)@.acted(action),
    {
        let (key, is_known) = match &self.submenu {
            Some(menu) => (menu.key, menu.is_known),
            None => {
                return no_effects();
            },
        };
        match action {
            WifiAction::Connect => self.pick(key),
            WifiAction::Forget => self.forget_as(key, is_known),
        }
    }

    /// The connection of an entry was deleted; see [`PanelView::forgotten`].
    pub fn forgotten(&mut self, key: u64, id: &str)
        ensures
            final(self)@ == old(self)@.forgotten(key, id@),
    {
        if let Some(entry) = self.entry_mut(key) {
            entry.is_saved = false;
            entry.connection_path = None;
            entry.is_connected = false;
        }
        let ghost mid = self@.list.entries;
        let ghost start = *self;
        assert(self@ == old(self)@.with_entry(
            key,
            |e: EntryView|
                EntryView { is_saved: false, connection_path: None, is_connected: false, ..e },
        ));
        let ghost end = old(self)@.forgotten(key, id@).list.entries;
        let n: usize = self.entries.len();
        let mut i: usize = 0;
        while i < n
            invariant
                i <= n,
                n == self.entries@.len(),
                n == mid.len(),
                n == end.len(),
                forall|j: int|
                    0 <= j < n ==> #[trigger] end[j] == (EntryView {
                        is_known: if mid[j].id == id@ {
                            false
                        } else {
                            mid[j].is_known
                        },
                        ..mid[j]
                    }),
                forall|j: int| 0 <= j < i ==> (#[trigger] self.entries@[j])@ == end[j],
                forall|j: int| i <= j < n ==> (#[trigger] self.entries@[j])@ == mid[j],
                self.ready == start.ready,
                self.next_key == start.next_key,
                self.scanning == start.scanning,
                self.popup == start.popup,
                self.submenu == start.submenu,
            decreases n - i,
        {
            let ghost was = self.entries@[i as int]@;
            if same(&self.entries[i].id, id) {
                self.entries[i].is_known = false;
            }
            assert(self.entries@[i as int]@ =~= end[i as int]);
            i = i + 1;
        }
        assert(self@.list.entries =~= end);
    }

    /// The signal of an entry's access point has changed.
    pub fn set_strength(&mut self, key: u64, strength: u8)
        ensures
            final(self)@ == old(self)@.with_entry(
                key,
                |e: EntryView|
                    EntryView {
                        access_point: crate::networkmanager::AccessPointView {
                            strength,
                            ..e.access_point
                        },
                        ..e
                    },
            ),
    {
        if let Some(entry) = self.entry_mut(key) {
            entry.access_point.strength = strength;
        }
    }

    /// Shows what can be done with an entry on the list.
    pub fn open_actions(&mut self, key: u64)
        ensures
            final(self)@ == (match entry_from(old(self)@.list.entries, 0, key) {
                Some(i) => PanelView {
                    submenu: Some(
                        MenuView {
                            key,
                            is_known: old(self)@.list.entries[i].is_known,
                            gone: None,
                        },
                    ),
                    ..old(self)@
                },
                None => old(self)@,
            }),
    {
        if let Some(i) = self.find_entry(key) {
            let is_known: bool = self.entries[i].is_known;
            self.submenu = Some(ActionMenu { key, is_known, gone: None });
        }
    }

    /// The actions are gone.
    pub fn close_actions(&mut self)
        ensures
            final(self)@ == (PanelView { submenu: None, ..old(self)@ }),
    {
        self.submenu = None;
    }

    /// Where the focus belongs.
    pub fn focus(&self) -> (r: WifiFocus)
        ensures
            r == (match self@.popup {
                Some(popup) => if !popup.closing {
                    WifiFocus::Password
                } else if self@.submenu is Some {
                    WifiFocus::Actions
                } else {
                    WifiFocus::List
                },
                None => if self@.submenu is Some {
                    WifiFocus::Actions
                } else {
                    WifiFocus::List
                },
            }),
    {
        if let Some(popup) = &self.popup {
            if !popup.closing {
                return WifiFocus::Password;
            }
        }
        if self.submenu.is_some() {
            WifiFocus::Actions
        } else {
            WifiFocus::List
        }
    }
}

/// What can have the focus.
#[derive(Clone, Copy, Debug, PartialEq, Eq, Structural)]
pub enum WifiFocus {
    Password,
    Actions,
    List,
}

/// Something that can be done with an entry.
#[derive(Clone, Copy, Debug, PartialEq, Eq, Structural)]
pub enum WifiAction {
    /// Join the network, or leave it.
    Connect,
    Forget,
}

/// An action, as it is listed.
#[derive(Debug)]
pub struct ActionEntry {
    pub action: WifiAction,
    pub label: String,
    pub search_string: String,
}

/// Lists what can be done with an entry.
pub fn list_actions(is_connected: bool, is_saved: bool) -> (r: Vec<ActionEntry>)
    ensures
        r@.len() == (if is_saved {
            2int
        } else {
            1
        }),
        r@[0].action == WifiAction::Connect,
        r@[0].label@ == (if is_connected {
            "Disconnect"@
        } else {
            "Connect"@
        }),
        r@[0].search_string@ == (if is_connected {
            "disconnect"@
        } else {
            "connect"@
        }),
        is_saved ==> r@[1].action == WifiAction::Forget && r@[1].label@ == "Forget Network"@
            && r@[1].search_string@ == "forget network"@,
{
    let mut out: Vec<ActionEntry> = Vec::new();
    if is_connected {
        out.push(
            ActionEntry {
                action: WifiAction::Connect,
                label: "Disconnect".to_owned(),
                search_string: "disconnect".to_owned(),
            },
        );
    } else {
        out.push(
            ActionEntry {
                action: WifiAction::Connect,
                label: "Connect".to_owned(),
                search_string: "connect".to_owned(),
            },
        );
    }
    if is_saved {
        out.push(
            ActionEntry {
                action: WifiAction::Forget,
                label: "Forget Network".to_owned(),
                search_string: "forget network".to_owned(),
            },
        );
    }
    out
}

/// Whether a connection that was just set up is deleted again: it is where a
/// password was given and the connection did not come up with it.
pub fn undo_join(with_password: bool, activated: bool) -> (r: bool)
    ensures
        r == (with_password && !activated),
{
    with_password && !activated
}

/// What entries are ordered by after their score: those that are saved first, then
/// by the strength of their signal.
pub fn rank_entries(entries: &Vec<WifiEntry>) -> (r: Vec<(u32, u64)>)
    ensures
        r@.len() == entries@.len(),
        forall|i: int|
            0 <= i < r@.len() ==> #[trigger] r@[i] == (
                if entries@[i].is_saved {
                    1u32
                } else {
                    0u32
                },
                entries@[i].access_point.strength as u64,
            ),
{
    let mut out: Vec<(u32, u64)> = Vec::new();
    for i in 0..entries.len()
        invariant
            out@.len() == i,
            forall|j: int|
                0 <= j < i ==> #[trigger] out@[j] == (
                    if entries@[j].is_saved {
                        1u32
                    } else {
                        0u32
                    },
                    entries@[j].access_point.strength as u64,
                ),
    {
        let saved: u32 = if entries[i].is_saved {
            1
        } else {
            0
        };
        out.push((saved, entries[i].access_point.strength as u64));
    }
    out
}

/// The headings that entries are listed under.
pub fn categories(entries: &Vec<WifiEntry>) -> (r: Vec<Category>)
    ensures
        r@.len() == 2,
        r@[0].name@ == "Known Networks"@,
        r@[1].name@ == "Available Networks"@,
        r@[0].members@ == Seq::new(entries@.len(), |i: int| entries@[i].is_known),
        r@[1].members@ == Seq::new(entries@.len(), |i: int| !entries@[i].is_known),
{
    let mut known: Vec<bool> = Vec::new();
    let mut available: Vec<bool> = Vec::new();
    for i in 0..entries.len()
        invariant
            known@.len() == i,
            available@.len() == i,
            forall|j: int| 0 <= j < i ==> #[trigger] known@[j] == entries@[j].is_known,
            forall|j: int| 0 <= j < i ==> #[trigger] available@[j] == !entries@[j].is_known,
    {
        known.push(entries[i].is_known);
        available.push(!entries[i].is_known);
    }
    assert(known@ =~= Seq::new(entries@.len(), |i: int| entries@[i].is_known));
    assert(available@ =~= Seq::new(entries@.len(), |i: int| !entries@[i].is_known));
    let mut out: Vec<Category> = Vec::new();
    out.push(Category { name: "Known Networks".to_owned(), members: known });
    out.push(Category { name: "Available Networks".to_owned(), members: available });
    out
}

/// Finds the entries that match what was typed, with their scores; see
/// [`search_texts`].
pub fn find_entries(query: &str, entries: &Vec<WifiEntry>) -> (r: Option<Vec<(usize, u32)>>)
    requires
        query@.len() <= MAX_QUERY,
        forall|i: int|
            0 <= i < entries@.len() ==> (#[trigger] entries@[i]).search_string@.len() <= MAX_TERM,
    ensures
        match r {
            Some(found) => query@.len() > 0 && found@ == crate::matcher::scored(
                crate::matcher::text_scores(
                    query@,
                    entries@.map_values(|e: WifiEntry| e.search_string@),
                ),
                entries@.len() as int,
            ),
            None => query@.len() == 0,
        },
{
    let mut texts: Vec<String> = Vec::new();
    for i in 0..entries.len()
        invariant
            texts@.len() == i,
            forall|j: int| 0 <= j < i ==> (#[trigger] texts@[j])@ == entries@[j].search_string@,
    {
        texts.push(entries[i].search_string.clone());
    }
    assert(crate::text::views(texts@) =~= entries@.map_values(|e: WifiEntry| e.search_string@));
    search_texts(query, &texts)
}

/// A failed attempt never makes an entry look connected or known.
pub proof fn law_failure_changes_only_the_state(panel: PanelView, key: u64, attempt: Attempt, i: int)
    requires
        0 <= i < panel.list.entries.len(),
    ensures
        panel.finished(key, attempt, false).list.entries[i].is_connected
            == panel.list.entries[i].is_connected,
        panel.finished(key, attempt, false).list.entries[i].is_known
            == panel.list.entries[i].is_known,
        panel.finished(key, attempt, false).list.entries[i].connection_path
            == panel.list.entries[i].connection_path,
{
    lemma_entry_from(panel.list.entries, 0, key);
}

/// An open menu leads to the same for its entry whether or not a scan has meanwhile taken
/// the entry off the list.
pub proof fn law_menus_outlast_entries(
    panel: PanelView,
    action: WifiAction,
    networks: Seq<NetworkView>,
    active: Option<Seq<char>>,
    known: Seq<(Seq<char>, Seq<char>)>,
)
    requires
        keys_in_order(panel.list),
        panel.list.next_key + networks.len() <= u64::MAX,
        panel.submenu matches Some(menu) && panel.entry(menu.key) is Some && (entry_from(
            panel.list.entries,
            0,
            menu.key,
        ) matches Some(i) ==> !survives(panel.list.entries[i], networks)),
        panel.submenu matches Some(menu) && menu.key < panel.list.next_key,
    ensures
        panel.after_scan(networks, active, known).acted(action).effects == panel.acted(
            action,
        ).effects,
{
    let key = panel.submenu->0.key;
    let keep = |e: EntryView| survives(e, networks);
    let kept = ListView { entries: panel.list.entries.filter(keep), ..panel.list };
    let after = panel.after_scan(networks, active, known);
    lemma_entry_from(panel.list.entries, 0, key);
    lemma_filter_keeps_order(panel.list, keep);
    assert forall|j: int| 0 <= j < kept.entries.len() implies (#[trigger] kept.entries[j]).key
        != key by {
        lemma_kept_survives(panel.list.entries, keep, j);
        let entry = kept.entries[j];
        let at = choose|at: int| 0 <= at < panel.list.entries.len() && panel.list.entries[at] == entry;
        if entry.key == key {
            if let Some(i) = entry_from(panel.list.entries, 0, key) {
                assert(i == at);
            }
        }
    }
    lemma_seen_adds_new_keys(kept, networks, networks.len() as int, active, known, key);
    lemma_entry_from(after.list.entries, 0, key);
    assert(after.entry(key) == panel.entry(key));
}

proof fn lemma_kept_survives(entries: Seq<EntryView>, keep: spec_fn(EntryView) -> bool, j: int)
    requires
        0 <= j < entries.filter(keep).len(),
    ensures
        keep(entries.filter(keep)[j]),
    decreases entries.len(),
{
    reveal(Seq::filter);
    if entries.len() > 0 && j < entries.drop_last().filter(keep).len() {
        lemma_kept_survives(entries.drop_last(), keep, j);
    }
}

proof fn lemma_seen_adds_new_keys(
    list: ListView,
    networks: Seq<NetworkView>,
    n: int,
    active: Option<Seq<char>>,
    known: Seq<(Seq<char>, Seq<char>)>,
    key: u64,
)
    requires
        0 <= n <= networks.len(),
        key < list.next_key,
        list.next_key + n <= u64::MAX,
        forall|j: int| 0 <= j < list.entries.len() ==> (#[trigger] list.entries[j]).key != key,
    ensures
        ({
            let after = seen_all(list, networks, n, active, known).entries;
            forall|j: int| 0 <= j < after.len() ==> (#[trigger] after[j]).key != key
        }),
    decreases n,
{
    if n > 0 {
        lemma_seen_adds_new_keys(list, networks, n - 1, active, known, key);
        lemma_seen_keys(list, networks, n - 1, active, known);
        let before = seen_all(list, networks, n - 1, active, known);
        lemma_owner_from(before.entries, 0, networks[n - 1].access_point.path);
    }
}

/// A prompt that was dismissed stays dismissed: doing so again does nothing.
pub proof fn law_dismissing_settles(panel: PanelView)
    ensures
        panel.dismissed().panel.dismissed() == panel.dismissed().panel.unmoved(),
{
}

proof fn lemma_listed(
    next_key: int,
    networks: Seq<NetworkView>,
    n: int,
    active: Option<Seq<char>>,
    known: Seq<(Seq<char>, Seq<char>)>,
    i: int,
)
    requires
        0 <= i < n <= networks.len(),
    ensures
        listed(next_key, networks, n, active, known).len() == n,
        listed(next_key, networks, n, active, known)[i] == new_entry(
            (next_key + i) as u64,
            networks[i],
            active,
            known,
        ),
    decreases n,
{
    if i < n - 1 {
        lemma_listed(next_key, networks, n - 1, active, known, i);
    } else if n > 1 {
        lemma_listed(next_key, networks, n - 1, active, known, n - 2);
    } else {
        assert(listed(next_key, networks, 0, active, known).len() == 0);
    }
}

/// A network is listed as connected exactly if the access point in use is its own, by the
/// hardware address, whether the network is known or not.
pub proof fn law_connected_means_in_use(
    next_key: int,
    networks: Seq<NetworkView>,
    active: Option<Seq<char>>,
    known: Seq<(Seq<char>, Seq<char>)>,
    other: Seq<(Seq<char>, Seq<char>)>,
    i: int,
)
    requires
        0 <= i < networks.len(),
    ensures
        ({
            let n = networks.len() as int;
            let entry = listed(next_key, networks, n, active, known)[i];
            &&& entry.is_connected <==> (active is Some && active->0
                == networks[i].access_point.hw_address)
            &&& entry.is_connected == listed(next_key, networks, n, active, other)[i].is_connected
        }),
{
    let n = networks.len() as int;
    lemma_listed(next_key, networks, n, active, known, i);
    lemma_listed(next_key, networks, n, active, other, i);
}

proof fn lemma_known_path(known: Seq<(Seq<char>, Seq<char>)>, from: int, ssid: Seq<char>)
    requires
        0 <= from,
    ensures
        match known_path(known, from, ssid) {
            Some(path) => exists|i: int|
                from <= i < known.len() && (#[trigger] known[i]).0 == ssid && known[i].1 == path
                    && forall|j: int| from <= j < i ==> (#[trigger] known[j]).0 != ssid,
            None => forall|j: int| from <= j < known.len() ==> (#[trigger] known[j]).0 != ssid,
        },
    decreases known.len() - from,
{
    if from < known.len() {
        if known[from].0 == ssid {
            assert(known[from].1 == known[from].1);
        } else {
            lemma_known_path(known, from + 1, ssid);
        }
    }
}

/// A network is listed as known, and with the connection that joins it, exactly if there is a
/// connection for its name; of several the first counts. Whether it is in use makes no
/// difference.
pub proof fn law_known_means_set_up(
    next_key: int,
    networks: Seq<NetworkView>,
    active: Option<Seq<char>>,
    known: Seq<(Seq<char>, Seq<char>)>,
    i: int,
)
    requires
        0 <= i < networks.len(),
    ensures
        ({
            let entry = listed(next_key, networks, networks.len() as int, active, known)[i];
            let ssid = networks[i].access_point.ssid;
            &&& entry.is_known <==> exists|k: int|
                0 <= k < known.len() && (#[trigger] known[k]).0 == ssid
            &&& entry.is_saved == entry.is_known
            &&& entry.connection_path is Some <==> entry.is_known
            &&& entry.connection_path matches Some(path) ==> exists|k: int|
                0 <= k < known.len() && (#[trigger] known[k]) == (ssid, path) && forall|j: int|
                    0 <= j < k ==> (#[trigger] known[j]).0 != ssid
        }),
{
    lemma_listed(next_key, networks, networks.len() as int, active, known, i);
    lemma_known_path(known, 0, networks[i].access_point.ssid);
}

/// Every network is listed, in order, as it was seen: by its name, with its access point and
/// the others that it has, with nothing going on, and with a key of its own.
pub proof fn law_networks_are_listed_as_seen(
    next_key: int,
    networks: Seq<NetworkView>,
    active: Option<Seq<char>>,
    known: Seq<(Seq<char>, Seq<char>)>,
    i: int,
)
    requires
        0 <= i < networks.len(),
        0 <= next_key,
        next_key + networks.len() <= u64::MAX,
    ensures
        ({
            let all = listed(next_key, networks, networks.len() as int, active, known);
            &&& all.len() == networks.len()
            &&& all[i].access_point == networks[i].access_point
            &&& all[i].alternates == networks[i].alternates
            &&& all[i].id == networks[i].access_point.path
            &&& all[i].search_string == networks[i].access_point.ssid
            &&& all[i].connection_state == ConnectionState::Idle
            &&& all[i].key == next_key + i
        }),
{
    lemma_listed(next_key, networks, networks.len() as int, active, known, i);
}

/// A network that a scan sees is on the list with its access point as it is now: in the entry
/// that it belongs to, which keeps all else, or in a new one; no other entry changes.
pub proof fn law_seen_networks_are_on_the_list(
    list: ListView,
    network: NetworkView,
    active: Option<Seq<char>>,
    known: Seq<(Seq<char>, Seq<char>)>,
)
    requires
        0 <= list.next_key < u64::MAX,
    ensures
        ({
            let path = network.access_point.path;
            let then = seen(list, network, active, known);
            let owned = exists|i: int|
                0 <= i < list.entries.len() && ((#[trigger] list.entries[i]).id == path
                    || list.entries[i].alternates.contains(path));
            &&& owned ==> then.entries.len() == list.entries.len() && then.next_key
                == list.next_key
            &&& !owned ==> then.entries.len() == list.entries.len() + 1 && then.next_key
                == list.next_key + 1 && then.entries.last().key == list.next_key
                && then.entries.last().access_point == network.access_point && (
            then.entries.last().is_connected <==> active == Some(network.access_point.hw_address))
            &&& exists|i: int|
                0 <= i < then.entries.len() && (#[trigger] then.entries[i]).access_point
                    == network.access_point && then.entries[i].alternates == network.alternates
                    && forall|j: int|
                    0 <= j < list.entries.len() && j != i ==> #[trigger] then.entries[j]
                        == list.entries[j]
            &&& forall|i: int|
                0 <= i < list.entries.len() ==> {
                    let was = #[trigger] list.entries[i];
                    let now = then.entries[i];
                    now.key == was.key && now.id == was.id && now.is_connected == was.is_connected
                        && now.is_known == was.is_known && now.is_saved == was.is_saved
                        && now.connection_path == was.connection_path && now.connection_state
                        == was.connection_state
                }
        }),
{
    let path = network.access_point.path;
    let then = seen(list, network, active, known);
    lemma_owner_from(list.entries, 0, path);
    match owner_from(list.entries, 0, path) {
        Some(i) => {
            assert(then.entries[i].access_point == network.access_point);
            assert(owns(list.entries[i], path));
        },
        None => {
            let i = list.entries.len() as int;
            assert(then.entries[i].access_point == network.access_point);
            assert forall|k: int| 0 <= k < list.entries.len() implies !((
            #[trigger] list.entries[k]).id == path || list.entries[k].alternates.contains(path)) by {
                assert(!owns(list.entries[k], path));
            }
        },
    }
}

/// An entry stays on the list if its own access point or one of its others was seen, as the
/// one that stands for a network or beside it.
pub proof fn law_seen_entries_stay(
    entry: EntryView,
    networks: Seq<NetworkView>,
    path: Seq<char>,
    k: int,
)
    requires
        path == entry.id || entry.alternates.contains(path),
        0 <= k < networks.len(),
        networks[k].access_point.path == path || networks[k].alternates.contains(path),
    ensures
        survives(entry, networks),
{
    assert(networks[k].access_point.path == path || networks[k].alternates.contains(path));
    assert(represented(networks, path));
    if path != entry.id {
        let a = choose|a: int| 0 <= a < entry.alternates.len() && entry.alternates[a] == path;
        assert(represented(networks, entry.alternates[a]));
    }
}

/// An entry of which nothing was seen goes off the list.
pub proof fn law_unseen_entries_go(entry: EntryView, networks: Seq<NetworkView>)
    requires
        forall|k: int|
            0 <= k < networks.len() ==> (#[trigger] networks[k]).access_point.path != entry.id
                && !networks[k].alternates.contains(entry.id) && !entry.alternates.contains(
                networks[k].access_point.path,
            ),
        forall|k: int, a: int|
            0 <= k < networks.len() && 0 <= a < entry.alternates.len() ==> !(
            #[trigger] networks[k]).alternates.contains(#[trigger] entry.alternates[a]),
    ensures
        !survives(entry, networks),
{
    assert forall|a: int| 0 <= a < entry.alternates.len() implies !represented(
        networks,
        #[trigger] entry.alternates[a],
    ) by {
        if represented(networks, entry.alternates[a]) {
            let k = choose|k: int|
                0 <= k < networks.len() && ((#[trigger] networks[k]).access_point.path
                    == entry.alternates[a] || networks[k].alternates.contains(entry.alternates[a]));
            assert(entry.alternates.contains(entry.alternates[a]));
        }
    }
}

/// The access point that stands for a network is one of those that were seen.
pub proof fn law_networks_are_access_points(
    points: Seq<crate::networkmanager::AccessPointView>,
    n: int,
    i: int,
)
    requires
        0 <= n <= points.len(),
        0 <= i < deduplicated(points, n).len(),
    ensures
        exists|k: int| 0 <= k < n && #[trigger] points[k] == deduplicated(points, n)[i].access_point,
    decreases n,
{
    if n > 0 {
        let before = deduplicated(points, n - 1);
        let point = points[n - 1];
        let now = deduplicated(points, n)[i];
        lemma_network_from(before, 0, point.ssid);
        if now.access_point == point {
            assert(points[n - 1] == now.access_point);
        } else {
            assert(i < before.len() && now.access_point == before[i].access_point);
            law_networks_are_access_points(points, n - 1, i);
            let k = choose|k: int|
                0 <= k < n - 1 && #[trigger] points[k] == before[i].access_point;
            assert(points[k] == now.access_point);
        }
    }
}

/// Picking a network leaves it if it is in use, and else joins it: with the connection that is
/// set up for it, or with a new one, for which a password is asked first where the network
/// takes one.
pub proof fn law_picking_joins_or_leaves(panel: PanelView, key: u64, entry: EntryView)
    requires
        panel.ready,
        panel.entry(key) == Some(entry),
    ensures
        ({
            let then = panel.picked(key);
            let access_point = entry.access_point.path;
            let open = entry.access_point.security == crate::networkmanager::SecurityType::Open;
            &&& entry.is_connected ==> then.effects == seq![EffectView::Disconnect { key }]
            &&& !entry.is_connected && entry.is_saved ==> (entry.connection_path matches Some(
                connection,
            ) ==> then.effects == seq![EffectView::Activate { key, connection, access_point }])
            &&& !entry.is_connected && !entry.is_saved && open ==> then.effects == seq![
                EffectView::Join { key, access_point },
            ]
            &&& !entry.is_connected && !entry.is_saved && !open ==> then.effects == seq![
                EffectView::FocusPassword,
            ] && then.panel.popup == Some(PopupView { key, access_point, closing: false })
                && then.panel.list == panel.list
            &&& then.effects.len() > 0 && !(then.effects[0] is Disconnect) && !(
            then.effects[0] is FocusPassword) ==> then.panel == panel.connecting(key)
        }),
{
}

/// Without a device, picking a network reaches nothing and nobody.
pub proof fn law_nothing_is_joined_without_a_device(panel: PanelView, key: u64, password: Seq<char>)
    requires
        !panel.ready,
    ensures
        forall|i: int|
            0 <= i < panel.picked(key).effects.len() ==> (#[trigger] panel.picked(key).effects[i])
                is FocusPassword,
        panel.forgetting(key).effects.len() == 0,
        forall|i: int|
            0 <= i < panel.submitted(password).effects.len() ==> !((#[trigger] panel.submitted(
                password,
            ).effects[i]) is JoinWithPassword),
{
}

/// The password that is entered goes to the network that it was asked for, and the prompt goes
/// away.
pub proof fn law_passwords_go_where_they_were_asked_for(panel: PanelView, password: Seq<char>)
    requires
        panel.ready,
        panel.popup is Some,
        !panel.popup->0.closing,
    ensures
        ({
            let then = panel.submitted(password);
            &&& then.effects == seq![
                EffectView::JoinWithPassword {
                    key: panel.popup->0.key,
                    access_point: panel.popup->0.access_point,
                    password,
                },
                EffectView::FocusSearch,
                EffectView::StartDismissTimer { millis: 100 },
            ]
            &&& then.panel.popup is Some && then.panel.popup->0.closing
        }),
{
    let popup = panel.popup->0;
    let mid = panel.connecting(popup.key);
    assert(mid.popup == panel.popup);
    assert(panel.submitted(password).effects =~= seq![
        EffectView::JoinWithPassword {
            key: popup.key,
            access_point: popup.access_point,
            password,
        },
        EffectView::FocusSearch,
        EffectView::StartDismissTimer { millis: 100 },
    ]);
}

proof fn lemma_putting(panel: PanelView, key: u64, entry: EntryView)
    requires
        panel.entry(key) is Some,
        entry.key == key || panel.gone(key) is Some && entry_from(panel.list.entries, 0, key) is None,
    ensures
        panel.putting(key, entry).entry(key) == Some(entry),
{
    let entries = panel.list.entries;
    lemma_entry_from(entries, 0, key);
    if let Some(i) = entry_from(entries, 0, key) {
        lemma_entry_from_first(entries, entry, 0, key, i);
    }
}

proof fn lemma_entry_from_first(
    entries: Seq<EntryView>,
    entry: EntryView,
    from: int,
    key: u64,
    i: int,
)
    requires
        0 <= from <= i < entries.len(),
        entry_from(entries, from, key) == Some(i),
        entry.key == key,
    ensures
        entry_from(entries.update(i, entry), from, key) == Some(i),
    decreases i - from,
{
    if from < i {
        lemma_entry_from_first(entries, entry, from + 1, key, i);
    }
}

/// When an attempt succeeds, its network is in use and nothing is going on; a new one is known
/// and saved from then on, and one that was left is no longer in use. A failure is shown.
pub proof fn law_attempts_end_as_they_went(panel: PanelView, key: u64)
    requires
        panel.entry(key) is Some,
        panel.entry(key)->0.key == key,
    ensures
        ({
            let known = panel.finished(key, Attempt::Known, true).entry(key)->0;
            let new = panel.finished(key, Attempt::New, true).entry(key)->0;
            let left = panel.finished(key, Attempt::Disconnect, true).entry(key)->0;
            let entry = panel.entry(key)->0;
            &&& known.is_connected && known.connection_state == ConnectionState::Idle
            &&& known.is_saved == entry.is_saved && known.is_known == entry.is_known
            &&& new.is_connected && new.connection_state == ConnectionState::Idle && new.is_saved
                && new.is_known
            &&& !left.is_connected && left.is_saved == entry.is_saved && left.is_known
                == entry.is_known
            &&& known.access_point == entry.access_point && new.access_point == entry.access_point
                && left.access_point == entry.access_point
        }),
        forall|attempt: Attempt|
            (#[trigger] panel.finished(key, attempt, false)).entry(key) == Some(
                EntryView { connection_state: ConnectionState::Failed, ..panel.entry(key)->0 },
            ),
        panel.connecting(key).entry(key) == Some(
            (EntryView { connection_state: ConnectionState::Connecting, ..panel.entry(key)->0 }),
        ),
{
    let entry = panel.entry(key)->0;
    lemma_putting(
        panel,
        key,
        EntryView { connection_state: ConnectionState::Idle, is_connected: true, ..entry },
    );
    lemma_putting(
        panel,
        key,
        EntryView {
            connection_state: ConnectionState::Idle,
            is_connected: true,
            is_saved: true,
            is_known: true,
            ..entry
        },
    );
    lemma_putting(panel, key, EntryView { is_connected: false, ..entry });
    lemma_putting(panel, key, EntryView { connection_state: ConnectionState::Failed, ..entry });
    lemma_putting(panel, key, EntryView { connection_state: ConnectionState::Connecting, ..entry });
}

/// Only a network that is known and has a connection can be forgotten, and it is its own
/// connection that goes.
pub proof fn law_only_known_networks_are_forgotten(panel: PanelView, key: u64, i: int)
    requires
        entry_from(panel.list.entries, 0, key) == Some(i),
    ensures
        ({
            let entry = panel.list.entries[i];
            let then = panel.forgetting(key);
            &&& then.panel == panel
            &&& panel.ready && entry.is_known && entry.connection_path is Some ==> then.effects
                == seq![
                EffectView::Forget { key, id: entry.id, connection: entry.connection_path->0 },
            ]
            &&& !panel.ready || !entry.is_known || entry.connection_path is None
                ==> then.effects.len() == 0
        }),
{
}

/// A network that was forgotten is no longer saved, known or in use, and has no connection;
/// all others stay as they are.
pub proof fn law_forgotten_networks_are_unknown(panel: PanelView, i: int, j: int)
    requires
        0 <= i < panel.list.entries.len(),
        0 <= j < panel.list.entries.len(),
        keys_in_order(panel.list),
    ensures
        ({
            let entry = panel.list.entries[i];
            let then = panel.forgotten(entry.key, entry.id).list.entries;
            &&& then.len() == panel.list.entries.len()
            &&& !then[i].is_saved && !then[i].is_known && !then[i].is_connected
                && then[i].connection_path is None
            &&& then[i].access_point == entry.access_point
            &&& j != i && panel.list.entries[j].id != entry.id ==> then[j] == panel.list.entries[j]
        }),
{
    let entry = panel.list.entries[i];
    lemma_entry_from(panel.list.entries, 0, entry.key);
    let k = entry_from(panel.list.entries, 0, entry.key)->0;
    if k < i {
        assert(panel.list.entries[k].key < panel.list.entries[i].key);
    }
    if i < k {
        assert(panel.list.entries[i].key < panel.list.entries[k].key);
    }
    let then = panel.forgotten(entry.key, entry.id).list.entries;
    if j != i && panel.list.entries[j].id != entry.id {
        assert(then[j] =~= panel.list.entries[j]);
    }
}

/// A prompt that is dismissed gives the focus back and is gone a tenth of a second later.
pub proof fn law_prompts_go_away(panel: PanelView)
    requires
        panel.popup is Some,
        !panel.popup->0.closing,
    ensures
        panel.dismissed().effects == seq![
            EffectView::FocusSearch,
            EffectView::StartDismissTimer { millis: 100 },
        ],
        panel.dismissed().panel.popup == Some((PopupView { closing: true, ..panel.popup->0 })),
        panel.dismissed().panel.list == panel.list,
{
}

/// Picking in the open menu does what picking or forgetting its entry does.
pub proof fn law_menus_act_on_their_entry(panel: PanelView)
    ensures
        panel.submenu is None ==> panel.acted(WifiAction::Connect) == panel.unmoved()
            && panel.acted(WifiAction::Forget) == panel.unmoved(),
        panel.submenu matches Some(menu) ==> panel.acted(WifiAction::Connect) == panel.picked(
            menu.key,
        ),
        panel.submenu matches Some(menu) ==> (panel.ready && menu.is_known && panel.entry(menu.key)
            is Some && panel.entry(menu.key)->0.connection_path is Some ==> panel.acted(
            WifiAction::Forget,
        ).effects == seq![
            EffectView::Forget {
                key: menu.key,
                id: panel.entry(menu.key)->0.id,
                connection: panel.entry(menu.key)->0.connection_path->0,
            },
        ]),
{
}

} // verus!
