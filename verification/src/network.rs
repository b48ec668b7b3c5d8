//! Network devices and the connections they can use, and what a scan for wireless
//! networks finds.

use vstd::prelude::*;

use crate::icon::IconName;
use crate::launcher::RootItem;
use crate::networkmanager::{lossy_text, DeviceType};
use crate::ranking::sort_results;
use crate::text::same;

verus! {

/// A connection that a device can use.
#[derive(Debug)]
pub struct DeviceConnection {
    pub path: String,
    pub id: String,
    pub uuid: String,
}

/// A [`DeviceConnection`] as a value.
pub struct DeviceConnectionView {
    pub path: Seq<char>,
    pub id: Seq<char>,
    pub uuid: Seq<char>,
}

impl View for DeviceConnection {
    type V = DeviceConnectionView;

    open spec fn view(&self) -> DeviceConnectionView {
        DeviceConnectionView { path: self.path@, id: self.id@, uuid: self.uuid@ }
    }
}

/// A connection that was set up for a device.
#[derive(Debug)]
pub struct KnownDeviceConnection {
    pub id: String,
    pub uuid: String,
}

/// A [`KnownDeviceConnection`] as a value.
pub struct KnownView {
    pub id: Seq<char>,
    pub uuid: Seq<char>,
}

impl View for KnownDeviceConnection {
    type V = KnownView;

    open spec fn view(&self) -> KnownView {
        KnownView { id: self.id@, uuid: self.uuid@ }
    }
}

/// What the settings of a connection say of it, as far as they say it.
#[derive(Debug)]
pub struct ConnectionSettings {
    pub id: Option<String>,
    pub uuid: Option<String>,
    pub interface_name: Option<String>,
}

/// What a device tells of itself. Nothing where it could not be asked.
#[derive(Debug)]
pub struct DeviceReading {
    pub path: String,
    pub device_type: Option<u32>,
    pub interface: Option<String>,
    pub hw_address: Option<String>,
    pub state: Option<u32>,
    /// The connections it can use, each with its settings where they could be read.
    pub available: Option<Vec<(String, Option<ConnectionSettings>)>>,
    /// The connection it uses, and its state.
    pub active: Option<(DeviceConnection, u32)>,
}

/// A device.
#[derive(Debug)]
pub struct DeviceInfo {
    pub path: String,
    pub device_type: DeviceType,
    pub interface: String,
    pub state: u32,
    pub active_connection: Option<(DeviceConnection, u32)>,
    pub available_connections: Vec<DeviceConnection>,
    pub known_connections: Vec<KnownDeviceConnection>,
}

/// A [`DeviceInfo`] as a value.
#[verifier::ext_equal]
pub struct DeviceView {
    pub path: Seq<char>,
    pub device_type: DeviceType,
    pub interface: Seq<char>,
    pub state: u32,
    pub active_connection: Option<(DeviceConnectionView, u32)>,
    pub available_connections: Seq<DeviceConnectionView>,
    pub known_connections: Seq<KnownView>,
}

/// The connection in use as a value.
pub open spec fn active_view(active: Option<(DeviceConnection, u32)>) -> Option<
    (DeviceConnectionView, u32),
> {
    match active {
        Some((connection, state)) => Some((connection@, state)),
        None => None,
    }
}

impl View for DeviceInfo {
    type V = DeviceView;

    open spec fn view(&self) -> DeviceView {
        DeviceView {
            path: self.path@,
            device_type: self.device_type,
            interface: self.interface@,
            state: self.state,
            active_connection: active_view(self.active_connection),
            available_connections: self.available_connections@.map_values(
                |c: DeviceConnection| c@,
            ),
            known_connections: self.known_connections@.map_values(
                |c: KnownDeviceConnection| c@,
            ),
        }
    }
}

/// A connection that a device can use, if its settings name it.
pub open spec fn usable(path: Seq<char>, settings: Option<ConnectionSettings>) -> Option<
    DeviceConnectionView,
> {
    match settings {
        Some(settings) => match (settings.id, settings.uuid) {
            (Some(id), Some(uuid)) => Some(DeviceConnectionView { path, id: id@, uuid: uuid@ }),
            _ => None,
        },
        None => None,
    }
}

/// The connections among the first `n` that a device can use.
pub open spec fn usable_all(
    available: Seq<(String, Option<ConnectionSettings>)>,
    n: int,
) -> Seq<DeviceConnectionView>
    decreases n,
{
    if n <= 0 {
        Seq::empty()
    } else {
        match usable(available[n - 1].0@, available[n - 1].1) {
            Some(connection) => usable_all(available, n - 1).push(connection),
            None => usable_all(available, n - 1),
        }
    }
}

/// A connection that was set up for an interface, if its settings name it.
pub open spec fn set_up_for(settings: ConnectionSettings, interface: Seq<char>) -> Option<KnownView> {
    match (settings.interface_name, settings.id, settings.uuid) {
        (Some(name), Some(id), Some(uuid)) => if name@ == interface {
            Some(KnownView { id: id@, uuid: uuid@ })
        } else {
            None
        },
        _ => None,
    }
}

/// The connections among the first `n` that were set up for an interface.
pub open spec fn known_all(
    settings: Seq<ConnectionSettings>,
    n: int,
    interface: Seq<char>,
) -> Seq<KnownView>
    decreases n,
{
    if n <= 0 {
        Seq::empty()
    } else {
        match set_up_for(settings[n - 1], interface) {
            Some(known) => known_all(settings, n - 1, interface).push(known),
            None => known_all(settings, n - 1, interface),
        }
    }
}

/// A device that is listed: a wired or a wireless one that could be asked for
/// everything, and has an address.
pub open spec fn device_of(reading: DeviceReading, settings: Seq<ConnectionSettings>) -> Option<
    DeviceView,
> {
    match (
        reading.device_type,
        reading.interface,
        reading.hw_address,
        reading.state,
        reading.available,
    ) {
        (Some(number), Some(interface), Some(address), Some(state), Some(available)) => {
            let device_type = DeviceType::of_number(number);
            if device_type == DeviceType::Unknown || address@.len() == 0 {
                None
            } else {
                Some(
                    DeviceView {
                        path: reading.path@,
                        device_type,
                        interface: interface@,
                        state,
                        active_connection: active_view(reading.active),
                        available_connections: usable_all(available@, available@.len() as int),
                        known_connections: known_all(
                            settings,
                            settings.len() as int,
                            interface@,
                        ),
                    },
                )
            }
        },
        _ => None,
    }
}

fn pick_usable(available: &Vec<(String, Option<ConnectionSettings>)>) -> (r: Vec<DeviceConnection>)
    ensures
        r@.map_values(|c: DeviceConnection| c@) == usable_all(
            available@,
            available@.len() as int,
        ),
{
    let mut out: Vec<DeviceConnection> = Vec::new();
    assert(out@.map_values(|c: DeviceConnection| c@) =~= usable_all(available@, 0));
    for i in 0..available.len()
        invariant
            out@.map_values(|c: DeviceConnection| c@) == usable_all(available@, i as int),
    {
        if let Some(settings) = &available[i].1 {
            if let (Some(id), Some(uuid)) = (&settings.id, &settings.uuid) {
                let ghost was = out@;
                let connection = DeviceConnection {
                    path: available[i].0.clone(),
                    id: id.clone(),
                    uuid: uuid.clone(),
                };
                out.push(connection);
                assert(out@.map_values(|c: DeviceConnection| c@) =~= was.map_values(
                    |c: DeviceConnection| c@,
                ).push(connection@));
            }
        }
    }
    out
}

fn pick_known(settings: &Vec<ConnectionSettings>, interface: &str) -> (r: Vec<
    KnownDeviceConnection,
>)
    ensures
        r@.map_values(|c: KnownDeviceConnection| c@) == known_all(
            settings@,
            settings@.len() as int,
            interface@,
        ),
{
    let mut out: Vec<KnownDeviceConnection> = Vec::new();
    assert(out@.map_values(|c: KnownDeviceConnection| c@) =~= known_all(settings@, 0, interface@));
    for i in 0..settings.len()
        invariant
            out@.map_values(|c: KnownDeviceConnection| c@) == known_all(
                settings@,
                i as int,
                interface@,
            ),
    {
        let one = &settings[i];
        if let (Some(name), Some(id), Some(uuid)) = (&one.interface_name, &one.id, &one.uuid) {
            if same(name, interface) {
                let ghost was = out@;
                let known = KnownDeviceConnection { id: id.clone(), uuid: uuid.clone() };
                out.push(known);
                assert(out@.map_values(|c: KnownDeviceConnection| c@) =~= was.map_values(
                    |c: KnownDeviceConnection| c@,
                ).push(known@));
            }
        }
    }
    out
}

/// Makes a listed device of what a device tells; see [`device_of`].
pub fn read_device(reading: DeviceReading, settings: &Vec<ConnectionSettings>) -> (r: Option<
    DeviceInfo,
>)
    ensures
        (match r {
            Some(device) => Some(device@),
            None => None,
        }) == device_of(reading, settings@),
{
    let DeviceReading { path, device_type, interface, hw_address, state, available, active } =
        reading;
    match (device_type, interface, hw_address, state, available) {
        (Some(number), Some(interface), Some(address), Some(state), Some(available)) => {
            let device_type = DeviceType::from(number);
            if device_type == DeviceType::Unknown || address.as_str().is_empty() {
                return None;
            }
            let known_connections = pick_known(settings, &interface);
            let available_connections = pick_usable(&available);
            Some(
                DeviceInfo {
                    path,
                    device_type,
                    interface,
                    state,
                    active_connection: active,
                    available_connections,
                    known_connections,
                },
            )
        },
        _ => None,
    }
}

/// The devices among the first `n` that are listed.
pub open spec fn devices_of(
    readings: Seq<DeviceReading>,
    n: int,
    settings: Seq<ConnectionSettings>,
) -> Seq<DeviceView>
    decreases n,
{
    if n <= 0 {
        Seq::empty()
    } else {
        match device_of(readings[n - 1], settings) {
            Some(device) => devices_of(readings, n - 1, settings).push(device),
            None => devices_of(readings, n - 1, settings),
        }
    }
}

/// Lists the devices, in the order in which they were told.
pub fn list_devices(readings: Vec<DeviceReading>, settings: &Vec<ConnectionSettings>) -> (r: Vec<
    DeviceInfo,
>)
    ensures
        r@.map_values(|d: DeviceInfo| d@) == devices_of(
            readings@,
            readings@.len() as int,
            settings@,
        ),
{
    let ghost all = readings@;
    let n: usize = readings.len();
    let mut rest = readings;
    let mut out: Vec<DeviceInfo> = Vec::new();
    assert(out@.map_values(|d: DeviceInfo| d@) =~= devices_of(all, 0, settings@));
    assert(rest@ =~= all.skip(0));
    let mut i: usize = 0;
    while i < n
        invariant
            i <= n,
            n == all.len(),
            rest@.len() == n - i,
            rest@ == all.skip(i as int),
            out@.map_values(|d: DeviceInfo| d@) == devices_of(all, i as int, settings@),
        decreases n - i,
    {
        let ghost here = all.skip(i as int);
        assert(here.skip(1) =~= all.skip(i + 1));
        let reading = rest.remove(0);
        assert(rest@ =~= here.skip(1));
        if let Some(device) = read_device(reading, settings) {
            let ghost was = out@;
            out.push(device);
            assert(out@.map_values(|d: DeviceInfo| d@) =~= was.map_values(
                |d: DeviceInfo| d@,
            ).push(device@));
        }
        i = i + 1;
    }
    out
}

/// How joining a scanned network is secured.
#[derive(Clone, Copy, Debug, PartialEq, Eq, Structural)]
pub enum NetworkType {
    /// With an account of an organisation.
    EAP,
    /// With a password.
    PSK,
    Open,
}

/// The flag of networks that take an account of an organisation.
pub const KEY_MGMT_802_1X: u32 = 0x200;

/// The flag of networks that take a password.
pub const KEY_MGMT_PSK: u32 = 0x100;

/// The flag of access points that let devices in at the push of a button.
pub const WPS_PBC: u32 = 0x4;

/// How a network is secured, going by its flags; nothing if in a way that is not
/// supported.
pub open spec fn network_type_of(rsn_flags: u32) -> Option<NetworkType> {
    if rsn_flags & KEY_MGMT_802_1X != 0 {
        Some(NetworkType::EAP)
    } else if rsn_flags & KEY_MGMT_PSK != 0 {
        Some(NetworkType::PSK)
    } else if rsn_flags == 0 {
        Some(NetworkType::Open)
    } else {
        None
    }
}

/// Decides [`network_type_of`].
pub fn network_type(rsn_flags: u32) -> (r: Option<NetworkType>)
    ensures
        r == network_type_of(rsn_flags),
{
    if rsn_flags & KEY_MGMT_802_1X != 0 {
        Some(NetworkType::EAP)
    } else if rsn_flags & KEY_MGMT_PSK != 0 {
        Some(NetworkType::PSK)
    } else if rsn_flags == 0 {
        Some(NetworkType::Open)
    } else {
        None
    }
}

/// What an access point tells of itself in a scan. Nothing where it could not be
/// asked.
#[derive(Debug)]
pub struct ScanReading {
    pub path: String,
    /// The network's name, as the bytes it is made of.
    pub ssid: Option<Vec<u8>>,
    pub strength: Option<u8>,
    pub rsn_flags: Option<u32>,
    pub wpa_flags: Option<u32>,
    pub flags: Option<u32>,
}

/// A network that a scan found.
#[derive(Debug)]
pub struct ScannedNetwork {
    pub path: String,
    pub ssid: String,
    pub strength: u8,
    pub secured: bool,
    pub wps_push: bool,
    pub network_type: NetworkType,
    /// The state of the device that found it.
    pub state: u32,
    /// Whether something is being done about it.
    pub working: bool,
    /// The hardware address of the device that found it, if it is known.
    pub hw_address: Option<String>,
}

/// The device that scans.
#[derive(Debug)]
pub struct ScanDevice {
    pub state: u32,
    pub hw_address: Option<String>,
}

/// A [`ScannedNetwork`] as a value.
pub struct ScannedView {
    pub path: Seq<char>,
    pub ssid: Seq<char>,
    pub strength: u8,
    pub secured: bool,
    pub wps_push: bool,
    pub network_type: NetworkType,
    pub state: u32,
    pub working: bool,
    pub hw_address: Option<Seq<char>>,
}

impl View for ScannedNetwork {
    type V = ScannedView;

    open spec fn view(&self) -> ScannedView {
        ScannedView {
            path: self.path@,
            ssid: self.ssid@,
            strength: self.strength,
            secured: self.secured,
            wps_push: self.wps_push,
            network_type: self.network_type,
            state: self.state,
            working: self.working,
            hw_address: crate::text::opt_view(self.hw_address),
        }
    }
}

/// Scanned networks as values.
pub open spec fn scanned_views(networks: Seq<ScannedNetwork>) -> Seq<ScannedView> {
    networks.map_values(|n: ScannedNetwork| n@)
}

/// The position at or after `from` of the network of a name.
pub open spec fn scanned_from(networks: Seq<ScannedView>, from: int, ssid: Seq<char>) -> Option<int>
    decreases networks.len() - from,
{
    if from >= networks.len() {
        None
    } else if networks[from].ssid == ssid {
        Some(from)
    } else {
        scanned_from(networks, from + 1, ssid)
    }
}

/// What became of one access point in a scan.
pub enum Scanned {
    /// It makes no difference.
    Skipped,
    /// The scan cannot go on.
    Failed,
    /// It stands for its network now.
    Found { network: ScannedView },
}

/// What becomes of one access point: it is skipped where it could not be asked,
/// where a stronger one of the same name was found, and where the way in which it is
/// secured is not supported.
pub open spec fn scanned_one(
    device: ScanDevice,
    networks: Seq<ScannedView>,
    reading: ScanReading,
) -> Scanned {
    match (reading.ssid, reading.strength) {
        (Some(bytes), Some(strength)) => {
            let ssid = crate::networkmanager::lossy(bytes@);
            let place = scanned_from(networks, 0, ssid);
            if place is Some && networks[place->0].strength > strength {
                Scanned::Skipped
            } else {
                match reading.rsn_flags {
                    Some(rsn_flags) => match network_type_of(rsn_flags) {
                        Some(network_type) => match (reading.wpa_flags, reading.flags) {
                            (Some(wpa_flags), Some(flags)) => Scanned::Found {
                                network: ScannedView {
                                    path: reading.path@,
                                    ssid,
                                    strength,
                                    secured: wpa_flags != 0,
                                    wps_push: flags & WPS_PBC == WPS_PBC,
                                    network_type,
                                    state: device.state,
                                    working: false,
                                    hw_address: crate::text::opt_view(device.hw_address),
                                },
                            },
                            _ => Scanned::Failed,
                        },
                        None => Scanned::Skipped,
                    },
                    None => Scanned::Skipped,
                }
            }
        },
        _ => Scanned::Skipped,
    }
}

/// The networks once an access point stands for one of them.
pub open spec fn with_scanned(networks: Seq<ScannedView>, network: ScannedView) -> Seq<ScannedView> {
    match scanned_from(networks, 0, network.ssid) {
        Some(i) => networks.update(i, network),
        None => networks.push(network),
    }
}

/// The networks that the first `n` access points stand for; nothing if the scan
/// could not go on.
pub open spec fn scanned_all(device: ScanDevice, readings: Seq<ScanReading>, n: int) -> Option<
    Seq<ScannedView>,
>
    decreases n,
{
    if n <= 0 {
        Some(Seq::empty())
    } else {
        match scanned_all(device, readings, n - 1) {
            Some(networks) => match scanned_one(device, networks, readings[n - 1]) {
                Scanned::Skipped => Some(networks),
                Scanned::Failed => None,
                Scanned::Found { network } => Some(with_scanned(networks, network)),
            },
            None => None,
        }
    }
}

fn find_scanned(networks: &Vec<ScannedNetwork>, ssid: &str) -> (r: Option<usize>)
    ensures
        match r {
            Some(i) => i < networks@.len() && scanned_from(scanned_views(networks@), 0, ssid@)
                == Some(i as int),
            None => scanned_from(scanned_views(networks@), 0, ssid@) is None,
        },
{
    let ghost all = scanned_views(networks@);
    let mut i: usize = 0;
    while i < networks.len()
        invariant
            i <= networks@.len(),
            all == scanned_views(networks@),
            scanned_from(all, 0, ssid@) == scanned_from(all, i as int, ssid@),
        decreases networks@.len() - i,
    {
        if same(&networks[i].ssid, ssid) {
            return Some(i);
        }
        i = i + 1;
    }
    None
}

/// Takes one access point in; says whether the scan can go on.
fn scan_one(
    device: &ScanDevice,
    networks: &mut Vec<ScannedNetwork>,
    reading: &ScanReading,
) -> (r: bool)
    ensures
        match scanned_one(*device, scanned_views(old(networks)@), *reading) {
            Scanned::Skipped => r && scanned_views(final(networks)@) == scanned_views(
                old(networks)@,
            ),
            Scanned::Failed => !r,
            Scanned::Found { network } => r && scanned_views(final(networks)@) == with_scanned(
                scanned_views(old(networks)@),
                network,
            ),
        },
{
    if let (Some(bytes), Some(strength)) = (&reading.ssid, reading.strength) {
        let ssid = lossy_text(bytes);
        let place = find_scanned(networks, &ssid);
        if let Some(i) = place {
            if networks[i].strength > strength {
                return true;
            }
        }
        let network_type = match reading.rsn_flags {
            Some(rsn_flags) => match network_type(rsn_flags) {
                Some(network_type) => network_type,
                None => {
                    return true;
                },
            },
            None => {
                return true;
            },
        };
        if let (Some(wpa_flags), Some(flags)) = (reading.wpa_flags, reading.flags) {
            let network = ScannedNetwork {
                path: reading.path.clone(),
                ssid,
                strength,
                secured: wpa_flags != 0,
                wps_push: flags & WPS_PBC == WPS_PBC,
                network_type,
                state: device.state,
                working: false,
                hw_address: device.hw_address.clone(),
            };
            match place {
                Some(i) => {
                    networks.set(i, network);
                    assert(scanned_views(networks@) =~= scanned_views(old(networks)@).update(
                        i as int,
                        network@,
                    ));
                },
                None => {
                    networks.push(network);
                    assert(scanned_views(networks@) =~= scanned_views(old(networks)@).push(
                        network@,
                    ));
                },
            }
            true
        } else {
            false
        }
    } else {
        true
    }
}

/// Networks as results to be ordered, each by its strength.
pub open spec fn strengths(networks: Seq<ScannedView>) -> Seq<(usize, u32)> {
    Seq::new(networks.len(), |i: int| (i as usize, networks[i].strength as u32))
}

/// Whether a list holds networks strongest first, equally strong ones in the order
/// in which they were found.
pub open spec fn strongest_first(sorted: Seq<ScannedView>, networks: Seq<ScannedView>) -> bool {
    exists|order: Seq<(usize, u32)>|
        {
            &&& #[trigger] crate::ranking::is_ranking(order, strengths(networks), Seq::empty())
            &&& sorted == Seq::new(order.len(), |i: int| networks[order[i].0 as int])
        }
}

impl Clone for ScannedNetwork {
    fn clone(&self) -> (r: Self)
        ensures
            r@ == self@,
    {
        ScannedNetwork {
            path: self.path.clone(),
            ssid: self.ssid.clone(),
            strength: self.strength,
            secured: self.secured,
            wps_push: self.wps_push,
            network_type: self.network_type,
            state: self.state,
            working: self.working,
            hw_address: self.hw_address.clone(),
        }
    }
}

/// Makes a list of networks of what the access points tell, strongest first and
/// without duplicates. Nothing where one of them stopped answering half way. A scan
/// that the device says has failed, by giving -1 for when it last scanned, finds no
/// networks.
pub fn scan_wifi(
    device: &ScanDevice,
    last_scan: Option<i64>,
    readings: &Vec<ScanReading>,
) -> (r: Option<Vec<ScannedNetwork>>)
    ensures
        last_scan == Some(-1i64) ==> (r matches Some(list) && list@.len() == 0),
        last_scan != Some(-1i64) ==> match scanned_all(
            *device,
            readings@,
            readings@.len() as int,
        ) {
            Some(networks) => r matches Some(list) && strongest_first(
                scanned_views(list@),
                networks,
            ),
            None => r is None,
        },
{
    if let Some(at) = last_scan {
        if at == -1 {
            return Some(Vec::new());
        }
    }
    let mut networks: Vec<ScannedNetwork> = Vec::new();
    assert(scanned_views(networks@) =~= Seq::<ScannedView>::empty());
    let mut k: usize = 0;
    while k < readings.len()
        invariant
            k <= readings@.len(),
            last_scan != Some(-1i64),
            scanned_all(*device, readings@, k as int) == Some(scanned_views(networks@)),
        decreases readings@.len() - k,
    {
        if !scan_one(device, &mut networks, &readings[k]) {
            proof {
                lemma_failed_scan(*device, readings@, k + 1, readings@.len() as int);
            }
            return None;
        }
        k = k + 1;
    }
    let ghost found = scanned_views(networks@);
    let mut results: Vec<(usize, u32)> = Vec::new();
    for i in 0..networks.len()
        invariant
            found == scanned_views(networks@),
            results@.len() == i,
            forall|j: int|
                0 <= j < i ==> #[trigger] results@[j] == (j as usize, found[j].strength as u32),
    {
        results.push((i, networks[i].strength as u32));
    }
    assert(results@ =~= strengths(found));
    let none: Vec<(u32, u64)> = Vec::new();
    let order = sort_results(&results, &none);
    assert(none@ =~= Seq::<(u32, u64)>::empty());
    proof {
        assert forall|j: int| 0 <= j < order@.len() implies results@.contains(
            #[trigger] order@[j],
        ) by {
            assert(order@.contains(order@[j]));
            crate::ranking::law_ranking_keeps_the_results(order@, results@, none@, order@[j]);
        }
    }
    let mut out: Vec<ScannedNetwork> = Vec::new();
    for i in 0..order.len()
        invariant
            found == scanned_views(networks@),
            results@ == strengths(found),
            forall|j: int| 0 <= j < order@.len() ==> results@.contains(#[trigger] order@[j]),
            out@.len() == i,
            forall|j: int| 0 <= j < i ==> (#[trigger] out@[j])@ == found[order@[j].0 as int],
    {
        proof {
            assert(results@.contains(order@[i as int]));
            let at = choose|at: int| 0 <= at < results@.len() && results@[at] == order@[i as int];
            assert(at < networks.len());
            assert(results@[at] == strengths(found)[at]);
            assert(results@[at].0 == at);
        }
        out.push(networks[order[i].0].clone());
    }
    assert(scanned_views(out@) =~= Seq::new(
        order@.len(),
        |i: int| found[order@[i].0 as int],
    ));
    assert(crate::ranking::is_ranking(order@, strengths(found), Seq::empty()));
    Some(out)
}

proof fn lemma_failed_scan(device: ScanDevice, readings: Seq<ScanReading>, k: int, n: int)
    requires
        0 <= k <= n,
        scanned_all(device, readings, k) is None,
    ensures
        scanned_all(device, readings, n) is None,
    decreases n - k,
{
    if k < n {
        lemma_failed_scan(device, readings, k + 1, n);
    }
}

proof fn lemma_scanned_from(networks: Seq<ScannedView>, from: int, ssid: Seq<char>)
    requires
        0 <= from,
    ensures
        match scanned_from(networks, from, ssid) {
            Some(i) => from <= i < networks.len() && networks[i].ssid == ssid,
            None => forall|j: int|
                from <= j < networks.len() ==> (#[trigger] networks[j]).ssid != ssid,
        },
    decreases networks.len() - from,
{
    if from < networks.len() && networks[from].ssid != ssid {
        lemma_scanned_from(networks, from + 1, ssid);
    }
}

/// A scan lists each name once.
pub proof fn law_scans_list_names_once(
    device: ScanDevice,
    readings: Seq<ScanReading>,
    n: int,
    i: int,
    j: int,
)
    requires
        scanned_all(device, readings, n) is Some,
        0 <= i < j < scanned_all(device, readings, n)->0.len(),
    ensures
        scanned_all(device, readings, n)->0[i].ssid != scanned_all(device, readings, n)->0[j].ssid,
    decreases n,
{
    let before = scanned_all(device, readings, n - 1)->0;
    match scanned_one(device, before, readings[n - 1]) {
        Scanned::Found { network } => {
            lemma_scanned_from(before, 0, network.ssid);
            if j < before.len() {
                law_scans_list_names_once(device, readings, n - 1, i, j);
            }
        },
        _ => {
            law_scans_list_names_once(device, readings, n - 1, i, j);
        },
    }
}

/// No access point that a network could be joined by is stronger than what its
/// network is listed with.
pub proof fn law_scans_keep_the_strongest(
    device: ScanDevice,
    readings: Seq<ScanReading>,
    n: int,
    k: int,
)
    requires
        scanned_all(device, readings, n) is Some,
        0 <= k < n <= readings.len(),
        readings[k].ssid is Some,
        readings[k].strength is Some,
        readings[k].rsn_flags is Some,
        network_type_of(readings[k].rsn_flags->0) is Some,
    ensures
        exists|i: int|
            0 <= i < scanned_all(device, readings, n)->0.len() && (#[trigger] scanned_all(
                device,
                readings,
                n,
            )->0[i]).ssid == crate::networkmanager::lossy(readings[k].ssid->0@) && scanned_all(
                device,
                readings,
                n,
            )->0[i].strength >= readings[k].strength->0,
    decreases n,
{
    let ssid = crate::networkmanager::lossy(readings[k].ssid->0@);
    let before = scanned_all(device, readings, n - 1)->0;
    let after = scanned_all(device, readings, n)->0;
    let kept = if k == n - 1 {
        lemma_scanned_from(before, 0, ssid);
        if scanned_from(before, 0, ssid) is Some {
            scanned_from(before, 0, ssid)->0
        } else {
            before.len() as int
        }
    } else {
        law_scans_keep_the_strongest(device, readings, n - 1, k);
        choose|i: int|
            0 <= i < before.len() && (#[trigger] before[i]).ssid == ssid && before[i].strength
                >= readings[k].strength->0
    };
    if let Scanned::Found { network } = scanned_one(device, before, readings[n - 1]) {
        lemma_scanned_from(before, 0, network.ssid);
    }
    assert(0 <= kept < after.len());
    assert(after[kept].ssid == ssid && after[kept].strength >= readings[k].strength->0);
}

/// What the launcher offers for networks.
pub fn get_items() -> (r: Vec<RootItem>)
    ensures
        r@.len() == 2,
        r@[0] matches RootItem::Panel { id, icon, name, description, terms } && id@ == "networks"@
            && icon == IconName::Network && name@ == "Networks"@ && description is None && crate::text::views(terms@) == seq![
            "net"@,
            "network"@,
            "ethernet"@,
        ],
        r@[1] matches RootItem::Panel { id, icon, name, description, terms } && id@ == "wifi"@
            && icon == IconName::Wifi && name@ == "Wifi"@ && description is None && crate::text::views(terms@) == seq!["wifi"@],
{
    let mut terms: Vec<String> = Vec::new();
    terms.push("net".to_owned());
    terms.push("network".to_owned());
    terms.push("ethernet".to_owned());
    assert(crate::text::views(terms@) =~= seq!["net"@, "network"@, "ethernet"@]);
    let mut more: Vec<String> = Vec::new();
    more.push("wifi".to_owned());
    assert(crate::text::views(more@) =~= seq!["wifi"@]);
    let mut out: Vec<RootItem> = Vec::new();
    out.push(
        RootItem::Panel {
            id: "networks".to_owned(),
            icon: IconName::Network,
            name: "Networks".to_owned(),
            description: None,
            terms,
        },
    );
    out.push(
        RootItem::Panel {
            id: "wifi".to_owned(),
            icon: IconName::Wifi,
            name: "Wifi".to_owned(),
            description: None,
            terms: more,
        },
    );
    out
}

/// A connection can be used with a device exactly if its id and its uuid are known, and it is
/// told by them.
pub proof fn law_usable_connections_have_an_id(path: Seq<char>, settings: ConnectionSettings)
    ensures
        usable(path, Some(settings)) is Some <==> settings.id is Some && settings.uuid is Some,
        usable(path, Some(settings)) matches Some(connection) ==> connection.path == path
            && connection.id == settings.id->0@ && connection.uuid == settings.uuid->0@,
        usable(path, None) is None,
{
}

/// Every connection that can be used with a device is listed with it, in order, and no other.
pub proof fn law_every_usable_connection_is_listed(
    available: Seq<(String, Option<ConnectionSettings>)>,
    n: int,
    i: int,
)
    requires
        0 <= i < n <= available.len(),
    ensures
        usable(available[i].0@, available[i].1) matches Some(connection) ==> usable_all(
            available,
            n,
        ).contains(connection),
        forall|k: int|
            0 <= k < usable_all(available, n).len() ==> exists|j: int|
                0 <= j < n && usable((#[trigger] available[j]).0@, available[j].1) == Some(
                    #[trigger] usable_all(available, n)[k],
                ),
    decreases n,
{
    let all = usable_all(available, n);
    let before = usable_all(available, n - 1);
    if i < n - 1 {
        law_every_usable_connection_is_listed(available, n - 1, i);
        if let Some(connection) = usable(available[i].0@, available[i].1) {
            let k = choose|k: int| 0 <= k < before.len() && before[k] == connection;
            assert(all[k] == connection);
        }
    } else {
        if n > 1 {
            law_every_usable_connection_is_listed(available, n - 1, 0);
        }
        if let Some(connection) = usable(available[i].0@, available[i].1) {
            assert(all.last() == connection);
        }
    }
    assert forall|k: int| 0 <= k < all.len() implies exists|j: int|
        0 <= j < n && usable((#[trigger] available[j]).0@, available[j].1) == Some(
            #[trigger] all[k],
        ) by {
        if k < before.len() {
            assert(all[k] == before[k]);
            let j = choose|j: int|
                0 <= j < n - 1 && usable((#[trigger] available[j]).0@, available[j].1) == Some(
                    before[k],
                );
            assert(usable(available[j].0@, available[j].1) == Some(all[k]));
        } else {
            assert(usable(available[n - 1].0@, available[n - 1].1) == Some(all[k]));
        }
    }
}

/// A connection is known for a device exactly if it is set up for its interface and has an id
/// and a uuid.
pub proof fn law_known_connections_are_for_the_interface(
    settings: ConnectionSettings,
    interface: Seq<char>,
)
    ensures
        set_up_for(settings, interface) is Some <==> crate::text::opt_view(settings.interface_name)
            == Some(interface) && settings.id is Some && settings.uuid is Some,
        set_up_for(settings, interface) matches Some(known) ==> known.id == settings.id->0@
            && known.uuid == settings.uuid->0@,
{
}

/// Every connection that is set up for an interface is known for it.
pub proof fn law_every_known_connection_is_listed(
    settings: Seq<ConnectionSettings>,
    n: int,
    interface: Seq<char>,
    i: int,
)
    requires
        0 <= i < n <= settings.len(),
    ensures
        set_up_for(settings[i], interface) matches Some(known) ==> known_all(
            settings,
            n,
            interface,
        ).contains(known),
        known_all(settings, n, interface).len() <= n,
    decreases n,
{
    let all = known_all(settings, n, interface);
    let before = known_all(settings, n - 1, interface);
    if i < n - 1 {
        law_every_known_connection_is_listed(settings, n - 1, interface, i);
        if let Some(known) = set_up_for(settings[i], interface) {
            let k = choose|k: int| 0 <= k < before.len() && before[k] == known;
            assert(all[k] == known);
        }
    } else {
        if n > 1 {
            law_every_known_connection_is_listed(settings, n - 1, interface, 0);
        } else {
            assert(before.len() == 0);
        }
        if let Some(known) = set_up_for(settings[i], interface) {
            assert(all.last() == known);
        }
    }
}

/// A device is shown exactly if all of it could be read, it is of a kind that is known, and it
/// has a hardware address; it is shown as it was read.
pub proof fn law_devices_are_shown_as_read(reading: DeviceReading, settings: Seq<ConnectionSettings>)
    ensures
        device_of(reading, settings) is Some <==> (reading.device_type is Some
            && reading.interface is Some && reading.hw_address is Some && reading.state is Some
            && reading.available is Some && (reading.device_type->0 == 1 || reading.device_type->0
            == 2) && reading.hw_address->0@.len() > 0),
        device_of(reading, settings) matches Some(device) ==> {
            &&& device.path == reading.path@
            &&& device.interface == reading.interface->0@
            &&& device.state == reading.state->0
            &&& device.active_connection == active_view(reading.active)
            &&& device.device_type == (if reading.device_type->0 == 1 {
                DeviceType::Ethernet
            } else {
                DeviceType::Wifi
            })
            &&& device.available_connections == usable_all(
                reading.available->0@,
                reading.available->0@.len() as int,
            )
            &&& device.known_connections == known_all(
                settings,
                settings.len() as int,
                reading.interface->0@,
            )
        },
{
}

/// Every device that can be shown is listed.
pub proof fn law_every_device_is_listed(
    readings: Seq<DeviceReading>,
    n: int,
    settings: Seq<ConnectionSettings>,
    i: int,
)
    requires
        0 <= i < n <= readings.len(),
    ensures
        device_of(readings[i], settings) matches Some(device) ==> devices_of(
            readings,
            n,
            settings,
        ).contains(device),
        devices_of(readings, n, settings).len() <= n,
    decreases n,
{
    let all = devices_of(readings, n, settings);
    let before = devices_of(readings, n - 1, settings);
    if i < n - 1 {
        law_every_device_is_listed(readings, n - 1, settings, i);
        if let Some(device) = device_of(readings[i], settings) {
            let k = choose|k: int| 0 <= k < before.len() && before[k] == device;
            assert(all[k] == device);
        }
    } else {
        if n > 1 {
            law_every_device_is_listed(readings, n - 1, settings, 0);
        } else {
            assert(before.len() == 0);
        }
        if let Some(device) = device_of(readings[i], settings) {
            assert(all.last() == device);
        }
    }
}

/// A network takes an account if its flags say so, else a password if they say that, is open
/// without any flag, and is of no kind that is known with others.
pub proof fn law_network_types_follow_the_flags(rsn_flags: u32)
    ensures
        rsn_flags & 0x200 != 0 ==> network_type_of(rsn_flags) == Some(NetworkType::EAP),
        rsn_flags & 0x200 == 0 && rsn_flags & 0x100 != 0 ==> network_type_of(rsn_flags) == Some(
            NetworkType::PSK,
        ),
        network_type_of(0) == Some(NetworkType::Open),
        network_type_of(rsn_flags) is None <==> rsn_flags != 0 && rsn_flags & 0x200 == 0
            && rsn_flags & 0x100 == 0,
{
    assert(0u32 & 0x200 == 0) by (bit_vector);
    assert(0u32 & 0x100 == 0) by (bit_vector);
}

/// A network that is found is told as it was read: with its name, its strength, its path and
/// its kind, whether it is secured and whether it takes a push of a button, and with the state
/// and the address of the device that saw it.
pub proof fn law_found_networks_are_told_as_read(
    device: ScanDevice,
    networks: Seq<ScannedView>,
    reading: ScanReading,
)
    ensures
        scanned_one(device, networks, reading) matches Scanned::Found { network } ==> {
            &&& reading.ssid is Some && network.ssid == crate::networkmanager::lossy(
                reading.ssid->0@,
            )
            &&& reading.strength == Some(network.strength)
            &&& network.path == reading.path@
            &&& reading.rsn_flags is Some && network_type_of(reading.rsn_flags->0) == Some(
                network.network_type,
            )
            &&& reading.wpa_flags is Some && (network.secured <==> reading.wpa_flags->0 != 0)
            &&& reading.flags is Some && (network.wps_push <==> reading.flags->0 & 4 == 4)
            &&& network.state == device.state
            &&& !network.working
            &&& network.hw_address == crate::text::opt_view(device.hw_address)
        },
{
}

/// A network is passed over only if it is weaker than one of its name that was seen, or if it
/// cannot be read or is of no kind that is known; the scan fails only where its security cannot
/// be read.
pub proof fn law_networks_are_passed_over_for_a_reason(
    device: ScanDevice,
    networks: Seq<ScannedView>,
    reading: ScanReading,
)
    requires
        reading.ssid is Some,
        reading.strength is Some,
        reading.rsn_flags is Some,
        network_type_of(reading.rsn_flags->0) is Some,
    ensures
        ({
            let ssid = crate::networkmanager::lossy(reading.ssid->0@);
            let weaker = exists|i: int|
                0 <= i < networks.len() && (#[trigger] networks[i]).ssid == ssid
                    && networks[i].strength > reading.strength->0;
            let then = scanned_one(device, networks, reading);
            &&& then is Skipped ==> weaker
            &&& !weaker && reading.wpa_flags is Some && reading.flags is Some ==> then is Found
            &&& then is Failed ==> reading.wpa_flags is None || reading.flags is None
        }),
{
    let ssid = crate::networkmanager::lossy(reading.ssid->0@);
    lemma_scanned_place(networks, 0, ssid);
    if let Some(i) = scanned_from(networks, 0, ssid) {
        assert(networks[i].ssid == ssid);
    }
}

proof fn lemma_scanned_place(networks: Seq<ScannedView>, from: int, ssid: Seq<char>)
    requires
        0 <= from,
    ensures
        match scanned_from(networks, from, ssid) {
            Some(i) => from <= i < networks.len() && networks[i].ssid == ssid,
            None => forall|j: int| from <= j < networks.len() ==> (#[trigger] networks[j]).ssid != ssid,
        },
    decreases networks.len() - from,
{
    if from < networks.len() && networks[from].ssid != ssid {
        lemma_scanned_place(networks, from + 1, ssid);
    }
}

/// A network that is found takes the place of the one of its name, or comes last; the others
/// stay where they are.
pub proof fn law_found_networks_take_their_place(networks: Seq<ScannedView>, network: ScannedView, j: int)
    requires
        0 <= j < networks.len(),
    ensures
        with_scanned(networks, network).contains(network),
        networks[j].ssid != network.ssid ==> with_scanned(networks, network)[j] == networks[j],
        with_scanned(networks, network).len() <= networks.len() + 1,
        networks[j].ssid == network.ssid ==> with_scanned(networks, network).len()
            == networks.len(),
{
    lemma_scanned_place(networks, 0, network.ssid);
    let then = with_scanned(networks, network);
    match scanned_from(networks, 0, network.ssid) {
        Some(i) => {
            assert(then[i] == network);
        },
        None => {
            assert(then[networks.len() as int] == network);
        },
    }
}

/// A list of networks is ordered by their strength, the strongest first, and none is lost.
pub proof fn law_the_strongest_comes_first(
    sorted: Seq<ScannedView>,
    networks: Seq<ScannedView>,
    i: int,
    j: int,
)
    requires
        strongest_first(sorted, networks),
        networks.len() <= usize::MAX,
        0 <= i < j < sorted.len(),
    ensures
        sorted.len() == networks.len(),
        sorted[i].strength >= sorted[j].strength,
{
    let all = strengths(networks);
    let order = choose|order: Seq<(usize, u32)>|
        {
            &&& #[trigger] crate::ranking::is_ranking(order, all, Seq::empty())
            &&& sorted == Seq::new(order.len(), |k: int| networks[order[k].0 as int])
        };
    crate::ranking::law_ranking_keeps_the_count(order, all, Seq::empty());
    crate::ranking::law_ranking_keeps_the_results(order, all, Seq::empty(), order[i]);
    crate::ranking::law_ranking_keeps_the_results(order, all, Seq::empty(), order[j]);
    assert(order.contains(order[i]) && order.contains(order[j]));
    let a = choose|a: int| 0 <= a < all.len() && all[a] == order[i];
    let b = choose|b: int| 0 <= b < all.len() && all[b] == order[j];
    assert(crate::ranking::rank_of(order[i], Seq::empty()).at_least(
        crate::ranking::rank_of(order[j], Seq::empty()),
    ));
}

} // verus!
