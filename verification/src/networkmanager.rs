//! What NetworkManager tells of devices, networks and connections.

use vstd::prelude::*;

use crate::text::same;

verus! {

/// How a wireless network is secured.
#[derive(Clone, Copy, Debug, PartialEq, Eq, Structural)]
pub enum SecurityType {
    Open,
    WEP,
    WPA,
    WPA2,
    WPA3,
}

impl SecurityType {
    /// How a network is secured, going by its flags: its newest scheme counts.
    pub open spec fn of_flags(flags: u32, wpa_flags: u32, rsn_flags: u32) -> SecurityType {
        if rsn_flags & 0x200 != 0 {
            SecurityType::WPA3
        } else if rsn_flags != 0 {
            SecurityType::WPA2
        } else if wpa_flags != 0 {
            SecurityType::WPA
        } else if flags & 0x1 != 0 {
            SecurityType::WEP
        } else {
            SecurityType::Open
        }
    }

    pub fn from_flags(flags: u32, wpa_flags: u32, rsn_flags: u32) -> (r: Self)
        ensures
            r == SecurityType::of_flags(flags, wpa_flags, rsn_flags),
    {
        if rsn_flags & 0x200 != 0 {
            SecurityType::WPA3
        } else if rsn_flags != 0 {
            SecurityType::WPA2
        } else if wpa_flags != 0 {
            SecurityType::WPA
        } else if flags & 0x1 != 0 {
            SecurityType::WEP
        } else {
            SecurityType::Open
        }
    }

    /// Whether joining the network takes a password.
    pub fn is_secured(&self) -> (r: bool)
        ensures
            r == (*self != SecurityType::Open),
    {
        match self {
            SecurityType::Open => false,
            _ => true,
        }
    }

    /// What the scheme is called.
    pub fn label(&self) -> (r: String)
        ensures
            r@ == (match self {
                SecurityType::Open => "Open"@,
                SecurityType::WEP => "WEP"@,
                SecurityType::WPA => "WPA"@,
                SecurityType::WPA2 => "WPA2"@,
                SecurityType::WPA3 => "WPA3"@,
            }),
    {
        match self {
            SecurityType::Open => "Open".to_owned(),
            SecurityType::WEP => "WEP".to_owned(),
            SecurityType::WPA => "WPA".to_owned(),
            SecurityType::WPA2 => "WPA2".to_owned(),
            SecurityType::WPA3 => "WPA3".to_owned(),
        }
    }
}

/// A network without a single flag is open, and one with any security flag is not.
pub proof fn law_open_means_no_flags(flags: u32, wpa_flags: u32, rsn_flags: u32)
    ensures
        SecurityType::of_flags(flags, wpa_flags, rsn_flags) == SecurityType::Open <==> (wpa_flags
            == 0 && rsn_flags == 0 && flags & 0x1 == 0),
{
    assert(0u32 & 0x200 == 0) by (bit_vector);
}

/// What a device is.
#[derive(Clone, Copy, Debug, PartialEq, Eq, Structural)]
pub enum DeviceType {
    Unknown,
    Ethernet,
    Wifi,
}

impl DeviceType {
    /// What a device is, going by its number.
    pub open spec fn of_number(value: u32) -> DeviceType {
        match value {
            1 => DeviceType::Ethernet,
            2 => DeviceType::Wifi,
            _ => DeviceType::Unknown,
        }
    }
}

impl vstd::std_specs::convert::FromSpecImpl<u32> for DeviceType {
    open spec fn obeys_from_spec() -> bool {
        true
    }

    open spec fn from_spec(value: u32) -> DeviceType {
        DeviceType::of_number(value)
    }
}

impl From<u32> for DeviceType {
    fn from(value: u32) -> (r: Self) {
        match value {
            1 => DeviceType::Ethernet,
            2 => DeviceType::Wifi,
            _ => DeviceType::Unknown,
        }
    }
}

/// How long a connection is given to come up, in milliseconds.
pub const CONNECTION_ACTIVATION_TIMEOUT: u64 = 30_000;

/// Why a connection did not come up.
#[derive(Clone, Copy, Debug, PartialEq, Eq, Structural)]
pub enum ActivationError {
    Failed,
    Ended,
    TimedOut,
}

impl ActivationError {
    /// What went wrong, in words.
    pub fn message(&self) -> (r: String)
        ensures
            r@ == (match self {
                ActivationError::Failed => "Connection failed"@,
                ActivationError::Ended => "Connection state stream ended unexpectedly"@,
                ActivationError::TimedOut => "Connection activation timed out"@,
            }),
    {
        match self {
            ActivationError::Failed => "Connection failed".to_owned(),
            ActivationError::Ended => "Connection state stream ended unexpectedly".to_owned(),
            ActivationError::TimedOut => "Connection activation timed out".to_owned(),
        }
    }
}

/// What happens while a connection is coming up.
#[derive(Clone, Copy, Debug, PartialEq, Eq, Structural)]
pub enum ActivationEvent {
    /// The connection is in a state now.
    State { state: u32 },
    /// There will be no more news of it.
    Ended,
    /// It has taken too long.
    TimedOut,
}

/// Where an event leaves a connection that is coming up; nothing while it is still
/// open.
pub open spec fn settled(event: ActivationEvent) -> Option<Result<(), ActivationError>> {
    match event {
        ActivationEvent::State { state: 2 } => Some(Ok(())),
        ActivationEvent::State { state: 4 } => Some(Err(ActivationError::Failed)),
        ActivationEvent::State { .. } => None,
        ActivationEvent::Ended => Some(Err(ActivationError::Ended)),
        ActivationEvent::TimedOut => Some(Err(ActivationError::TimedOut)),
    }
}

/// Waits for a connection to reach the activated or the deactivated state: says
/// whether an event has settled it, and how.
pub fn wait_for_connection_active(event: ActivationEvent) -> (r: Option<
    Result<(), ActivationError>,
>)
    ensures
        r == settled(event),
{
    match event {
        ActivationEvent::State { state } => {
            if state == 2 {
                Some(Ok(()))
            } else if state == 4 {
                Some(Err(ActivationError::Failed))
            } else {
                None
            }
        },
        ActivationEvent::Ended => Some(Err(ActivationError::Ended)),
        ActivationEvent::TimedOut => Some(Err(ActivationError::TimedOut)),
    }
}

/// Whether a scan that was asked for is over: the last one is newer than it was.
pub fn scan_finished(before: i64, now: i64) -> (r: bool)
    ensures
        r == (now > before),
{
    now > before
}

/// The object a property points to. The root object stands for none.
pub fn object_or_none(path: String) -> (r: Option<String>)
    ensures
        crate::text::opt_view(r) == (if path@ == "/"@ {
            None
        } else {
            Some(path@)
        }),
{
    if same(&path, "/") {
        None
    } else {
        Some(path)
    }
}

/// The settings for joining a network with a password: a section, its keys and
/// their values.
#[derive(Debug)]
pub struct Section {
    pub name: String,
    pub keys: Vec<String>,
    pub values: Vec<String>,
}

/// The settings with which a network is joined that takes a password.
pub fn password_settings(password: &str) -> (r: Section)
    ensures
        r.name@ == "802-11-wireless-security"@,
        crate::text::views(r.keys@) == seq!["key-mgmt"@, "psk"@],
        crate::text::views(r.values@) == seq!["wpa-psk"@, password@],
{
    let mut keys: Vec<String> = Vec::new();
    keys.push("key-mgmt".to_owned());
    keys.push("psk".to_owned());
    let mut values: Vec<String> = Vec::new();
    values.push("wpa-psk".to_owned());
    values.push(password.to_owned());
    assert(crate::text::views(keys@) =~= seq!["key-mgmt"@, "psk"@]);
    assert(crate::text::views(values@) =~= seq!["wpa-psk"@, password@]);
    Section { name: "802-11-wireless-security".to_owned(), keys, values }
}

/// The name of a network that its bytes stand for: what `String::from_utf8_lossy`
/// makes of them.
pub uninterp spec fn lossy(bytes: Seq<u8>) -> Seq<char>;

/// `String::from_utf8_lossy` reads bytes as text, with a replacement character for
/// what is not UTF-8. Bytes that are UTF-8 read as what they encode.
#[verifier::external_body]
pub(crate) fn lossy_text(bytes: &Vec<u8>) -> (r: String)
    ensures
        r@ == lossy(bytes@),
        vstd::utf8::valid_utf8(bytes@) ==> r@ == vstd::utf8::decode_utf8(bytes@),
{
    String::from_utf8_lossy(bytes).into_owned()
}

/// A wireless network, as one of its access points offers it.
#[derive(Debug)]
pub struct AccessPoint {
    pub ssid: String,
    pub hw_address: String,
    pub strength: u8,
    pub frequency: u32,
    pub security: SecurityType,
    pub path: String,
}

/// An [`AccessPoint`] as a value.
#[verifier::ext_equal]
pub struct AccessPointView {
    pub ssid: Seq<char>,
    pub hw_address: Seq<char>,
    pub strength: u8,
    pub frequency: u32,
    pub security: SecurityType,
    pub path: Seq<char>,
}

impl View for AccessPoint {
    type V = AccessPointView;

    open spec fn view(&self) -> AccessPointView {
        AccessPointView {
            ssid: self.ssid@,
            hw_address: self.hw_address@,
            strength: self.strength,
            frequency: self.frequency,
            security: self.security,
            path: self.path@,
        }
    }
}

impl Clone for AccessPoint {
    fn clone(&self) -> (r: Self)
        ensures
            r@ == self@,
    {
        AccessPoint {
            ssid: self.ssid.clone(),
            hw_address: self.hw_address.clone(),
            strength: self.strength,
            frequency: self.frequency,
            security: self.security,
            path: self.path.clone(),
        }
    }
}

/// What an access point tells of itself.
#[derive(Debug)]
pub struct Properties {
    pub ssid: Vec<u8>,
    pub hw_address: String,
    pub strength: u8,
    pub frequency: u32,
    pub flags: u32,
    pub wpa_flags: u32,
    pub rsn_flags: u32,
}

impl AccessPoint {
    pub fn new(path: String, properties: Properties) -> (r: Self)
        ensures
            r@ == (AccessPointView {
                ssid: lossy(properties.ssid@),
                hw_address: properties.hw_address@,
                strength: properties.strength,
                frequency: properties.frequency,
                security: SecurityType::of_flags(
                    properties.flags,
                    properties.wpa_flags,
                    properties.rsn_flags,
                ),
                path: path@,
            }),
            vstd::utf8::valid_utf8(properties.ssid@) ==> r.ssid@ == vstd::utf8::decode_utf8(
                properties.ssid@,
            ),
    {
        let security = SecurityType::from_flags(
            properties.flags,
            properties.wpa_flags,
            properties.rsn_flags,
        );
        AccessPoint {
            ssid: lossy_text(&properties.ssid),
            hw_address: properties.hw_address,
            strength: properties.strength,
            frequency: properties.frequency,
            security,
            path,
        }
    }
}

/// A connection that is set up already, and its network's name if it is a wireless
/// one.
#[derive(Debug)]
pub struct SavedConnection {
    pub path: String,
    pub ssid: Option<Vec<u8>>,
}

/// A wireless network that was joined before, and the connection that joins it.
#[derive(Debug)]
pub struct KnownNetwork {
    pub ssid: String,
    pub path: String,
}

/// The wireless networks among the first `n` connections, each with its name and
/// its path.
pub open spec fn known_networks(saved: Seq<SavedConnection>, n: int) -> Seq<(Seq<char>, Seq<char>)>
    decreases n,
{
    if n <= 0 {
        Seq::empty()
    } else {
        match saved[n - 1].ssid {
            Some(ssid) => known_networks(saved, n - 1).push((lossy(ssid@), saved[n - 1].path@)),
            None => known_networks(saved, n - 1),
        }
    }
}

/// Known networks as values.
pub open spec fn known_views(known: Seq<KnownNetwork>) -> Seq<(Seq<char>, Seq<char>)> {
    known.map_values(|k: KnownNetwork| (k.ssid@, k.path@))
}

/// Lists the wireless networks that were joined before.
pub fn get_known_wifi_connections(saved: &Vec<SavedConnection>) -> (r: Vec<KnownNetwork>)
    ensures
        known_views(r@) == known_networks(saved@, saved@.len() as int),
{
    let mut out: Vec<KnownNetwork> = Vec::new();
    assert(known_views(out@) =~= known_networks(saved@, 0));
    for i in 0..saved.len()
        invariant
            known_views(out@) == known_networks(saved@, i as int),
    {
        if let Some(ssid) = &saved[i].ssid {
            let ghost was = out@;
            out.push(KnownNetwork { ssid: lossy_text(ssid), path: saved[i].path.clone() });
            assert(known_views(out@) =~= known_views(was).push(
                (lossy(ssid@), saved@[i as int].path@),
            ));
        }
    }
    out
}

/// Picks the wireless devices out of the devices, each given by its number of type.
pub fn get_wireless_devices(types: &Vec<u32>) -> (r: Vec<usize>)
    ensures
        forall|i: int| 0 <= i < r@.len() ==> (#[trigger] r@[i]) < types@.len(),
        forall|i: int, j: int| 0 <= i < j < r@.len() ==> #[trigger] r@[i] < #[trigger] r@[j],
        forall|k: usize| #[trigger]
            r@.contains(k) <==> k < types@.len() && DeviceType::of_number(types@[k as int])
                == DeviceType::Wifi,
{
    let mut out: Vec<usize> = Vec::new();
    for i in 0..types.len()
        invariant
            forall|j: int| 0 <= j < out@.len() ==> (#[trigger] out@[j]) < i,
            forall|a: int, b: int| 0 <= a < b < out@.len() ==> #[trigger] out@[a] < #[trigger] out@[b],
            forall|k: usize| #[trigger]
                out@.contains(k) <==> k < i && DeviceType::of_number(types@[k as int])
                    == DeviceType::Wifi,
    {
        if DeviceType::from(types[i]) == DeviceType::Wifi {
            let ghost was = out@;
            out.push(i);
            proof {
                assert forall|k: usize| #[trigger] out@.contains(k) <==> k < i + 1
                    && DeviceType::of_number(types@[k as int]) == DeviceType::Wifi by {
                    if k < i && was.contains(k) {
                        let at = choose|at: int| 0 <= at < was.len() && was[at] == k;
                        assert(out@[at] == k);
                    }
                    if k == i {
                        assert(out@[was.len() as int] == k);
                    }
                    if out@.contains(k) {
                        let at = choose|at: int| 0 <= at < out@.len() && out@[at] == k;
                        if at < was.len() {
                            assert(was[at] == k);
                        }
                    }
                }
            }
        }
    }
    out
}

impl SecurityType {
    /// A network is as secure as the newest of what its flags name.
    pub proof fn law_security_is_the_newest(flags: u32, wpa_flags: u32, rsn_flags: u32)
        ensures
            SecurityType::of_flags(flags, wpa_flags, rsn_flags) == SecurityType::WPA3 <==> rsn_flags
                & 0x200 != 0,
            rsn_flags & 0x200 == 0 && rsn_flags != 0 ==> SecurityType::of_flags(
                flags,
                wpa_flags,
                rsn_flags,
            ) == SecurityType::WPA2,
            wpa_flags != 0 ==> SecurityType::of_flags(flags, wpa_flags, 0) == SecurityType::WPA,
            flags & 1 != 0 ==> SecurityType::of_flags(flags, 0, 0) == SecurityType::WEP,
            flags & 1 == 0 ==> SecurityType::of_flags(flags, 0, 0) == SecurityType::Open,
    {
        assert(0u32 & 0x200 == 0) by (bit_vector);
    }
}

impl DeviceType {
    /// Devices are told by the numbers that NetworkManager has for them.
    pub proof fn law_devices_are_told_by_their_numbers(value: u32)
        ensures
            DeviceType::of_number(1) == DeviceType::Ethernet,
            DeviceType::of_number(2) == DeviceType::Wifi,
            value != 1 && value != 2 ==> DeviceType::of_number(value) == DeviceType::Unknown,
    {
    }
}

/// Waiting for a connection ends well once it is active, and badly once it is taken down, the
/// news of it end, or it takes too long; any other state is waited out.
pub proof fn law_connections_are_waited_for(state: u32)
    ensures
        settled(ActivationEvent::State { state: 2 }) == Some(Ok::<(), ActivationError>(())),
        settled(ActivationEvent::State { state: 4 }) == Some(
            Err::<(), ActivationError>(ActivationError::Failed),
        ),
        state != 2 && state != 4 ==> settled(ActivationEvent::State { state }) is None,
        settled(ActivationEvent::Ended) == Some(Err::<(), ActivationError>(ActivationError::Ended)),
        settled(ActivationEvent::TimedOut) == Some(
            Err::<(), ActivationError>(ActivationError::TimedOut),
        ),
        CONNECTION_ACTIVATION_TIMEOUT == 30_000,
{
}

/// Every saved connection of a wireless network is known, under the name of its network.
pub proof fn law_every_wireless_connection_is_known(saved: Seq<SavedConnection>, n: int, i: int)
    requires
        0 <= i < n <= saved.len(),
    ensures
        saved[i].ssid matches Some(ssid) ==> known_networks(saved, n).contains(
            (lossy(ssid@), saved[i].path@),
        ),
    decreases n,
{
    let all = known_networks(saved, n);
    let before = known_networks(saved, n - 1);
    if let Some(ssid) = saved[i].ssid {
        let pair = (lossy(ssid@), saved[i].path@);
        if i < n - 1 {
            law_every_wireless_connection_is_known(saved, n - 1, i);
            let k = choose|k: int| 0 <= k < before.len() && before[k] == pair;
            assert(all[k] == pair);
        } else {
            assert(all.last() == pair);
        }
    }
}

/// Every network that is known has a saved connection.
pub proof fn law_known_networks_are_saved(saved: Seq<SavedConnection>, n: int, k: int)
    requires
        0 <= n <= saved.len(),
        0 <= k < known_networks(saved, n).len(),
    ensures
        exists|j: int|
            0 <= j < n && (#[trigger] saved[j]).ssid is Some && known_networks(saved, n)[k] == (
                lossy(saved[j].ssid->0@),
                saved[j].path@,
            ),
    decreases n,
{
    if n > 0 {
        let before = known_networks(saved, n - 1);
        if k < before.len() {
            law_known_networks_are_saved(saved, n - 1, k);
            let j = choose|j: int|
                0 <= j < n - 1 && (#[trigger] saved[j]).ssid is Some && before[k] == (
                    lossy(saved[j].ssid->0@),
                    saved[j].path@,
                );
            assert(saved[j].ssid is Some);
        } else {
            assert(saved[n - 1].ssid is Some);
        }
    }
}

} // verus!
