//! Wi-Fi networks as NetworkManager describes them, and the actions on them.
use crate::cache::{TimedCache, WriteLock};
use crate::sort::{in_order, sorted_has_the_same_members, stable_sort, stably_sorted, Ranked};
use crate::text::{
    all_digits, begins_with, chars_of, concat2, concat4, copy_list, decode_lossy,
    encoded_texts_are_read_back, ends_with, has_text, is_ascii_hex, is_ascii_number, join, joined,
    joined_holds, lossy_text, lower_text, not_after, occurs_at, opt_str, opt_text, parts_show,
    push_text, same, same_list, text_le, text_le_total, text_le_transitive, texts, to_lowercase,
};
use vstd::prelude::*;
use vstd::utf8::encode_utf8;

verus! {

/// The name of NetworkManager on the bus, and of its main interface.
pub const NM: &'static str = "org.freedesktop.NetworkManager";

/// The interface of a device.
pub const NM_DEVICE: &'static str = "org.freedesktop.NetworkManager.Device";

/// The interface of a Wi-Fi device.
pub const NM_WIRELESS: &'static str = "org.freedesktop.NetworkManager.Device.Wireless";

/// The interface of an access point.
pub const NM_ACCESS_POINT: &'static str = "org.freedesktop.NetworkManager.AccessPoint";

/// The interface of the saved profiles.
pub const NM_SETTINGS: &'static str = "org.freedesktop.NetworkManager.Settings";

/// The interface of a saved profile.
pub const NM_CONNECTION: &'static str = "org.freedesktop.NetworkManager.Settings.Connection";

/// The interface of properties on the bus.
pub const DBUS_PROPERTIES: &'static str = "org.freedesktop.DBus.Properties";

/// The main object of NetworkManager.
pub const NM_PATH: &'static str = "/org/freedesktop/NetworkManager";

/// The object of the saved profiles.
pub const NM_SETTINGS_PATH: &'static str = "/org/freedesktop/NetworkManager/Settings";

/// The name of systemd on the bus.
pub const SYSTEMD: &'static str = "org.freedesktop.systemd1";

/// How long a snapshot stays good, in milliseconds.
pub const NETWORK_CACHE_TTL_MS: u64 = 500;

/// What a second action is told while one is running.
pub const NETWORK_BUSY: &'static str = "another network action is already in progress";

/// The systemd unit of the VLESS tunnel.
pub const VLESS_UNIT: &'static str = "sing-box.service";

/// The object path that stands for no object.
pub const ROOT_OBJECT_PATH: &'static str = "/";

/// NetworkManager's number for Wi-Fi devices.
pub const NM_DEVICE_TYPE_WIFI: u32 = 2;

pub const NM_AP_FLAGS_PRIVACY: u32 = 0x1;

pub const NM_AP_SEC_KEY_MGMT_PSK: u32 = 0x100;

pub const NM_AP_SEC_KEY_MGMT_802_1X: u32 = 0x200;

pub const NM_AP_SEC_KEY_MGMT_SAE: u32 = 0x400;

pub const NM_AP_SEC_KEY_MGMT_OWE: u32 = 0x800;

pub const NM_AP_SEC_KEY_MGMT_OWE_TM: u32 = 0x1000;

pub const NM_AP_SEC_KEY_MGMT_EAP_SUITE_B_192: u32 = 0x2000;

#[derive(Clone, Copy, Debug, PartialEq, Eq, Structural)]
pub enum WifiSecurity {
    Open,
    Wep,
    Personal,
    Sae,
    Owe,
    Enterprise,
}

impl WifiSecurity {
    pub open spec fn wants_password(self) -> bool {
        self is Wep || self is Personal || self is Sae
    }

    pub open spec fn label_text(self) -> Seq<char> {
        match self {
            WifiSecurity::Open => "open"@,
            WifiSecurity::Enterprise => "enterprise"@,
            _ => "secured"@,
        }
    }

    pub fn secured(self) -> (r: bool)
        ensures
            r == !(self is Open),
    {
        match self {
            WifiSecurity::Open => false,
            _ => true,
        }
    }

    pub fn requires_password(self) -> (r: bool)
        ensures
            r == self.wants_password(),
    {
        match self {
            WifiSecurity::Wep | WifiSecurity::Personal | WifiSecurity::Sae => true,
            _ => false,
        }
    }

    pub fn label(self) -> (r: &'static str)
        ensures
            r@ == self.label_text(),
    {
        match self {
            WifiSecurity::Open => "open",
            WifiSecurity::Enterprise => "enterprise",
            _ => "secured",
        }
    }

    /// Whether a connection can be made without a saved profile.
    pub fn supports_new_profile(self) -> (r: bool)
        ensures
            r == !(self is Enterprise),
    {
        match self {
            WifiSecurity::Enterprise => false,
            _ => true,
        }
    }
}

/// The security that an access point's flags announce.
pub open spec fn announced_security(flags: u32, wpa_flags: u32, rsn_flags: u32) -> WifiSecurity {
    let security = wpa_flags | rsn_flags;
    if security & NM_AP_SEC_KEY_MGMT_PSK != 0 {
        WifiSecurity::Personal
    } else if security & NM_AP_SEC_KEY_MGMT_SAE != 0 {
        WifiSecurity::Sae
    } else if security & NM_AP_SEC_KEY_MGMT_OWE != 0 || security & NM_AP_SEC_KEY_MGMT_OWE_TM != 0 {
        WifiSecurity::Owe
    } else if security & NM_AP_SEC_KEY_MGMT_802_1X != 0 || security
        & NM_AP_SEC_KEY_MGMT_EAP_SUITE_B_192 != 0 {
        WifiSecurity::Enterprise
    } else if flags & NM_AP_FLAGS_PRIVACY != 0 {
        WifiSecurity::Wep
    } else {
        WifiSecurity::Open
    }
}

pub fn wifi_security(flags: u32, wpa_flags: u32, rsn_flags: u32) -> (r: WifiSecurity)
    ensures
        r == announced_security(flags, wpa_flags, rsn_flags),
{
    let security: u32 = wpa_flags | rsn_flags;
    if security & NM_AP_SEC_KEY_MGMT_PSK != 0 {
        WifiSecurity::Personal
    } else if security & NM_AP_SEC_KEY_MGMT_SAE != 0 {
        WifiSecurity::Sae
    } else if security & NM_AP_SEC_KEY_MGMT_OWE != 0 || security & NM_AP_SEC_KEY_MGMT_OWE_TM != 0 {
        WifiSecurity::Owe
    } else if security & NM_AP_SEC_KEY_MGMT_802_1X != 0 || security
        & NM_AP_SEC_KEY_MGMT_EAP_SUITE_B_192 != 0 {
        WifiSecurity::Enterprise
    } else if flags & NM_AP_FLAGS_PRIVACY != 0 {
        WifiSecurity::Wep
    } else {
        WifiSecurity::Open
    }
}

#[derive(Clone, Debug, PartialEq, Eq)]
pub struct WifiNetwork {
    pub ssid: String,
    pub signal: u8,
    pub security: WifiSecurity,
    pub saved_paths: Vec<String>,
    pub active: bool,
    pub ap_path: String,
    pub device_path: String,
}

/// The contents of a `WifiNetwork`.
pub struct NetworkModel {
    pub ssid: Seq<char>,
    pub signal: u8,
    pub security: WifiSecurity,
    pub saved_paths: Seq<Seq<char>>,
    pub active: bool,
    pub ap_path: Seq<char>,
    pub device_path: Seq<char>,
}

impl View for WifiNetwork {
    type V = NetworkModel;

    open spec fn view(&self) -> NetworkModel {
        NetworkModel {
            ssid: self.ssid@,
            signal: self.signal,
            security: self.security,
            saved_paths: texts(self.saved_paths@),
            active: self.active,
            ap_path: self.ap_path@,
            device_path: self.device_path@,
        }
    }
}

pub open spec fn network_models(networks: Seq<WifiNetwork>) -> Seq<NetworkModel> {
    networks.map_values(|network: WifiNetwork| network@)
}

impl WifiNetwork {
    pub open spec fn is_saved(self) -> bool {
        self.saved_paths@.len() > 0
    }

    /// Whether NetworkManager has a profile for the network.
    pub fn saved(&self) -> (r: bool)
        ensures
            r == self.is_saved(),
    {
        !self.saved_paths.is_empty()
    }

    pub fn copy(&self) -> (r: Self)
        ensures
            r@ == self@,
            r.is_saved() == self.is_saved(),
    {
        WifiNetwork {
            ssid: self.ssid.clone(),
            signal: self.signal,
            security: self.security,
            saved_paths: copy_list(&self.saved_paths),
            active: self.active,
            ap_path: self.ap_path.clone(),
            device_path: self.device_path.clone(),
        }
    }

    pub fn same_as(&self, other: &Self) -> (r: bool)
        ensures
            r == (self@ == other@),
    {
        same(&self.ssid, &other.ssid) && self.signal == other.signal && self.security
            == other.security && same_list(&self.saved_paths, &other.saved_paths)
            && self.active == other.active && same(&self.ap_path, &other.ap_path) && same(
            &self.device_path,
            &other.device_path,
        )
    }
}

/// The active network first, then the stronger ones, then by name, letter case aside.
impl Ranked for WifiNetwork {
    open spec fn le(&self, other: &Self) -> bool {
        if self.active != other.active {
            self.active
        } else if self.signal != other.signal {
            self.signal > other.signal
        } else {
            text_le(lower_text(self.ssid@), lower_text(other.ssid@))
        }
    }

    proof fn le_total(a: &Self, b: &Self) {
        text_le_total(lower_text(a.ssid@), lower_text(b.ssid@));
    }

    proof fn le_transitive(a: &Self, b: &Self, c: &Self) {
        let (x, y, z) = (lower_text(a.ssid@), lower_text(b.ssid@), lower_text(c.ssid@));
        if text_le(x, y) && text_le(y, z) {
            text_le_transitive(x, y, z);
        }
    }

    fn ranks_le(&self, other: &Self) -> (r: bool) {
        if self.active != other.active {
            return self.active;
        }
        if self.signal != other.signal {
            return self.signal > other.signal;
        }
        let mine = to_lowercase(&self.ssid);
        let theirs = to_lowercase(&other.ssid);
        not_after(&mine, &theirs)
    }
}

#[derive(Clone, Debug, PartialEq, Eq)]
pub struct WifiSnapshot {
    pub available: bool,
    pub enabled: bool,
    pub last_scan: i64,
    pub networks: Vec<WifiNetwork>,
}

impl Default for WifiSnapshot {
    fn default() -> (r: Self)
        ensures
            !r.available,
            !r.enabled,
            r.last_scan == 0,
            r.networks@.len() == 0,
    {
        WifiSnapshot { available: false, enabled: false, last_scan: 0, networks: Vec::new() }
    }
}

#[derive(Clone, Copy, Debug, PartialEq, Eq, Structural)]
pub struct VlessState {
    pub available: bool,
    pub active: bool,
}

impl Default for VlessState {
    fn default() -> (r: Self)
        ensures
            r == (VlessState { available: false, active: false }),
    {
        VlessState { available: false, active: false }
    }
}

/// The state of the tunnel, from what systemd says of its unit.
pub fn vless_state(load_state: &str, active_state: &str) -> (r: VlessState)
    ensures
        r.available == (load_state@.len() > 0 && load_state@ != "not-found"@ && load_state@
            != "error"@ && load_state@ != "masked"@),
        r.active == (r.available && active_state@ == "active"@),
{
    let available = !load_state.is_empty() && !same(load_state, "not-found") && !same(
        load_state,
        "error",
    ) && !same(load_state, "masked");
    VlessState { available, active: available && same(active_state, "active") }
}

/// A device as NetworkManager describes it.
pub struct DeviceFacts {
    pub path: String,
    pub device_type: Option<u32>,
    pub active_connection: Option<String>,
}

pub open spec fn is_wifi(device: DeviceFacts) -> bool {
    device.device_type == Some(NM_DEVICE_TYPE_WIFI)
}

pub open spec fn is_connected(device: DeviceFacts) -> bool {
    device.active_connection matches Some(path) && path@ != ROOT_OBJECT_PATH@
}

/// Whether device `i` is the Wi-Fi device to use: the first that is connected, else the first.
pub open spec fn chosen_device(devices: Seq<DeviceFacts>, i: int) -> bool {
    &&& 0 <= i < devices.len()
    &&& is_wifi(devices[i])
    &&& if is_connected(devices[i]) {
        forall|j: int| 0 <= j < i ==> !(is_wifi(#[trigger] devices[j]) && is_connected(devices[j]))
    } else {
        &&& forall|j: int|
            0 <= j < devices.len() ==> !(is_wifi(#[trigger] devices[j]) && is_connected(devices[j]))
        &&& forall|j: int| 0 <= j < i ==> !is_wifi(#[trigger] devices[j])
    }
}

/// Whether none of the devices is a Wi-Fi device.
pub open spec fn has_no_wifi(devices: Seq<DeviceFacts>) -> bool {
    forall|i: int| 0 <= i < devices.len() ==> !is_wifi(#[trigger] devices[i])
}

/// Picks the Wi-Fi device to use.
pub fn find_wifi_device(devices: &Vec<DeviceFacts>) -> (r: Option<usize>)
    ensures
        match r {
            Some(i) => chosen_device(devices@, i as int),
            None => has_no_wifi(devices@),
        },
{
    let mut fallback: Option<usize> = None;
    let mut i: usize = 0;
    while i < devices.len()
        invariant
            i <= devices@.len(),
            forall|j: int|
                0 <= j < i ==> !(is_wifi(#[trigger] devices@[j]) && is_connected(devices@[j])),
            match fallback {
                Some(k) => k < i && is_wifi(devices@[k as int]) && forall|j: int|
                    0 <= j < k ==> !is_wifi(#[trigger] devices@[j]),
                None => forall|j: int| 0 <= j < i ==> !is_wifi(#[trigger] devices@[j]),
            },
        decreases devices@.len() - i,
    {
        let device = &devices[i];
        let wifi = match device.device_type {
            Some(kind) => kind == NM_DEVICE_TYPE_WIFI,
            None => false,
        };
        if wifi {
            if fallback.is_none() {
                fallback = Some(i);
            }
            if let Some(path) = &device.active_connection {
                if !same(path, ROOT_OBJECT_PATH) {
                    return Some(i);
                }
            }
        }
        i = i + 1;
    }
    fallback
}

/// An access point as NetworkManager describes it.
pub struct AccessPointFacts {
    pub path: String,
    pub ssid: Option<Vec<u8>>,
    pub strength: Option<u8>,
    pub flags: Option<u32>,
    pub wpa_flags: Option<u32>,
    pub rsn_flags: Option<u32>,
}

/// The best access point of a network so far.
#[derive(Clone, Debug, PartialEq, Eq)]
pub struct AccessPointCandidate {
    pub signal: u8,
    pub security: WifiSecurity,
    pub active: bool,
    pub ap_path: String,
}

/// The contents of an `AccessPointCandidate`.
pub struct CandidateModel {
    pub signal: u8,
    pub security: WifiSecurity,
    pub active: bool,
    pub ap_path: Seq<char>,
}

impl View for AccessPointCandidate {
    type V = CandidateModel;

    open spec fn view(&self) -> CandidateModel {
        CandidateModel {
            signal: self.signal,
            security: self.security,
            active: self.active,
            ap_path: self.ap_path@,
        }
    }
}

/// Whether `candidate` is to take the place of `existing`: the active one wins, then the
/// stronger.
pub open spec fn is_better(candidate: CandidateModel, existing: CandidateModel) -> bool {
    candidate.active && !existing.active || candidate.active == existing.active && candidate.signal
        > existing.signal
}

/// Keeps the better of two access points of one network.
pub fn merge_access_point(existing: &mut AccessPointCandidate, candidate: AccessPointCandidate)
    ensures
        final(existing)@ == (if is_better(candidate@, old(existing)@) {
            candidate@
        } else {
            old(existing)@
        }),
{
    if candidate.active && !existing.active || candidate.active == existing.active
        && candidate.signal > existing.signal {
        *existing = candidate;
    }
}

/// The name of a network, where it has one.
pub open spec fn ssid_text(bytes: Option<Vec<u8>>) -> Option<Seq<char>> {
    match bytes {
        Some(bytes) => if lossy_text(bytes@).len() > 0 {
            Some(lossy_text(bytes@))
        } else {
            None
        },
        None => None,
    }
}

/// A network is found under the very name that its bytes encode, white space included.
pub proof fn network_names_are_kept(bytes: Vec<u8>, name: Seq<char>)
    requires
        bytes@ == encode_utf8(name),
    ensures
        ssid_text(Some(bytes)) == (if name.len() > 0 {
            Some(name)
        } else {
            None
        }),
{
    encoded_texts_are_read_back(name);
}

pub fn ssid_from_bytes(bytes: &Vec<u8>) -> (r: Option<String>)
    ensures
        opt_text(r) == (if lossy_text(bytes@).len() > 0 {
            Some(lossy_text(bytes@))
        } else {
            None
        }),
{
    named_ssid(decode_lossy(bytes))
}

/// The name of a network, where it is not empty.
pub fn named_ssid(ssid: String) -> (r: Option<String>)
    ensures
        opt_text(r) == (if ssid@.len() > 0 {
            Some(ssid@)
        } else {
            None
        }),
{
    if ssid.as_str().is_empty() {
        None
    } else {
        Some(ssid)
    }
}

/// A number that is 0 where it is not told.
pub open spec fn or_zero(value: Option<u32>) -> u32 {
    match value {
        Some(n) => n,
        None => 0,
    }
}

/// The candidate that an access point makes, where the device uses the access point at
/// `active_path`.
pub open spec fn candidate_of(point: AccessPointFacts, active_path: Seq<char>) -> CandidateModel {
    CandidateModel {
        signal: match point.strength {
            Some(n) => n,
            None => 0,
        },
        security: announced_security(
            or_zero(point.flags),
            or_zero(point.wpa_flags),
            or_zero(point.rsn_flags),
        ),
        active: active_path != ROOT_OBJECT_PATH@ && active_path == point.path@,
        ap_path: point.path@,
    }
}

/// The position, from `i` on, of the network with the name.
pub open spec fn find_ssid(found: Seq<(Seq<char>, CandidateModel)>, ssid: Seq<char>, i: int) -> Option<
    int,
>
    decreases found.len() - i,
{
    if i < 0 || i >= found.len() {
        None
    } else if found[i].0 == ssid {
        Some(i)
    } else {
        find_ssid(found, ssid, i + 1)
    }
}

/// The networks with one more access point.
pub open spec fn with_point(
    found: Seq<(Seq<char>, CandidateModel)>,
    ssid: Seq<char>,
    candidate: CandidateModel,
) -> Seq<(Seq<char>, CandidateModel)> {
    match find_ssid(found, ssid, 0) {
        Some(i) => if is_better(candidate, found[i].1) {
            found.update(i, (ssid, candidate))
        } else {
            found
        },
        None => found.push((ssid, candidate)),
    }
}

/// The networks of the access points, each with its best access point.
pub open spec fn merged(points: Seq<AccessPointFacts>, active_path: Seq<char>) -> Seq<
    (Seq<char>, CandidateModel),
>
    decreases points.len(),
{
    if points.len() == 0 {
        Seq::empty()
    } else {
        let before = merged(points.drop_last(), active_path);
        match ssid_text(points.last().ssid) {
            Some(ssid) => with_point(before, ssid, candidate_of(points.last(), active_path)),
            None => before,
        }
    }
}

pub open spec fn candidates_of(found: Seq<(String, AccessPointCandidate)>) -> Seq<
    (Seq<char>, CandidateModel),
> {
    found.map_values(|pair: (String, AccessPointCandidate)| (pair.0@, pair.1@))
}

/// Collects the networks of the access points.
pub fn collect_access_points(points: &Vec<AccessPointFacts>, active_path: &str) -> (r: Vec<
    (String, AccessPointCandidate),
>)
    ensures
        candidates_of(r@) == merged(points@, active_path@),
{
    let mut found: Vec<(String, AccessPointCandidate)> = Vec::new();
    let mut i: usize = 0;
    assert(points@.take(0) =~= Seq::<AccessPointFacts>::empty());
    assert(candidates_of(found@) =~= Seq::<(Seq<char>, CandidateModel)>::empty());
    while i < points.len()
        invariant
            i <= points@.len(),
            candidates_of(found@) == merged(points@.take(i as int), active_path@),
        decreases points@.len() - i,
    {
        assert(points@.take(i as int + 1).drop_last() =~= points@.take(i as int));
        let point = &points[i];
        let ssid = match &point.ssid {
            Some(bytes) => ssid_from_bytes(bytes),
            None => None,
        };
        if let Some(ssid) = ssid {
            let candidate = AccessPointCandidate {
                signal: point.strength.unwrap_or(0),
                security: wifi_security(
                    point.flags.unwrap_or(0),
                    point.wpa_flags.unwrap_or(0),
                    point.rsn_flags.unwrap_or(0),
                ),
                active: !same(active_path, ROOT_OBJECT_PATH) && same(active_path, &point.path),
                ap_path: point.path.clone(),
            };
            add_candidate(&mut found, ssid, candidate);
        }
        i = i + 1;
    }
    assert(points@.take(points@.len() as int) =~= points@);
    found
}

fn add_candidate(
    found: &mut Vec<(String, AccessPointCandidate)>,
    ssid: String,
    candidate: AccessPointCandidate,
)
    ensures
        candidates_of(final(found)@) == with_point(
            candidates_of(old(found)@),
            ssid@,
            candidate@,
        ),
{
    let ghost before = candidates_of(found@);
    let mut i: usize = 0;
    while i < found.len()
        invariant
            found@ == old(found)@,
            before == candidates_of(found@),
            i <= found@.len(),
            find_ssid(before, ssid@, 0) == find_ssid(before, ssid@, i as int),
        decreases found@.len() - i,
    {
        if same(&found[i].0, &ssid) {
            let mut pair = found.remove(i);
            let ghost old_candidate = pair.1@;
            merge_access_point(&mut pair.1, candidate);
            found.insert(i, pair);
            proof {
                assert(before[i as int] == (ssid@, old_candidate));
                if is_better(candidate@, old_candidate) {
                    assert(candidates_of(found@) =~= before.update(
                        i as int,
                        (ssid@, candidate@),
                    ));
                } else {
                    assert(candidates_of(found@) =~= before);
                }
            }
            return ;
        }
        i = i + 1;
    }
    found.push((ssid, candidate));
    assert(candidates_of(found@) =~= before.push((ssid@, candidate@)));
}

/// Whether a network of the name is found with an access point that `candidate` does not beat.
pub open spec fn holds_against(
    found: Seq<(Seq<char>, CandidateModel)>,
    ssid: Seq<char>,
    candidate: CandidateModel,
) -> bool {
    exists|i: int|
        0 <= i < found.len() && (#[trigger] found[i]).0 == ssid && !is_better(candidate, found[i].1)
}

/// Whether an access point of the list has the name and the rest of `entry`.
pub open spec fn comes_from(
    points: Seq<AccessPointFacts>,
    active_path: Seq<char>,
    entry: (Seq<char>, CandidateModel),
) -> bool {
    exists|k: int|
        0 <= k < points.len() && ssid_text((#[trigger] points[k]).ssid) == Some(entry.0)
            && candidate_of(points[k], active_path) == entry.1
}

/// Each network is found once, under a name that is not empty.
pub proof fn networks_are_found_once(points: Seq<AccessPointFacts>, active_path: Seq<char>)
    ensures
        forall|i: int, j: int|
            #![trigger merged(points, active_path)[i], merged(points, active_path)[j]]
            0 <= i < j < merged(points, active_path).len() ==> merged(points, active_path)[i].0
                != merged(points, active_path)[j].0,
        forall|i: int|
            0 <= i < merged(points, active_path).len() ==> (#[trigger] merged(
                points,
                active_path,
            )[i]).0.len() > 0,
    decreases points.len(),
{
    let found = merged(points, active_path);
    if points.len() > 0 {
        let before = merged(points.drop_last(), active_path);
        networks_are_found_once(points.drop_last(), active_path);
        if let Some(ssid) = ssid_text(points.last().ssid) {
            find_ssid_is_first(before, ssid, 0);
            assert forall|i: int, j: int|
                #![trigger found[i], found[j]]
                0 <= i < j < found.len() implies found[i].0 != found[j].0 by {
                if j < before.len() {
                    assert(found[i].0 == before[i].0);
                    assert(found[j].0 == before[j].0);
                    assert(before[i].0 != before[j].0);
                } else {
                    assert(found[i].0 == before[i].0);
                }
            }
            assert forall|i: int| 0 <= i < found.len() implies (#[trigger] found[i]).0.len() > 0 by {
                if i < before.len() {
                    assert(found[i].0 == before[i].0);
                }
            }
        }
    }
}

/// None of a network's access points is better than the one it is found with.
pub proof fn networks_are_found_at_their_best(
    points: Seq<AccessPointFacts>,
    active_path: Seq<char>,
    k: int,
)
    requires
        0 <= k < points.len(),
        ssid_text(points[k].ssid) is Some,
    ensures
        holds_against(
            merged(points, active_path),
            ssid_text(points[k].ssid)->0,
            candidate_of(points[k], active_path),
        ),
    decreases points.len(),
{
    let found = merged(points, active_path);
    let before = merged(points.drop_last(), active_path);
    let name = ssid_text(points[k].ssid)->0;
    let candidate = candidate_of(points[k], active_path);
    if k < points.len() - 1 {
        assert(points.drop_last()[k] == points[k]);
        networks_are_found_at_their_best(points.drop_last(), active_path, k);
        let i = choose|i: int|
            0 <= i < before.len() && (#[trigger] before[i]).0 == name && !is_better(
                candidate,
                before[i].1,
            );
        match ssid_text(points.last().ssid) {
            Some(ssid) => {
                find_ssid_is_first(before, ssid, 0);
                assert(found[i].0 == name && !is_better(candidate, found[i].1));
            },
            None => {
                assert(found[i].0 == name && !is_better(candidate, found[i].1));
            },
        }
    } else {
        find_ssid_is_first(before, name, 0);
        match find_ssid(before, name, 0) {
            Some(i) => {
                assert(found[i].0 == name && !is_better(candidate, found[i].1));
            },
            None => {
                assert(found[before.len() as int].0 == name);
            },
        }
    }
}

/// A network is found with one of its own access points.
pub proof fn networks_come_from_access_points(
    points: Seq<AccessPointFacts>,
    active_path: Seq<char>,
    i: int,
)
    requires
        0 <= i < merged(points, active_path).len(),
    ensures
        comes_from(points, active_path, merged(points, active_path)[i]),
    decreases points.len(),
{
    if points.len() > 0 {
        let found = merged(points, active_path);
        let rest = points.drop_last();
        let before = merged(rest, active_path);
        if let Some(ssid) = ssid_text(points.last().ssid) {
            find_ssid_is_first(before, ssid, 0);
        }
        if i < before.len() && found[i] == before[i] {
            networks_come_from_access_points(rest, active_path, i);
            let k = choose|k: int|
                0 <= k < rest.len() && ssid_text((#[trigger] rest[k]).ssid) == Some(before[i].0)
                    && candidate_of(rest[k], active_path) == before[i].1;
            assert(points[k] == rest[k]);
        } else {
            assert(ssid_text(points[points.len() - 1].ssid) == Some(found[i].0));
        }
    }
}

proof fn find_ssid_is_first(found: Seq<(Seq<char>, CandidateModel)>, ssid: Seq<char>, i: int)
    requires
        0 <= i <= found.len(),
    ensures
        match find_ssid(found, ssid, i) {
            Some(k) => i <= k < found.len() && found[k].0 == ssid,
            None => forall|k: int| i <= k < found.len() ==> (#[trigger] found[k]).0 != ssid,
        },
    decreases found.len() - i,
{
    if i < found.len() && found[i].0 != ssid {
        find_ssid_is_first(found, ssid, i + 1);
    }
}

/// A saved profile as NetworkManager describes it.
pub struct ProfileFacts {
    pub path: String,
    pub connection_type: Option<String>,
    pub ssid: Option<Vec<u8>>,
}

/// The network that a profile is for.
pub open spec fn profile_ssid(profile: ProfileFacts) -> Option<Seq<char>> {
    if opt_text(profile.connection_type) == Some("802-11-wireless"@) {
        ssid_text(profile.ssid)
    } else {
        None
    }
}

/// The paths of the profiles for a network, in the order of the profiles.
pub open spec fn paths_for(profiles: Seq<ProfileFacts>, ssid: Seq<char>) -> Seq<Seq<char>>
    decreases profiles.len(),
{
    if profiles.len() == 0 {
        Seq::empty()
    } else {
        let before = paths_for(profiles.drop_last(), ssid);
        if profile_ssid(profiles.last()) == Some(ssid) {
            before.push(profiles.last().path@)
        } else {
            before
        }
    }
}

/// The paths of the profiles of each network.
#[derive(Clone, Debug, PartialEq, Eq)]
pub struct SavedWifi {
    pub entries: Vec<(String, Vec<String>)>,
}

impl SavedWifi {
    /// The paths of the entry for the network, from entry `i` on.
    pub open spec fn lookup(entries: Seq<(String, Vec<String>)>, ssid: Seq<char>, i: int) -> Seq<
        Seq<char>,
    >
        decreases entries.len() - i,
    {
        if i < 0 || i >= entries.len() {
            Seq::empty()
        } else if entries[i].0@ == ssid {
            texts(entries[i].1@)
        } else {
            Self::lookup(entries, ssid, i + 1)
        }
    }

    /// The paths of the profiles for a network.
    pub open spec fn paths(&self, ssid: Seq<char>) -> Seq<Seq<char>> {
        Self::lookup(self.entries@, ssid, 0)
    }

    pub fn new() -> (r: Self)
        ensures
            forall|ssid: Seq<char>| #[trigger] r.paths(ssid) == Seq::<Seq<char>>::empty(),
    {
        SavedWifi { entries: Vec::new() }
    }

    pub fn get(&self, ssid: &str) -> (r: Vec<String>)
        ensures
            texts(r@) == self.paths(ssid@),
    {
        let mut i: usize = 0;
        while i < self.entries.len()
            invariant
                i <= self.entries@.len(),
                self.paths(ssid@) == Self::lookup(self.entries@, ssid@, i as int),
            decreases self.entries@.len() - i,
        {
            if same(&self.entries[i].0, ssid) {
                return copy_list(&self.entries[i].1);
            }
            i = i + 1;
        }
        let none: Vec<String> = Vec::new();
        assert(texts(none@) =~= Seq::<Seq<char>>::empty());
        none
    }

    fn append(&mut self, ssid: String, path: String)
        ensures
            forall|name: Seq<char>|
                #[trigger] final(self).paths(name) == (if name == ssid@ {
                    old(self).paths(name).push(path@)
                } else {
                    old(self).paths(name)
                }),
    {
        let ghost before = self.entries@;
        let mut i: usize = 0;
        while i < self.entries.len()
            invariant
                self.entries@ == before,
                before == old(self).entries@,
                i <= before.len(),
                forall|k: int| 0 <= k < i ==> (#[trigger] before[k]).0@ != ssid@,
            decreases before.len() - i,
        {
            if same(&self.entries[i].0, &ssid) {
                let (name, mut paths) = self.entries.remove(i);
                let ghost old_paths = texts(paths@);
                paths.push(path);
                assert(texts(paths@) =~= old_paths.push(path@));
                self.entries.insert(i, (name, paths));
                proof {
                    let after = self.entries@;
                    assert(after =~= before.update(i as int, (name, paths)));
                    assert forall|n: Seq<char>| #[trigger] Self::lookup(after, n, 0) == (if n
                        == ssid@ {
                        Self::lookup(before, n, 0).push(path@)
                    } else {
                        Self::lookup(before, n, 0)
                    }) by {
                        lookup_update(before, after, i as int, n, 0);
                        if n == ssid@ {
                            lookup_skip(before, n, 0, i as int);
                            lookup_skip(after, n, 0, i as int);
                        }
                    }
                }
                return ;
            }
            i = i + 1;
        }
        let mut paths: Vec<String> = Vec::new();
        paths.push(path);
        assert(texts(paths@) =~= Seq::<Seq<char>>::empty().push(path@));
        self.entries.push((ssid, paths));
        proof {
            let after = self.entries@;
            let last = before.len() as int;
            assert forall|n: Seq<char>| #[trigger] Self::lookup(after, n, 0) == (if n == ssid@ {
                Self::lookup(before, n, 0).push(path@)
            } else {
                Self::lookup(before, n, 0)
            }) by {
                if n == ssid@ {
                    lookup_skip(before, n, 0, last);
                    lookup_skip(after, n, 0, last);
                } else {
                    lookup_push(before, after, n, 0);
                }
            }
        }
    }

    /// Groups the saved profiles by network.
    pub fn from_profiles(profiles: &Vec<ProfileFacts>) -> (r: Self)
        ensures
            forall|ssid: Seq<char>| #[trigger] r.paths(ssid) == paths_for(profiles@, ssid),
    {
        let mut saved = SavedWifi::new();
        let mut i: usize = 0;
        assert(profiles@.take(0) =~= Seq::<ProfileFacts>::empty());
        while i < profiles.len()
            invariant
                i <= profiles@.len(),
                forall|ssid: Seq<char>| #[trigger]
                    saved.paths(ssid) == paths_for(profiles@.take(i as int), ssid),
            decreases profiles@.len() - i,
        {
            assert(profiles@.take(i as int + 1).drop_last() =~= profiles@.take(i as int));
            let profile = &profiles[i];
            let wireless = match &profile.connection_type {
                Some(kind) => same(kind, "802-11-wireless"),
                None => false,
            };
            if wireless {
                if let Some(bytes) = &profile.ssid {
                    if let Some(ssid) = ssid_from_bytes(bytes) {
                        saved.append(ssid, profile.path.clone());
                    }
                }
            }
            i = i + 1;
        }
        assert(profiles@.take(profiles@.len() as int) =~= profiles@);
        saved
    }

    pub fn copy(&self) -> (r: Self)
        ensures
            forall|ssid: Seq<char>| #[trigger] r.paths(ssid) == self.paths(ssid),
    {
        let mut out: Vec<(String, Vec<String>)> = Vec::new();
        let mut i: usize = 0;
        while i < self.entries.len()
            invariant
                i <= self.entries@.len(),
                out@.len() == i,
                forall|k: int|
                    0 <= k < i ==> (#[trigger] out@[k]).0@ == self.entries@[k].0@ && texts(
                        out@[k].1@,
                    ) == texts(self.entries@[k].1@),
            decreases self.entries@.len() - i,
        {
            out.push((self.entries[i].0.clone(), copy_list(&self.entries[i].1)));
            i = i + 1;
        }
        proof {
            assert forall|ssid: Seq<char>| #[trigger] Self::lookup(out@, ssid, 0) == Self::lookup(
                self.entries@,
                ssid,
                0,
            ) by {
                lookup_alike(out@, self.entries@, ssid, 0);
            }
        }
        SavedWifi { entries: out }
    }
}

proof fn lookup_skip(entries: Seq<(String, Vec<String>)>, ssid: Seq<char>, i: int, j: int)
    requires
        0 <= i <= j <= entries.len(),
        forall|k: int| i <= k < j ==> (#[trigger] entries[k]).0@ != ssid,
    ensures
        SavedWifi::lookup(entries, ssid, i) == SavedWifi::lookup(entries, ssid, j),
    decreases j - i,
{
    if i < j {
        lookup_skip(entries, ssid, i + 1, j);
    }
}

proof fn lookup_update(
    before: Seq<(String, Vec<String>)>,
    after: Seq<(String, Vec<String>)>,
    at: int,
    ssid: Seq<char>,
    i: int,
)
    requires
        0 <= i <= before.len(),
        0 <= at < before.len(),
        after.len() == before.len(),
        after[at].0@ == before[at].0@,
        forall|k: int| 0 <= k < before.len() && k != at ==> #[trigger] after[k] == before[k],
    ensures
        ssid != before[at].0@ ==> SavedWifi::lookup(after, ssid, i) == SavedWifi::lookup(
            before,
            ssid,
            i,
        ),
    decreases before.len() - i,
{
    if i < before.len() {
        lookup_update(before, after, at, ssid, i + 1);
    }
}

proof fn lookup_push(
    before: Seq<(String, Vec<String>)>,
    after: Seq<(String, Vec<String>)>,
    ssid: Seq<char>,
    i: int,
)
    requires
        0 <= i <= before.len(),
        after.len() == before.len() + 1,
        forall|k: int| 0 <= k < before.len() ==> #[trigger] after[k] == before[k],
        after.last().0@ != ssid,
    ensures
        SavedWifi::lookup(after, ssid, i) == SavedWifi::lookup(before, ssid, i),
    decreases before.len() - i,
{
    if i < before.len() {
        lookup_push(before, after, ssid, i + 1);
    } else {
        assert(SavedWifi::lookup(after, ssid, i + 1) == Seq::<Seq<char>>::empty());
    }
}

proof fn lookup_alike(
    a: Seq<(String, Vec<String>)>,
    b: Seq<(String, Vec<String>)>,
    ssid: Seq<char>,
    i: int,
)
    requires
        0 <= i <= a.len(),
        a.len() == b.len(),
        forall|k: int|
            0 <= k < a.len() ==> (#[trigger] a[k]).0@ == b[k].0@ && texts(a[k].1@) == texts(
                b[k].1@,
            ),
    ensures
        SavedWifi::lookup(a, ssid, i) == SavedWifi::lookup(b, ssid, i),
    decreases a.len() - i,
{
    if i < a.len() {
        lookup_alike(a, b, ssid, i + 1);
    }
}

/// The network for a name and its best access point.
pub open spec fn network_of(
    found: (Seq<char>, CandidateModel),
    saved: SavedWifi,
    device_path: Seq<char>,
) -> NetworkModel {
    NetworkModel {
        ssid: found.0,
        signal: found.1.signal,
        security: found.1.security,
        saved_paths: saved.paths(found.0),
        active: found.1.active,
        ap_path: found.1.ap_path,
        device_path,
    }
}

/// The networks for the names and their best access points.
pub open spec fn network_list(
    found: Seq<(Seq<char>, CandidateModel)>,
    saved: SavedWifi,
    device_path: Seq<char>,
) -> Seq<NetworkModel> {
    found.map_values(|pair: (Seq<char>, CandidateModel)| network_of(pair, saved, device_path))
}

/// The networks in the order of display.
pub fn build_networks(
    found: &Vec<(String, AccessPointCandidate)>,
    saved: &SavedWifi,
    device_path: &str,
) -> (r: Vec<WifiNetwork>)
    ensures
        exists|unsorted: Seq<WifiNetwork>|
            {
                &&& network_models(unsorted) == network_list(
                    candidates_of(found@),
                    *saved,
                    device_path@,
                )
                &&& #[trigger] stably_sorted(unsorted, r@)
            },
{
    let mut networks: Vec<WifiNetwork> = Vec::new();
    let mut i: usize = 0;
    while i < found.len()
        invariant
            i <= found@.len(),
            networks@.len() == i,
            forall|k: int|
                0 <= k < i ==> (#[trigger] networks@[k])@ == network_of(
                    candidates_of(found@)[k],
                    *saved,
                    device_path@,
                ),
        decreases found@.len() - i,
    {
        let pair = &found[i];
        let network = WifiNetwork {
            ssid: pair.0.clone(),
            signal: pair.1.signal,
            security: pair.1.security,
            saved_paths: saved.get(&pair.0),
            active: pair.1.active,
            ap_path: pair.1.ap_path.clone(),
            device_path: device_path.to_owned(),
        };
        networks.push(network);
        i = i + 1;
    }
    assert(network_models(networks@) =~= network_list(
        candidates_of(found@),
        *saved,
        device_path@,
    ));
    stable_sort(networks)
}

/// The snapshot where no networks are read: there is no device, or Wi-Fi is off.
pub fn snapshot_without_networks(device_found: bool, enabled: bool) -> (r: Option<WifiSnapshot>)
    ensures
        match r {
            Some(snapshot) => (!device_found || !enabled) && snapshot.available == device_found
                && snapshot.enabled == (enabled && !device_found) && snapshot.last_scan == -1
                && snapshot.networks@.len() == 0,
            None => device_found && enabled,
        },
{
    if !device_found {
        return Some(
            WifiSnapshot { available: false, enabled, last_scan: -1, networks: Vec::new() },
        );
    }
    if !enabled {
        return Some(
            WifiSnapshot { available: true, enabled: false, last_scan: -1, networks: Vec::new() },
        );
    }
    None
}

/// A Wi-Fi device that is on, as NetworkManager describes it.
pub struct WirelessFacts {
    pub device_path: String,
    pub active_access_point: Option<String>,
    pub last_scan: Option<i64>,
    pub access_points: Vec<AccessPointFacts>,
}

impl WirelessFacts {
    /// The path of the access point in use, or the path that stands for no object.
    pub open spec fn active_path(&self) -> Seq<char> {
        match self.active_access_point {
            Some(path) => path@,
            None => ROOT_OBJECT_PATH@,
        }
    }

    /// The networks of the device, each with its best access point.
    pub open spec fn found(&self) -> Seq<(Seq<char>, CandidateModel)> {
        merged(self.access_points@, self.active_path())
    }

    fn collect(&self) -> (r: Vec<(String, AccessPointCandidate)>)
        ensures
            candidates_of(r@) == self.found(),
    {
        match &self.active_access_point {
            Some(path) => collect_access_points(&self.access_points, path),
            None => collect_access_points(&self.access_points, ROOT_OBJECT_PATH),
        }
    }

    /// Whether the saved profiles are needed for a snapshot: some network was found.
    pub fn needs_profiles(&self) -> (r: bool)
        ensures
            r == (self.found().len() > 0),
    {
        let found = self.collect();
        assert(candidates_of(found@).len() == found@.len());
        !found.is_empty()
    }
}

/// The snapshot of a device that is on.
pub fn snapshot_with_networks(facts: &WirelessFacts, saved: &SavedWifi) -> (r: WifiSnapshot)
    ensures
        r.available,
        r.enabled,
        r.last_scan == (match facts.last_scan {
            Some(time) => time,
            None => -1i64,
        }),
        exists|unsorted: Seq<WifiNetwork>|
            {
                &&& network_models(unsorted) == network_list(
                    facts.found(),
                    *saved,
                    facts.device_path@,
                )
                &&& #[trigger] stably_sorted(unsorted, r.networks@)
            },
{
    let found = facts.collect();
    let networks = build_networks(&found, saved, &facts.device_path);
    let snapshot = WifiSnapshot {
        available: true,
        enabled: true,
        last_scan: facts.last_scan.unwrap_or(-1),
        networks,
    };
    proof {
        let unsorted = choose|unsorted: Seq<WifiNetwork>|
            {
                &&& network_models(unsorted) == network_list(
                    candidates_of(found@),
                    *saved,
                    facts.device_path@,
                )
                &&& #[trigger] stably_sorted(unsorted, networks@)
            };
        assert(stably_sorted(unsorted, snapshot.networks@));
    }
    snapshot
}

/// The network in use, where there is one, comes first in a list that is in order.
pub proof fn active_network_comes_first(networks: Seq<WifiNetwork>, i: int)
    requires
        in_order(networks),
        0 <= i < networks.len(),
        networks[i].active,
    ensures
        networks[0].active,
{
    if i > 0 {
        assert(networks[0].le(&networks[i]));
    }
}

/// The profiles of the networks, with the version of NetworkManager's settings they belong to.
pub struct SavedWifiCache {
    pub version: Option<u64>,
    pub profiles: SavedWifi,
}

impl SavedWifiCache {
    /// Whether nothing is known.
    pub open spec fn is_blank(&self) -> bool {
        &&& self.version is None
        &&& forall|ssid: Seq<char>| #[trigger]
            self.profiles.paths(ssid) == Seq::<Seq<char>>::empty()
    }
}

/// A value of a setting.
#[derive(Clone, Debug, PartialEq, Eq)]
pub enum SettingValue {
    Text(String),
    Bytes(String),
    Number(u32),
}

/// The contents of a `SettingValue`; bytes are those of the text in UTF-8.
pub enum ValueModel {
    Text(Seq<char>),
    Bytes(Seq<char>),
    Number(u32),
}

impl View for SettingValue {
    type V = ValueModel;

    open spec fn view(&self) -> ValueModel {
        match *self {
            SettingValue::Text(text) => ValueModel::Text(text@),
            SettingValue::Bytes(text) => ValueModel::Bytes(text@),
            SettingValue::Number(n) => ValueModel::Number(n),
        }
    }
}

/// A setting: its section, its key and its value.
#[derive(Clone, Debug, PartialEq, Eq)]
pub struct Setting {
    pub section: &'static str,
    pub key: &'static str,
    pub value: SettingValue,
}

pub open spec fn setting(section: Seq<char>, key: Seq<char>, value: ValueModel) -> (
    Seq<char>,
    Seq<char>,
    ValueModel,
) {
    (section, key, value)
}

impl View for Setting {
    type V = (Seq<char>, Seq<char>, ValueModel);

    open spec fn view(&self) -> (Seq<char>, Seq<char>, ValueModel) {
        setting(self.section@, self.key@, self.value@)
    }
}

pub open spec fn settings_of(settings: Seq<Setting>) -> Seq<(Seq<char>, Seq<char>, ValueModel)> {
    settings.map_values(|s: Setting| s@)
}

/// Whether a WEP secret is a raw key, 1, or a passphrase, 2.
pub open spec fn wep_kind(secret: Seq<char>) -> u32 {
    let ascii_key = (secret.len() == 5 || secret.len() == 13) && forall|i: int|
        0 <= i < secret.len() ==> (#[trigger] secret[i] as u32) < 128;
    let hex_key = (secret.len() == 10 || secret.len() == 26) && forall|i: int|
        0 <= i < secret.len() ==> is_ascii_hex(#[trigger] secret[i]);
    if ascii_key || hex_key {
        1
    } else {
        2
    }
}

pub fn wep_key_type(secret: &str) -> (r: u32)
    ensures
        r == wep_kind(secret@),
{
    let chars = chars_of(secret);
    let mut ascii = true;
    let mut hex = true;
    let mut i: usize = 0;
    while i < chars.len()
        invariant
            chars@ == secret@,
            i <= chars@.len(),
            ascii == forall|k: int| 0 <= k < i ==> (#[trigger] secret@[k] as u32) < 128,
            hex == forall|k: int| 0 <= k < i ==> is_ascii_hex(#[trigger] secret@[k]),
        decreases chars@.len() - i,
    {
        let c = chars[i];
        if !((c as u32) < 128) {
            assert(!((secret@[i as int] as u32) < 128));
            ascii = false;
        }
        if !(('0' <= c && c <= '9') || ('a' <= c && c <= 'f') || ('A' <= c && c <= 'F')) {
            assert(!is_ascii_hex(secret@[i as int]));
            hex = false;
        }
        i = i + 1;
    }
    let n: usize = chars.len();
    if (ascii && (n == 5 || n == 13)) || (hex && (n == 10 || n == 26)) {
        1
    } else {
        2
    }
}

pub fn required_password<'a>(password: Option<&'a str>) -> (r: Result<&'a str, String>)
    ensures
        match r {
            Ok(text) => opt_str(password) == Some(text@) && text@.len() > 0,
            Err(message) => (password is None || password->0@.len() == 0) && message@
                == "a password is required for this network"@,
        },
{
    match password {
        Some(text) => if text.is_empty() {
            Err("a password is required for this network".to_owned())
        } else {
            Ok(text)
        },
        None => Err("a password is required for this network".to_owned()),
    }
}

/// The settings of the security section.
pub open spec fn security_settings(security: WifiSecurity, password: Seq<char>) -> Seq<
    (Seq<char>, Seq<char>, ValueModel),
> {
    let section = "802-11-wireless-security"@;
    match security {
        WifiSecurity::Personal => seq![
            setting(section, "key-mgmt"@, ValueModel::Text("wpa-psk"@)),
            setting(section, "psk"@, ValueModel::Text(password)),
        ],
        WifiSecurity::Sae => seq![
            setting(section, "key-mgmt"@, ValueModel::Text("sae"@)),
            setting(section, "psk"@, ValueModel::Text(password)),
        ],
        WifiSecurity::Owe => seq![setting(section, "key-mgmt"@, ValueModel::Text("owe"@))],
        WifiSecurity::Wep => seq![
            setting(section, "key-mgmt"@, ValueModel::Text("none"@)),
            setting(section, "wep-key0"@, ValueModel::Text(password)),
            setting(section, "wep-key-type"@, ValueModel::Number(wep_kind(password))),
        ],
        _ => Seq::empty(),
    }
}

/// The settings of a new profile.
pub open spec fn profile_settings(ssid: Seq<char>, security: WifiSecurity, password: Seq<char>) -> Seq<
    (Seq<char>, Seq<char>, ValueModel),
> {
    let base = seq![
        setting("connection"@, "id"@, ValueModel::Text(ssid)),
        setting("connection"@, "type"@, ValueModel::Text("802-11-wireless"@)),
        setting("802-11-wireless"@, "ssid"@, ValueModel::Bytes(ssid)),
    ];
    if security is Open {
        base
    } else {
        base.push(
            setting(
                "802-11-wireless"@,
                "security"@,
                ValueModel::Text("802-11-wireless-security"@),
            ),
        ) + security_settings(security, password)
    }
}

/// How to connect to a network.
pub enum ConnectRequest {
    /// By the profile that NetworkManager has.
    Activate,
    /// By a new profile with these settings.
    AddAndActivate(Vec<Setting>),
}

/// How a connection to a network is made.
pub open spec fn connects(
    network: WifiNetwork,
    password: Option<Seq<char>>,
    r: Result<ConnectRequest, String>,
) -> bool {
    if network.is_saved() {
        r matches Ok(request) && request is Activate
    } else if network.security is Enterprise {
        r matches Err(message) && message@
            == "enterprise Wi-Fi needs a saved NetworkManager profile with 802.1X credentials"@
    } else if network.security.wants_password() && (password is None || password->0.len() == 0) {
        r matches Err(message) && message@ == "a password is required for this network"@
    } else {
        r matches Ok(ConnectRequest::AddAndActivate(settings)) && settings_of(settings@)
            == profile_settings(
            network.ssid@,
            network.security,
            match password {
                Some(text) => text,
                None => Seq::empty(),
            },
        )
    }
}

fn text_setting(section: &'static str, key: &'static str, value: &str) -> (r: Setting)
    ensures
        r@ == setting(section@, key@, ValueModel::Text(value@)),
{
    Setting { section, key, value: SettingValue::Text(value.to_owned()) }
}

/// Says how to connect to a network, or why that is not possible.
pub fn connect_request(network: &WifiNetwork, password: Option<&str>) -> (r: Result<
    ConnectRequest,
    String,
>)
    ensures
        connects(*network, opt_str(password), r),
{
    if network.saved() {
        return Ok(ConnectRequest::Activate);
    }
    let section = "802-11-wireless-security";
    let mut settings: Vec<Setting> = Vec::new();
    settings.push(text_setting("connection", "id", &network.ssid));
    settings.push(text_setting("connection", "type", "802-11-wireless"));
    settings.push(
        Setting {
            section: "802-11-wireless",
            key: "ssid",
            value: SettingValue::Bytes(network.ssid.clone()),
        },
    );
    if network.security.secured() {
        settings.push(text_setting("802-11-wireless", "security", section));
    }
    match network.security {
        WifiSecurity::Open => {},
        WifiSecurity::Personal => {
            let secret = match required_password(password) {
                Ok(secret) => secret,
                Err(message) => return Err(message),
            };
            settings.push(text_setting(section, "key-mgmt", "wpa-psk"));
            settings.push(text_setting(section, "psk", secret));
        },
        WifiSecurity::Sae => {
            let secret = match required_password(password) {
                Ok(secret) => secret,
                Err(message) => return Err(message),
            };
            settings.push(text_setting(section, "key-mgmt", "sae"));
            settings.push(text_setting(section, "psk", secret));
        },
        WifiSecurity::Owe => {
            settings.push(text_setting(section, "key-mgmt", "owe"));
        },
        WifiSecurity::Wep => {
            let secret = match required_password(password) {
                Ok(secret) => secret,
                Err(message) => return Err(message),
            };
            settings.push(text_setting(section, "key-mgmt", "none"));
            settings.push(text_setting(section, "wep-key0", secret));
            let kind: u32 = wep_key_type(secret);
            settings.push(
                Setting { section, key: "wep-key-type", value: SettingValue::Number(kind) },
            );
        },
        WifiSecurity::Enterprise => {
            return Err(
                "enterprise Wi-Fi needs a saved NetworkManager profile with 802.1X credentials".to_owned(),
            );
        },
    }
    proof {
        let secret = match opt_str(password) {
            Some(text) => text,
            None => Seq::empty(),
        };
        assert(settings_of(settings@) =~= profile_settings(
            network.ssid@,
            network.security,
            secret,
        ));
    }
    Ok(ConnectRequest::AddAndActivate(settings))
}

/// What came back when a scan was asked for.
pub enum ScanReply {
    NoDevice,
    Failed(String),
    /// The time of the last scan before, where it was told.
    Requested(Option<i64>),
}

/// The cached state of NetworkManager, and the lock of the action that runs.
pub struct NetworkBackend {
    pub snapshots: TimedCache<WifiSnapshot>,
    pub saved_wifi: SavedWifiCache,
    pub writing: WriteLock,
}

impl NetworkBackend {
    /// Whether nothing but the lock and, where `forget`, the cached snapshot differs.
    pub open spec fn released_from(&self, before: &Self, forget: bool) -> bool {
        &&& !self.writing.held
        &&& self.saved_wifi == before.saved_wifi
        &&& if forget {
            self.snapshots.entry is None
        } else {
            self.snapshots == before.snapshots
        }
    }

    pub fn new() -> (r: Self)
        ensures
            r.snapshots.entry is None,
            r.saved_wifi.is_blank(),
            !r.writing.held,
    {
        NetworkBackend {
            snapshots: TimedCache::new(),
            saved_wifi: SavedWifiCache { version: None, profiles: SavedWifi::new() },
            writing: WriteLock::new(),
        }
    }

    /// The snapshot that is good at `now`.
    pub fn snapshot(&self, now: u64) -> (r: Option<&WifiSnapshot>)
        ensures
            match r {
                Some(snapshot) => self.snapshots.answer(now, NETWORK_CACHE_TTL_MS) == Some(
                    *snapshot,
                ),
                None => self.snapshots.answer(now, NETWORK_CACHE_TTL_MS) is None,
            },
    {
        self.snapshots.get(now, NETWORK_CACHE_TTL_MS)
    }

    /// Starts an action; only one runs at a time.
    pub fn begin_write(&mut self) -> (r: Result<(), String>)
        ensures
            final(self).writing.held,
            final(self).snapshots == old(self).snapshots,
            final(self).saved_wifi == old(self).saved_wifi,
            match r {
                Ok(()) => !old(self).writing.held,
                Err(message) => old(self).writing.held && message@ == NETWORK_BUSY@,
            },
    {
        self.writing.acquire(NETWORK_BUSY)
    }

    /// The profiles that belong to this version of NetworkManager's settings, where they are
    /// known.
    pub fn saved_profiles(&self, version: Option<u64>) -> (r: Option<&SavedWifi>)
        ensures
            match r {
                Some(profiles) => version is Some && self.saved_wifi.version == version
                    && self.saved_wifi.profiles == *profiles,
                None => version is None || self.saved_wifi.version != version,
            },
    {
        match (version, self.saved_wifi.version) {
            (Some(wanted), Some(known)) => if wanted == known {
                Some(&self.saved_wifi.profiles)
            } else {
                None
            },
            _ => None,
        }
    }

    /// Keeps the profiles that were read, where their version is known.
    pub fn keep_profiles(&mut self, version: Option<u64>, profiles: SavedWifi)
        ensures
            final(self).snapshots == old(self).snapshots,
            final(self).writing == old(self).writing,
            final(self).saved_wifi == (if version is Some {
                SavedWifiCache { version, profiles }
            } else {
                old(self).saved_wifi
            }),
    {
        if version.is_some() {
            self.saved_wifi = SavedWifiCache { version, profiles };
        }
    }

    fn invalidate_saved_wifi_cache(&mut self)
        ensures
            final(self).saved_wifi.is_blank(),
            final(self).snapshots == old(self).snapshots,
            final(self).writing == old(self).writing,
    {
        self.saved_wifi = SavedWifiCache { version: None, profiles: SavedWifi::new() };
    }

    /// Ends the action that switched Wi-Fi on or off.
    pub fn set_enabled(&mut self, reply: Result<(), String>) -> (r: Result<(), String>)
        requires
            old(self).writing.held,
        ensures
            final(self).released_from(old(self), reply is Ok),
            match reply {
                Ok(()) => r is Ok,
                Err(error) => r matches Err(message) && message@
                    == "failed to set Wi-Fi radio state: "@ + error@,
            },
    {
        self.writing.release();
        match reply {
            Ok(()) => {
                self.snapshots.invalidate();
                Ok(())
            },
            Err(error) => Err(concat2("failed to set Wi-Fi radio state: ", &error)),
        }
    }

    /// Ends the action that asked for a scan; the answer is the time of the last scan before, or
    /// -1.
    pub fn request_scan(&mut self, reply: ScanReply) -> (r: Result<i64, String>)
        requires
            old(self).writing.held,
        ensures
            final(self).released_from(old(self), reply is Requested),
            match reply {
                ScanReply::NoDevice => r matches Err(message) && message@
                    == "no Wi-Fi device is managed by NetworkManager"@,
                ScanReply::Failed(error) => r matches Err(message) && message@
                    == "failed to request Wi-Fi scan: "@ + error@,
                ScanReply::Requested(last_scan) => r == Ok::<i64, String>(
                    match last_scan {
                        Some(time) => time,
                        None => -1i64,
                    },
                ),
            },
    {
        self.writing.release();
        match reply {
            ScanReply::NoDevice => Err("no Wi-Fi device is managed by NetworkManager".to_owned()),
            ScanReply::Failed(error) => Err(concat2("failed to request Wi-Fi scan: ", &error)),
            ScanReply::Requested(last_scan) => {
                self.snapshots.invalidate();
                Ok(last_scan.unwrap_or(-1))
            },
        }
    }

    /// Ends the action that connected to a network.
    pub fn connect(&mut self, network: &WifiNetwork, reply: Result<(), String>) -> (r: Result<
        (),
        String,
    >)
        requires
            old(self).writing.held,
        ensures
            !final(self).writing.held,
            match reply {
                Ok(()) => r is Ok && final(self).snapshots.entry is None && (if network.is_saved() {
                    final(self).saved_wifi == old(self).saved_wifi
                } else {
                    final(self).saved_wifi.is_blank()
                }),
                Err(error) => final(self).released_from(old(self), false) && (r matches Err(message)
                    && message@ == (if network.is_saved() {
                    "failed to activate "@
                } else {
                    "failed to connect to "@
                }) + network.ssid@ + ": "@ + error@),
            },
    {
        self.writing.release();
        match reply {
            Ok(()) => {
                if !network.saved() {
                    self.invalidate_saved_wifi_cache();
                }
                self.snapshots.invalidate();
                Ok(())
            },
            Err(error) => Err(
                concat4(
                    if network.saved() {
                        "failed to activate "
                    } else {
                        "failed to connect to "
                    },
                    &network.ssid,
                    ": ",
                    &error,
                ),
            ),
        }
    }

    /// Ends the action that started or stopped the tunnel; `reply` is nothing where its unit is
    /// not installed.
    pub fn set_vless_active(&mut self, active: bool, reply: Option<Result<(), String>>) -> (r:
        Result<(), String>)
        requires
            old(self).writing.held,
        ensures
            final(self).released_from(old(self), false),
            match reply {
                None => r matches Err(message) && message@ == VLESS_UNIT@ + " is not installed"@,
                Some(Ok(())) => r is Ok,
                Some(Err(error)) => r matches Err(message) && message@ == "failed to "@ + (
                if active {
                    "start "@
                } else {
                    "stop "@
                }) + VLESS_UNIT@ + ": "@ + error@,
            },
    {
        self.writing.release();
        match reply {
            None => Err(concat2(VLESS_UNIT, " is not installed")),
            Some(Ok(())) => Ok(()),
            Some(Err(error)) => {
                let mut message = concat4(
                    "failed to ",
                    if active {
                        "start "
                    } else {
                        "stop "
                    },
                    VLESS_UNIT,
                    ": ",
                );
                push_text(&mut message, &error);
                Err(message)
            },
        }
    }

    /// Ends the action that deleted the profiles of a network; `failures` says which could not be
    /// deleted.
    pub fn forget(&mut self, network: &WifiNetwork, failures: &Vec<String>) -> (r: Result<
        (),
        String,
    >)
        requires
            old(self).writing.held,
        ensures
            !final(self).writing.held,
            if network.is_saved() {
                final(self).snapshots.entry is None && final(self).saved_wifi.is_blank()
            } else {
                final(self).released_from(old(self), false)
            },
            if failures@.len() == 0 {
                r is Ok
            } else {
                r matches Err(message) && message@ == "failed to forget "@ + network.ssid@ + ": "@
                    + joined(texts(failures@), "; "@)
            },
    {
        self.writing.release();
        if network.saved() {
            self.invalidate_saved_wifi_cache();
            self.snapshots.invalidate();
        }
        if failures.is_empty() {
            Ok(())
        } else {
            let list = join(failures, "; ");
            Err(concat4("failed to forget ", &network.ssid, ": ", &list))
        }
    }
}

/// The value of a setting among the first `n` of a list, where it is there.
pub open spec fn value_in(
    settings: Seq<(Seq<char>, Seq<char>, ValueModel)>,
    section: Seq<char>,
    key: Seq<char>,
    n: int,
) -> Option<ValueModel>
    decreases n,
{
    if n <= 0 {
        None
    } else if settings[n - 1].0 == section && settings[n - 1].1 == key {
        Some(settings[n - 1].2)
    } else {
        value_in(settings, section, key, n - 1)
    }
}

/// The value of a setting, where a list has one.
pub open spec fn value_of(
    settings: Seq<(Seq<char>, Seq<char>, ValueModel)>,
    section: Seq<char>,
    key: Seq<char>,
) -> Option<ValueModel> {
    value_in(settings, section, key, settings.len() as int)
}

/// A network is activated by its profile where there is one. Otherwise a profile is made, unless
/// the network is an enterprise's or its password is missing.
pub proof fn unsaved_networks_get_a_profile(
    network: WifiNetwork,
    password: Option<&str>,
    r: Result<ConnectRequest, String>,
)
    requires
        call_ensures(connect_request, (&network, password), r),
    ensures
        (r matches Ok(request) && request is Activate) == network.is_saved(),
        r is Err == (!network.is_saved() && (network.security is Enterprise || ((
        network.security is Personal || network.security is Sae || network.security is Wep) && (
        password is None || password->0@.len() == 0)))),
{
}

/// The key management of a new profile tells the security of the network: `wpa-psk`, `sae`, `owe`
/// or `none`, each for one kind and no other, and no key management for an open network. The
/// password goes where that kind of security looks for it, and nowhere else.
pub proof fn profiles_fit_the_security(
    network: WifiNetwork,
    password: Option<&str>,
    settings: Vec<Setting>,
    r: Result<ConnectRequest, String>,
)
    requires
        call_ensures(connect_request, (&network, password), r),
        r == Ok::<ConnectRequest, String>(ConnectRequest::AddAndActivate(settings)),
    ensures
        ({
            let list = settings_of(settings@);
            let section = "802-11-wireless-security"@;
            let management = value_of(list, section, "key-mgmt"@);
            let psk = value_of(list, section, "psk"@);
            let wep = value_of(list, section, "wep-key0"@);
            &&& (management == Some(ValueModel::Text("wpa-psk"@))) == (network.security is Personal)
            &&& (management == Some(ValueModel::Text("sae"@))) == (network.security is Sae)
            &&& (management == Some(ValueModel::Text("owe"@))) == (network.security is Owe)
            &&& (management == Some(ValueModel::Text("none"@))) == (network.security is Wep)
            &&& management is None == (network.security is Open)
            &&& psk == (if network.security is Personal || network.security is Sae {
                Some(ValueModel::Text(password->0@))
            } else {
                None
            })
            &&& wep == (if network.security is Wep {
                Some(ValueModel::Text(password->0@))
            } else {
                None
            })
            &&& value_of(list, section, "wep-key-type"@) is Some == (network.security is Wep)
            &&& value_of(list, "connection"@, "id"@) == Some(ValueModel::Text(network.ssid@))
            &&& value_of(list, "connection"@, "type"@) == Some(
                ValueModel::Text("802-11-wireless"@),
            )
            &&& value_of(list, "802-11-wireless"@, "ssid"@) == Some(
                ValueModel::Bytes(network.ssid@),
            )
            &&& (value_of(list, "802-11-wireless"@, "security"@) == Some(
                ValueModel::Text(section),
            )) == !(network.security is Open)
        }),
{
    reveal_strlit("connection");
    reveal_strlit("802-11-wireless");
    reveal_strlit("802-11-wireless-security");
    reveal_strlit("id");
    reveal_strlit("type");
    reveal_strlit("ssid");
    reveal_strlit("security");
    reveal_strlit("key-mgmt");
    reveal_strlit("psk");
    reveal_strlit("wep-key0");
    reveal_strlit("wep-key-type");
    reveal_strlit("wpa-psk");
    reveal_strlit("sae");
    reveal_strlit("owe");
    reveal_strlit("none");
    let list = settings_of(settings@);
    let pass = match password {
        Some(text) => text@,
        None => Seq::empty(),
    };
    assert(list == profile_settings(network.ssid@, network.security, pass));
    assert("connection"@.len() == 10 && "802-11-wireless"@.len() == 15);
    assert("802-11-wireless-security"@.len() == 24);
    assert("id"@.len() == 2 && "type"@.len() == 4 && "ssid"@.len() == 4 && "security"@.len() == 8);
    assert("key-mgmt"@.len() == 8 && "psk"@.len() == 3 && "wep-key0"@.len() == 8);
    assert("wep-key-type"@.len() == 12 && "wpa-psk"@.len() == 7 && "none"@.len() == 4);
    assert("sae"@.len() == 3 && "owe"@.len() == 3 && "sae"@[0] != "owe"@[0]);
    assert("security"@[0] != "key-mgmt"@[0] && "wep-key0"@[0] != "key-mgmt"@[0] && "security"@[0]
        != "wep-key0"@[0]);
    assert("type"@[0] != "ssid"@[0]);
    reveal_with_fuel(value_in, 8);
    match network.security {
        WifiSecurity::Open => {
            assert(list.len() == 3);
        },
        WifiSecurity::Owe => {
            assert(list.len() == 5);
        },
        WifiSecurity::Wep => {
            assert(list.len() == 7);
        },
        _ => {
            assert(list.len() == 6);
        },
    }
}

/// What the kinds of security ask for: a password for WEP, personal WPA and SAE alone, and a saved
/// profile for an enterprise's network alone; only an open network is not secured.
pub proof fn securities_ask_for_their_own(
    security: WifiSecurity,
    secured: bool,
    password: bool,
    new_profile: bool,
    label: &'static str,
)
    requires
        call_ensures(WifiSecurity::secured, (security,), secured),
        call_ensures(WifiSecurity::requires_password, (security,), password),
        call_ensures(WifiSecurity::supports_new_profile, (security,), new_profile),
        call_ensures(WifiSecurity::label, (security,), label),
    ensures
        secured == !(security is Open),
        password == (security is Wep || security is Personal || security is Sae),
        new_profile == !(security is Enterprise),
        (label@ == "open"@) == (security is Open),
        (label@ == "enterprise"@) == (security is Enterprise),
        (label@ == "secured"@) == (security is Wep || security is Personal || security is Sae
            || security is Owe),
{
    reveal_strlit("open");
    reveal_strlit("enterprise");
    reveal_strlit("secured");
    assert("open"@.len() == 4 && "enterprise"@.len() == 10 && "secured"@.len() == 7);
}

/// The flags of an access point tell its security, whichever of the two sets of flags they stand
/// in: a pre-shared key is personal, and a network without key management is open exactly where it
/// announces no privacy.
pub proof fn flags_tell_the_security(
    flags: u32,
    wpa: u32,
    rsn: u32,
    r: WifiSecurity,
    swapped: WifiSecurity,
)
    requires
        call_ensures(wifi_security, (flags, wpa, rsn), r),
        call_ensures(wifi_security, (flags, rsn, wpa), swapped),
    ensures
        r == swapped,
        (r is Personal) == ((wpa | rsn) & 0x100 != 0),
        r is Sae ==> (wpa | rsn) & 0x400 != 0,
        r is Owe ==> (wpa | rsn) & 0x800 != 0 || (wpa | rsn) & 0x1000 != 0,
        r is Enterprise ==> (wpa | rsn) & 0x200 != 0 || (wpa | rsn) & 0x2000 != 0,
        (r is Open || r is Wep) == ((wpa | rsn) & 0x100 == 0 && (wpa | rsn) & 0x200 == 0 && (wpa
            | rsn) & 0x400 == 0 && (wpa | rsn) & 0x800 == 0 && (wpa | rsn) & 0x1000 == 0 && (wpa
            | rsn) & 0x2000 == 0),
        r is Wep ==> flags & 0x1 != 0,
        r is Open ==> flags & 0x1 == 0,
        wpa & 0x100 != 0 ==> r is Personal,
        rsn & 0x100 != 0 ==> r is Personal,
        flags & 0x1 == 0 && wpa == 0 && rsn == 0 ==> r is Open,
{
    assert(wpa | rsn == rsn | wpa) by (bit_vector);
    assert(wpa & 0x100 != 0 ==> (wpa | rsn) & 0x100 != 0) by (bit_vector);
    assert(rsn & 0x100 != 0 ==> (wpa | rsn) & 0x100 != 0) by (bit_vector);
    assert((0u32 | 0u32) & 0x100 == 0 && (0u32 | 0u32) & 0x200 == 0 && (0u32 | 0u32) & 0x400 == 0 && (
    0u32 | 0u32) & 0x800 == 0 && (0u32 | 0u32) & 0x1000 == 0 && (0u32 | 0u32) & 0x2000 == 0)
        by (bit_vector);
}

/// The tunnel can be used where systemd has loaded its unit, and is on where it is active too.
pub proof fn loaded_units_can_be_used(load: &str, active: &str, r: VlessState)
    requires
        call_ensures(vless_state, (load, active), r),
    ensures
        load@ == "loaded"@ ==> r.available && r.active == (active@ == "active"@),
        load@ == "not-found"@ || load@ == "masked"@ || load@ == "error"@ || load@.len() == 0
            ==> !r.available && !r.active,
        r.active ==> r.available && active@ == "active"@,
{
    reveal_strlit("loaded");
    reveal_strlit("not-found");
    reveal_strlit("masked");
    reveal_strlit("error");
    assert("loaded"@.len() == 6 && "not-found"@.len() == 9 && "error"@.len() == 5 && "masked"@[0]
        != "loaded"@[0]);
}

/// The device in use is a Wi-Fi device, and one that is connected wherever there is one.
pub proof fn connected_devices_are_used(devices: Vec<DeviceFacts>, r: Option<usize>)
    requires
        call_ensures(find_wifi_device, (&devices,), r),
    ensures
        (r is Some) == (exists|i: int|
            0 <= i < devices@.len() && (#[trigger] devices@[i]).device_type == Some(2u32)),
        r matches Some(i) ==> i < devices@.len() && devices@[i as int].device_type == Some(2u32),
        r matches Some(i) ==> (forall|j: int|
            0 <= j < devices@.len() && (#[trigger] devices@[j]).device_type == Some(2u32) && (
            devices@[j].active_connection matches Some(path) && path@ != "/"@) ==> (
            devices@[i as int].active_connection matches Some(path) && path@ != "/"@)),
{
    assert("/"@ == ROOT_OBJECT_PATH@);
    if r is Some {
        assert(is_wifi(devices@[r->0 as int]));
    } else {
        assert forall|i: int| 0 <= i < devices@.len() implies (#[trigger] devices@[i]).device_type
            != Some(2u32) by {
            assert(!is_wifi(devices@[i]));
        }
    }
    if r is Some {
        let i = r->0 as int;
        assert forall|j: int|
            0 <= j < devices@.len() && (#[trigger] devices@[j]).device_type == Some(2u32) && (
            devices@[j].active_connection matches Some(path) && path@ != "/"@) implies (
        devices@[i].active_connection matches Some(path) && path@ != "/"@) by {
            assert(is_wifi(devices@[j]) && is_connected(devices@[j]));
        }
    }
}

/// Of two access points of a network the one in use is kept, else the stronger; nothing is mixed.
pub proof fn better_access_points_are_kept(
    existing: &mut AccessPointCandidate,
    candidate: AccessPointCandidate,
)
    requires
        call_ensures(merge_access_point, (existing, candidate), ()),
    ensures
        final(existing)@ == candidate@ || final(existing)@ == old(existing)@,
        final(existing).active == (old(existing).active || candidate.active),
        old(existing).active == candidate.active ==> final(existing).signal >= old(existing).signal
            && final(existing).signal >= candidate.signal,
        old(existing).active && !candidate.active ==> final(existing)@ == old(existing)@,
        candidate.active && !old(existing).active ==> final(existing)@ == candidate@,
{
    assert(final(existing)@.active == final(existing).active);
    assert(final(existing)@.signal == final(existing).signal);
}

/// Whether an access point tells of this network.
pub open spec fn tells_network(
    point: AccessPointFacts,
    active_path: Seq<char>,
    network: WifiNetwork,
) -> bool {
    &&& point.ssid matches Some(bytes) && lossy_text(bytes@) == network.ssid@
    &&& network.ssid@.len() > 0
    &&& network.ap_path@ == point.path@
    &&& point.strength matches Some(strength) ==> network.signal == strength
    &&& network.active ==> active_path == point.path@
    &&& active_path == point.path@ && active_path != "/"@ ==> network.active
}

/// Every network that is listed has one of its access points, the profiles that are saved under its
/// name, and the device that sees it.
pub proof fn listed_networks_are_seen(
    facts: WirelessFacts,
    saved: SavedWifi,
    r: WifiSnapshot,
    i: int,
)
    requires
        call_ensures(snapshot_with_networks, (&facts, &saved), r),
        0 <= i < r.networks@.len(),
    ensures
        exists|k: int|
            0 <= k < facts.access_points@.len() && tells_network(
                #[trigger] facts.access_points@[k],
                facts.active_path(),
                r.networks@[i],
            ),
        texts(r.networks@[i].saved_paths@) == saved.paths(r.networks@[i].ssid@),
        r.networks@[i].device_path@ == facts.device_path@,
{
    let unsorted = choose|unsorted: Seq<WifiNetwork>|
        {
            &&& network_models(unsorted) == network_list(facts.found(), saved, facts.device_path@)
            &&& #[trigger] stably_sorted(unsorted, r.networks@)
        };
    let network = r.networks@[i];
    assert(r.networks@.contains(network));
    sorted_has_the_same_members(unsorted, r.networks@, network);
    let n = choose|n: int| 0 <= n < unsorted.len() && unsorted[n] == network;
    let found = facts.found();
    assert(network_models(unsorted)[n] == network@);
    assert(network_models(unsorted).len() == unsorted.len());
    assert(network_list(facts.found(), saved, facts.device_path@).len() == found.len());
    assert(network_list(facts.found(), saved, facts.device_path@)[n] == network_of(
        found[n],
        saved,
        facts.device_path@,
    ));
    networks_come_from_access_points(facts.access_points@, facts.active_path(), n);
    let k = choose|k: int|
        0 <= k < facts.access_points@.len() && ssid_text((#[trigger] facts.access_points@[k]).ssid)
            == Some(found[n].0) && candidate_of(facts.access_points@[k], facts.active_path())
            == found[n].1;
    assert("/"@ == ROOT_OBJECT_PATH@);
    assert(network@.ssid == network.ssid@);
    assert(tells_network(facts.access_points@[k], facts.active_path(), network));
}

/// The network in use is listed first, then the stronger ones, and equally strong ones stand in the
/// order of their letters, case aside.
pub proof fn strong_networks_come_first(
    facts: WirelessFacts,
    saved: SavedWifi,
    r: WifiSnapshot,
    i: int,
    j: int,
)
    requires
        call_ensures(snapshot_with_networks, (&facts, &saved), r),
        0 <= i < j < r.networks@.len(),
    ensures
        r.available && r.enabled,
        r.networks@[j].active ==> r.networks@[i].active,
        r.networks@[i].active == r.networks@[j].active ==> r.networks@[i].signal
            >= r.networks@[j].signal,
        r.networks@[i].active == r.networks@[j].active && r.networks@[i].signal
            == r.networks@[j].signal ==> text_le(
            lower_text(r.networks@[i].ssid@),
            lower_text(r.networks@[j].ssid@),
        ),
{
    assert(r.networks@[i].le(&r.networks@[j]));
}

proof fn profile_paths(profiles: Seq<ProfileFacts>, ssid: Seq<char>, path: Seq<char>)
    ensures
        paths_for(profiles, ssid).contains(path) == exists|i: int|
            0 <= i < profiles.len() && profile_ssid(#[trigger] profiles[i]) == Some(ssid)
                && profiles[i].path@ == path,
    decreases profiles.len(),
{
    if profiles.len() > 0 {
        let rest = profiles.drop_last();
        let (all, before) = (paths_for(profiles, ssid), paths_for(rest, ssid));
        profile_paths(rest, ssid, path);
        if all.contains(path) {
            let k = choose|k: int| 0 <= k < all.len() && all[k] == path;
            if k < before.len() {
                assert(before[k] == path);
                let i = choose|i: int|
                    0 <= i < rest.len() && profile_ssid(#[trigger] rest[i]) == Some(ssid)
                        && rest[i].path@ == path;
                assert(profiles[i] == rest[i]);
            } else {
                assert(profiles[profiles.len() - 1] == profiles.last());
            }
        }
        if exists|i: int|
            0 <= i < profiles.len() && profile_ssid(#[trigger] profiles[i]) == Some(ssid)
                && profiles[i].path@ == path {
            let i = choose|i: int|
                0 <= i < profiles.len() && profile_ssid(#[trigger] profiles[i]) == Some(ssid)
                    && profiles[i].path@ == path;
            if i < rest.len() {
                assert(rest[i] == profiles[i]);
                let k = choose|k: int| 0 <= k < before.len() && before[k] == path;
                assert(all[k] == path);
            } else {
                assert(all[all.len() - 1] == path);
            }
        }
    }
}

/// A network has the saved profiles of wireless connections under its name, and no others.
pub proof fn profiles_go_by_the_name(
    profiles: Vec<ProfileFacts>,
    saved: SavedWifi,
    ssid: &str,
    r: Vec<String>,
    path: Seq<char>,
)
    requires
        call_ensures(SavedWifi::from_profiles, (&profiles,), saved),
        call_ensures(SavedWifi::get, (&saved, ssid), r),
        ssid@.len() > 0,
    ensures
        texts(r@).contains(path) == exists|i: int|
            0 <= i < profiles@.len() && opt_text((#[trigger] profiles@[i]).connection_type) == Some(
                "802-11-wireless"@,
            ) && (profiles@[i].ssid matches Some(bytes) && lossy_text(bytes@) == ssid@)
                && profiles@[i].path@ == path,
{
    profile_paths(profiles@, ssid@, path);
    assert(texts(r@) == paths_for(profiles@, ssid@));
    assert forall|i: int| 0 <= i < profiles@.len() implies (profile_ssid(#[trigger] profiles@[i])
        == Some(ssid@)) == (opt_text(profiles@[i].connection_type) == Some("802-11-wireless"@) && (
    profiles@[i].ssid matches Some(bytes) && lossy_text(bytes@) == ssid@)) by {}
}

/// A WEP secret of the length of a key, in bytes or in hexadecimal digits, is a key; any other is a
/// passphrase.
pub proof fn keys_have_their_length(secret: &str, r: u32)
    requires
        call_ensures(wep_key_type, (secret,), r),
    ensures
        r == 1 || r == 2,
        r == 1 ==> secret@.len() == 5 || secret@.len() == 10 || secret@.len() == 13 || secret@.len()
            == 26,
        all_digits(secret@) && (secret@.len() == 5 || secret@.len() == 10 || secret@.len() == 13
            || secret@.len() == 26) ==> r == 1,
{
    if all_digits(secret@) {
        assert forall|i: int| 0 <= i < secret@.len() implies (#[trigger] secret@[i] as u32) < 128
            && is_ascii_hex(secret@[i]) by {
            assert(is_ascii_number(secret@[i]));
        }
    }
}

/// A password is needed and passed on as it is.
pub proof fn passwords_are_passed_on(password: Option<&str>, r: Result<&str, String>)
    requires
        call_ensures(required_password, (password,), r),
    ensures
        (r is Ok) == (password is Some && password->0@.len() > 0),
        r matches Ok(text) ==> text@ == password->0@,
{
}

/// Without a device or with Wi-Fi off there are no networks, and the snapshot says which it is.
pub proof fn silent_devices_have_no_networks(
    device: bool,
    enabled: bool,
    r: Option<WifiSnapshot>,
)
    requires
        call_ensures(snapshot_without_networks, (device, enabled), r),
    ensures
        (r is None) == (device && enabled),
        r matches Some(snapshot) ==> snapshot.available == device && snapshot.networks@.len() == 0,
        r matches Some(snapshot) ==> (device ==> !snapshot.enabled),
{
}

/// The names of networks are what their bytes encode, and a network without a name is none.
pub proof fn names_are_what_the_bytes_encode(bytes: Vec<u8>, name: Seq<char>, r: Option<String>)
    requires
        call_ensures(ssid_from_bytes, (&bytes,), r),
        bytes@ == encode_utf8(name),
    ensures
        (r is Some) == (name.len() > 0),
        r matches Some(text) ==> text@ == name,
{
    encoded_texts_are_read_back(name);
}

/// Actions on NetworkManager run one at a time; each ends with success exactly where the reply was
/// one, and the message on a failure ends in that of the reply and names the network.
pub proof fn network_replies_are_told(
    begun: &mut NetworkBackend,
    started: Result<(), String>,
    second: &mut NetworkBackend,
    refused: Result<(), String>,
    ended: &mut NetworkBackend,
    network: WifiNetwork,
    reply: Result<(), String>,
    r: Result<(), String>,
    enabled: &mut NetworkBackend,
    switched: Result<(), String>,
)
    requires
        !old(begun).writing.held,
        call_ensures(NetworkBackend::begin_write, (begun,), started),
        *old(second) == *final(begun),
        call_ensures(NetworkBackend::begin_write, (second,), refused),
        *old(ended) == *final(second),
        call_ensures(NetworkBackend::connect, (ended, &network, reply), r),
        call_ensures(NetworkBackend::set_enabled, (enabled, reply), switched),
    ensures
        started is Ok && refused is Err,
        !final(ended).writing.held && !final(enabled).writing.held,
        (r is Ok) == (reply is Ok),
        (switched is Ok) == (reply is Ok),
        reply is Ok ==> final(ended).snapshots.entry is None && final(enabled).snapshots.entry is None,
        reply matches Err(error) ==> (r matches Err(message) && ends_with(message@, error@)
            && has_text(message@, network.ssid@)) && (switched matches Err(message) && ends_with(
            message@,
            error@,
        )),
{
    if reply is Err {
        let error = reply->Err_0@;
        let verb = if network.is_saved() {
            "failed to activate "@
        } else {
            "failed to connect to "@
        };
        parts_show(verb, network.ssid@, ": "@ + error);
        parts_show(verb + network.ssid@ + ": "@, error, Seq::empty());
        assert(verb + network.ssid@ + ": "@ + error =~= verb + network.ssid@ + (": "@ + error));
        parts_show("failed to set Wi-Fi radio state: "@, error, Seq::empty());
    }
}

/// A scan gives back the time of the scan before it, and fails where there is no device or the
/// request failed; the tunnel is started or stopped as the reply says; profiles are forgotten where
/// none of them failed, and each failure is told.
pub proof fn other_replies_are_told(
    scanned: &mut NetworkBackend,
    scan: ScanReply,
    time: Result<i64, String>,
    tunnel: &mut NetworkBackend,
    active: bool,
    reply: Option<Result<(), String>>,
    r: Result<(), String>,
    forgot: &mut NetworkBackend,
    network: WifiNetwork,
    failures: Vec<String>,
    k: int,
    forgotten: Result<(), String>,
)
    requires
        call_ensures(NetworkBackend::request_scan, (scanned, scan), time),
        call_ensures(NetworkBackend::set_vless_active, (tunnel, active, reply), r),
        call_ensures(NetworkBackend::forget, (forgot, &network, &failures), forgotten),
        failures@.len() > 0 ==> 0 <= k < failures@.len(),
    ensures
        (time is Ok) == (scan is Requested),
        scan matches ScanReply::Requested(Some(before)) ==> time == Ok::<i64, String>(before),
        scan matches ScanReply::Failed(error) ==> (time matches Err(message) && ends_with(
            message@,
            error@,
        )),
        (r is Ok) == (reply is Some && reply->0 is Ok),
        reply matches Some(Err(error)) ==> (r matches Err(message) && ends_with(message@, error@)
            && begins_with(
            message@,
            if active {
                "failed to start"@
            } else {
                "failed to stop"@
            },
        )),
        (forgotten is Ok) == (failures@.len() == 0),
        failures@.len() > 0 ==> (forgotten matches Err(message) && has_text(message@, network.ssid@)
            && has_text(message@, failures@[k]@)),
        !final(scanned).writing.held && !final(tunnel).writing.held && !final(forgot).writing.held,
{
    if scan is Failed {
        parts_show("failed to request Wi-Fi scan: "@, scan->Failed_0@, Seq::empty());
    }
    if let Some(Err(error)) = reply {
        let verb = if active {
            "start "@
        } else {
            "stop "@
        };
        let words = if active {
            "failed to start"@
        } else {
            "failed to stop"@
        };
        let message = "failed to "@ + verb + VLESS_UNIT@ + ": "@ + error@;
        reveal_strlit("failed to ");
        reveal_strlit("start ");
        reveal_strlit("stop ");
        reveal_strlit("failed to start");
        reveal_strlit("failed to stop");
        parts_show("failed to "@ + verb + VLESS_UNIT@ + ": "@, error@, Seq::empty());
        assert(message.subrange(0, words.len() as int) =~= words);
    }
    if failures@.len() > 0 {
        let list = texts(failures@);
        let tail = joined(list, "; "@);
        let head = "failed to forget "@ + network.ssid@ + ": "@;
        parts_show("failed to forget "@, network.ssid@, ": "@ + tail);
        assert(head + tail =~= "failed to forget "@ + network.ssid@ + (": "@ + tail));
        assert(list[k] == failures@[k]@);
        joined_holds(list, "; "@, k);
        let at = choose|at: int| occurs_at(tail, list[k], at);
        let n = head.len() + at;
        assert((head + tail).subrange(n, n + list[k].len()) =~= tail.subrange(
            at,
            at + list[k].len(),
        ));
        assert(occurs_at(head + tail, list[k], n));
    }
}

/// A snapshot of the networks is used again for half a second.
pub proof fn network_snapshots_live_half_a_second(
    backend: &NetworkBackend,
    stored_at: u64,
    snapshot: WifiSnapshot,
    now: u64,
    r: Option<&WifiSnapshot>,
)
    requires
        backend.snapshots.entry == Some((stored_at, snapshot)),
        stored_at <= now,
        call_ensures(NetworkBackend::snapshot, (backend, now), r),
    ensures
        (r is Some) == (now - stored_at < 500),
        r matches Some(kept) ==> *kept == snapshot,
{
}

/// Profiles that were kept are known for their own version of the settings, and for no other; a new
/// profile makes them unknown.
pub proof fn profiles_are_known_for_their_version(
    kept: &mut NetworkBackend,
    version: u64,
    profiles: SavedWifi,
    other: u64,
    known: Option<&SavedWifi>,
    unknown: Option<&SavedWifi>,
    unversioned: Option<&SavedWifi>,
    connected: &mut NetworkBackend,
    network: WifiNetwork,
    r: Result<(), String>,
    after: Option<&SavedWifi>,
)
    requires
        other != version,
        call_ensures(NetworkBackend::keep_profiles, (kept, Some(version), profiles), ()),
        call_ensures(NetworkBackend::saved_profiles, (final(kept), Some(version)), known),
        call_ensures(NetworkBackend::saved_profiles, (final(kept), Some(other)), unknown),
        call_ensures(NetworkBackend::saved_profiles, (final(kept), None), unversioned),
        *old(connected) == *final(kept),
        network.saved_paths@.len() == 0,
        call_ensures(NetworkBackend::connect, (connected, &network, Ok(())), r),
        call_ensures(NetworkBackend::saved_profiles, (final(connected), Some(version)), after),
    ensures
        known matches Some(saved) && *saved == profiles,
        unknown is None && unversioned is None,
        after is None,
{
}

/// A network has the security that the flags of its access point announce, and the signal that it
/// tells.
pub proof fn networks_have_the_security_announced(
    point: AccessPointFacts,
    active_path: Seq<char>,
    flags: u32,
    wpa: u32,
    rsn: u32,
    security: WifiSecurity,
)
    requires
        point.flags == Some(flags),
        point.wpa_flags == Some(wpa),
        point.rsn_flags == Some(rsn),
        call_ensures(wifi_security, (flags, wpa, rsn), security),
    ensures
        candidate_of(point, active_path).security == security,
        point.strength matches Some(strength) ==> candidate_of(point, active_path).signal
            == strength,
{
}

/// A network that cannot be connected to tells why: an enterprise's needs a saved profile, the
/// others a password.
pub proof fn refused_networks_tell_why(
    network: WifiNetwork,
    password: Option<&str>,
    message: String,
    backend: &mut NetworkBackend,
    refused: Result<(), String>,
)
    requires
        call_ensures(connect_request, (&network, password), Err(message)),
        old(backend).writing.held,
        call_ensures(NetworkBackend::begin_write, (backend,), refused),
    ensures
        network.security is Enterprise ==> message@
            == "enterprise Wi-Fi needs a saved NetworkManager profile with 802.1X credentials"@,
        !(network.security is Enterprise) ==> message@ == "a password is required for this network"@,
        refused matches Err(text) && text@ == "another network action is already in progress"@,
{
}

/// A scan without a device and a tunnel without its unit are told as what they are.
pub proof fn missing_parts_are_told(
    scanned: &mut NetworkBackend,
    time: Result<i64, String>,
    tunnel: &mut NetworkBackend,
    active: bool,
    r: Result<(), String>,
)
    requires
        call_ensures(NetworkBackend::request_scan, (scanned, ScanReply::NoDevice), time),
        call_ensures(NetworkBackend::set_vless_active, (tunnel, active, None), r),
    ensures
        time matches Err(message) && message@ == "no Wi-Fi device is managed by NetworkManager"@,
        r matches Err(message) && begins_with(message@, "sing-box.service"@) && ends_with(
            message@,
            " is not installed"@,
        ),
{
    let (unit, tail) = ("sing-box.service"@, " is not installed"@);
    assert(unit == VLESS_UNIT@);
    parts_show(unit, tail, Seq::empty());
}

/// How NetworkManager and systemd are reached.
pub proof fn network_services_are_reached_by_these_names()
    ensures
        NM@ == "org.freedesktop.NetworkManager"@,
        NM_DEVICE@ == "org.freedesktop.NetworkManager.Device"@,
        NM_SETTINGS@ == "org.freedesktop.NetworkManager.Settings"@,
        NM_CONNECTION@ == "org.freedesktop.NetworkManager.Settings.Connection"@,
        NM_PATH@ == "/org/freedesktop/NetworkManager"@,
        NM_SETTINGS_PATH@ == "/org/freedesktop/NetworkManager/Settings"@,
        SYSTEMD@ == "org.freedesktop.systemd1"@,
        VLESS_UNIT@ == "sing-box.service"@,
{
}

/// Of two equally strong access points the one that was found first is kept.
pub proof fn first_found_access_points_are_kept(
    existing: &mut AccessPointCandidate,
    candidate: AccessPointCandidate,
)
    requires
        call_ensures(merge_access_point, (existing, candidate), ()),
        old(existing).active == candidate.active,
        old(existing).signal == candidate.signal,
    ensures
        final(existing)@ == old(existing)@,
{
}

/// Profiles are needed where a network was found, a network without a name is none, and two
/// networks are the same where all that is known of them is.
pub proof fn found_networks_need_profiles(
    facts: &WirelessFacts,
    r: bool,
    ssid: String,
    named: Option<String>,
    a: WifiNetwork,
    b: WifiNetwork,
    same: bool,
    copied: WifiNetwork,
)
    requires
        call_ensures(WirelessFacts::needs_profiles, (facts,), r),
        call_ensures(named_ssid, (ssid,), named),
        call_ensures(WifiNetwork::same_as, (&a, &b), same),
        call_ensures(WifiNetwork::copy, (&a,), copied),
    ensures
        r == (facts.found().len() > 0),
        (named is Some) == (ssid@.len() > 0),
        named matches Some(name) ==> name@ == ssid@,
        same ==> a.ssid@ == b.ssid@ && a.signal == b.signal && a.security == b.security && a.active
            == b.active,
        a.ssid@ != b.ssid@ || a.signal != b.signal ==> !same,
        copied.ssid@ == a.ssid@ && copied.signal == a.signal && copied.active == a.active,
{
    assert(a@.ssid == a.ssid@ && b@.ssid == b.ssid@ && copied@.ssid == copied.ssid@);
}

} // verus!
