//! The Wi-Fi popup: what it shows, and what each event does to it.
use crate::gate::{bumped, Generation};
use crate::network_backend::{
    connects, network_models, ConnectRequest, NetworkModel, VlessState, WifiNetwork, WifiSecurity,
    WifiSnapshot,
};
use crate::text::{
    begins_with, concat2, concat3, concat4, concat5, decimal, ends_with, has_text, numeral,
    parts_show, same,
};
use vstd::prelude::*;

verus! {

pub const ICON_WIFI_HIGH: &'static str = "󰤨";

pub const ICON_WIFI_GOOD: &'static str = "󰤥";

pub const ICON_WIFI_MID: &'static str = "󰤢";

pub const ICON_WIFI_LOW: &'static str = "󰤟";

pub const ICON_WIFI_NONE: &'static str = "󰤮";

pub const ICON_WIFI_OFF: &'static str = "󰖪";

pub const ICON_CHECK: &'static str = "󰄬";

pub const ICON_LOCK: &'static str = "󰌾";

pub const ICON_VLESS_ACTIVE: &'static str = "󰌾";

pub const ICON_VLESS_INACTIVE: &'static str = "󰌿";

/// How long to wait for the end of a scan, in milliseconds.
pub const SCAN_COMPLETION_TIMEOUT_MS: u64 = 10_000;

/// How long to wait before the tunnel's state is read after a change, in milliseconds.
pub const VLESS_ACTION_REFRESH_DELAY_MS: u64 = 650;

pub open spec fn signal_icon_text(signal: u8) -> Seq<char> {
    if signal >= 80 {
        ICON_WIFI_HIGH@
    } else if signal >= 60 {
        ICON_WIFI_GOOD@
    } else if signal >= 40 {
        ICON_WIFI_MID@
    } else if signal >= 20 {
        ICON_WIFI_LOW@
    } else {
        ICON_WIFI_NONE@
    }
}

pub fn wifi_signal_icon(signal: u8) -> (r: &'static str)
    ensures
        r@ == signal_icon_text(signal),
{
    if signal >= 80 {
        ICON_WIFI_HIGH
    } else if signal >= 60 {
        ICON_WIFI_GOOD
    } else if signal >= 40 {
        ICON_WIFI_MID
    } else if signal >= 20 {
        ICON_WIFI_LOW
    } else {
        ICON_WIFI_NONE
    }
}

/// The line under a network's name.
pub open spec fn meta_text(network: WifiNetwork) -> Seq<char> {
    decimal(network.signal as nat) + "% • "@ + network.security.label_text() + (
    if network.is_saved() {
        " • saved"@
    } else {
        ""@
    })
}

pub fn network_meta(network: &WifiNetwork) -> (r: String)
    ensures
        r@ == meta_text(*network),
{
    let number = numeral(network.signal as u64);
    concat4(
        &number,
        "% • ",
        network.security.label(),
        if network.saved() {
            " • saved"
        } else {
            ""
        },
    )
}

pub open spec fn status_icon_text(network: WifiNetwork) -> Seq<char> {
    if network.active {
        ICON_CHECK@
    } else if !(network.security is Open) && !network.is_saved() {
        ICON_LOCK@
    } else {
        ""@
    }
}

pub fn network_status_icon(network: &WifiNetwork) -> (r: &'static str)
    ensures
        r@ == status_icon_text(*network),
{
    if network.active {
        ICON_CHECK
    } else if network.security.secured() && !network.saved() {
        ICON_LOCK
    } else {
        ""
    }
}

/// Which parts of a network's row have to be drawn anew.
#[derive(Clone, Copy, Debug, PartialEq, Eq, Structural)]
pub struct RowChanges {
    pub icon: bool,
    pub meta: bool,
    pub status: bool,
    pub forget_button: bool,
}

/// Compares what a row shows with what it is to show.
pub fn row_changes(current: &WifiNetwork, next: &WifiNetwork) -> (r: RowChanges)
    ensures
        r.icon == (signal_icon_text(current.signal) != signal_icon_text(next.signal)),
        r.meta == (current.signal != next.signal || current.security != next.security
            || current.is_saved() != next.is_saved()),
        r.status == (current.active != next.active || current.security != next.security
            || current.is_saved() != next.is_saved()),
        r.forget_button == (current.is_saved() != next.is_saved()),
{
    let saved_changed = current.saved() != next.saved();
    let security_changed = current.security != next.security;
    RowChanges {
        icon: !same(wifi_signal_icon(current.signal), wifi_signal_icon(next.signal)),
        meta: current.signal != next.signal || security_changed || saved_changed,
        status: current.active != next.active || security_changed || saved_changed,
        forget_button: saved_changed,
    }
}

/// A row that is not drawn anew already shows the right texts.
pub proof fn unchanged_rows_are_right(current: WifiNetwork, next: WifiNetwork)
    ensures
        current.signal == next.signal && current.security == next.security && current.is_saved()
            == next.is_saved() ==> meta_text(current) == meta_text(next),
        current.active == next.active && current.security == next.security && current.is_saved()
            == next.is_saved() ==> status_icon_text(current) == status_icon_text(next),
{
}

/// The position, from `i` on, of the first active network.
pub open spec fn first_active(networks: Seq<WifiNetwork>, i: int) -> Option<int>
    decreases networks.len() - i,
{
    if i < 0 || i >= networks.len() {
        None
    } else if networks[i].active {
        Some(i)
    } else {
        first_active(networks, i + 1)
    }
}

fn active_position(networks: &Vec<WifiNetwork>) -> (r: Option<usize>)
    ensures
        match r {
            Some(i) => i < networks@.len() && first_active(networks@, 0) == Some(i as int),
            None => first_active(networks@, 0) is None,
        },
{
    let mut i: usize = 0;
    while i < networks.len()
        invariant
            i <= networks@.len(),
            first_active(networks@, 0) == first_active(networks@, i as int),
        decreases networks@.len() - i,
    {
        if networks[i].active {
            return Some(i);
        }
        i = i + 1;
    }
    None
}

/// Whether a network can still be the one that the password is asked for.
pub open spec fn wants_password_for(network: WifiNetwork, ssid: Seq<char>) -> bool {
    network.ssid@ == ssid && !network.is_saved() && network.security.wants_password()
}

/// The position, from `i` on, of the network that the password is asked for.
pub open spec fn find_target(networks: Seq<WifiNetwork>, ssid: Seq<char>, i: int) -> Option<int>
    decreases networks.len() - i,
{
    if i < 0 || i >= networks.len() {
        None
    } else if wants_password_for(networks[i], ssid) {
        Some(i)
    } else {
        find_target(networks, ssid, i + 1)
    }
}

/// The contents of an optional network.
pub open spec fn opt_network(network: Option<WifiNetwork>) -> Option<NetworkModel> {
    match network {
        Some(network) => Some(network@),
        None => None,
    }
}

/// The network that the password is asked for, as a new snapshot describes it.
pub open spec fn refreshed_target(target: Option<WifiNetwork>, snapshot: WifiSnapshot) -> Option<
    NetworkModel,
> {
    match target {
        Some(target) => match find_target(snapshot.networks@, target.ssid@, 0) {
            Some(i) => Some(snapshot.networks@[i]@),
            None => None,
        },
        None => None,
    }
}

pub fn refresh_password_target(target: &Option<WifiNetwork>, snapshot: &WifiSnapshot) -> (r: Option<
    WifiNetwork,
>)
    ensures
        opt_network(r) == refreshed_target(*target, *snapshot),
{
    let wanted = match target {
        Some(wanted) => wanted,
        None => return None,
    };
    let networks = &snapshot.networks;
    let mut i: usize = 0;
    while i < networks.len()
        invariant
            networks@ == snapshot.networks@,
            target->0.ssid@ == wanted.ssid@,
            *target is Some,
            i <= networks@.len(),
            find_target(networks@, wanted.ssid@, 0) == find_target(
                networks@,
                wanted.ssid@,
                i as int,
            ),
        decreases networks@.len() - i,
    {
        let network = &networks[i];
        if same(&network.ssid, &wanted.ssid) && !network.saved()
            && network.security.requires_password() {
            return Some(network.copy());
        }
        i = i + 1;
    }
    None
}

/// Whether the header would look different.
pub open spec fn header_differs(previous: WifiSnapshot, next: WifiSnapshot) -> bool {
    if previous.available != next.available || previous.enabled != next.enabled {
        true
    } else if !next.available || !next.enabled {
        false
    } else {
        match (first_active(previous.networks@, 0), first_active(next.networks@, 0)) {
            (Some(i), Some(j)) => {
                let (a, b) = (previous.networks@[i], next.networks@[j]);
                a.ssid@ != b.ssid@ || a.signal != b.signal || a.security != b.security
            },
            (None, None) => previous.networks@.len() != next.networks@.len(),
            _ => true,
        }
    }
}

pub fn wifi_header_changed(previous: &WifiSnapshot, next: &WifiSnapshot) -> (r: bool)
    ensures
        r == header_differs(*previous, *next),
{
    if previous.available != next.available || previous.enabled != next.enabled {
        return true;
    }
    if !next.available || !next.enabled {
        return false;
    }
    match (active_position(&previous.networks), active_position(&next.networks)) {
        (Some(i), Some(j)) => {
            let a = &previous.networks[i];
            let b = &next.networks[j];
            !same(&a.ssid, &b.ssid) || a.signal != b.signal || a.security != b.security
        },
        (None, None) => previous.networks.len() != next.networks.len(),
        _ => true,
    }
}

fn same_networks(a: &Vec<WifiNetwork>, b: &Vec<WifiNetwork>) -> (r: bool)
    ensures
        r == (network_models(a@) == network_models(b@)),
{
    if a.len() != b.len() {
        assert(network_models(a@).len() != network_models(b@).len());
        return false;
    }
    let mut i: usize = 0;
    while i < a.len()
        invariant
            i <= a@.len(),
            a@.len() == b@.len(),
            forall|k: int| 0 <= k < i ==> network_models(a@)[k] == network_models(b@)[k],
        decreases a@.len() - i,
    {
        if !a[i].same_as(&b[i]) {
            assert(network_models(a@)[i as int] != network_models(b@)[i as int]);
            return false;
        }
        i = i + 1;
    }
    assert(network_models(a@) =~= network_models(b@));
    true
}

/// Which state an action changes.
#[derive(Clone, Copy, Debug, PartialEq, Eq, Structural)]
pub enum RefreshTarget {
    Wifi,
    Vless,
}

/// What the popup has to do for a new snapshot.
#[derive(Clone, Copy, Debug, PartialEq, Eq, Structural)]
pub struct WifiOutcome {
    pub hide_prompt: bool,
    pub clear_notice: bool,
    pub stop_animation: bool,
    pub update_header: bool,
    /// Build the list now.
    pub sync_list: bool,
}

/// When to read the state after an action.
#[derive(Clone, Copy, Debug, PartialEq, Eq, Structural)]
pub enum AfterAction {
    Now(RefreshTarget),
    /// The tunnel takes a moment to start or stop.
    VlessLater,
}

/// What a click on a network does.
#[derive(Clone, Copy, Debug, PartialEq, Eq, Structural)]
pub enum RowClick {
    Nothing,
    /// Say that a saved profile is needed.
    NeedsProfile,
    AskPassword,
    Connect,
}

/// What a click on a network does.
pub fn row_click(network: &WifiNetwork) -> (r: RowClick)
    ensures
        r == (if network.active {
            RowClick::Nothing
        } else if network.is_saved() {
            RowClick::Connect
        } else if network.security is Enterprise {
            RowClick::NeedsProfile
        } else if network.security.wants_password() {
            RowClick::AskPassword
        } else {
            RowClick::Connect
        }),
{
    if network.active {
        RowClick::Nothing
    } else if !network.saved() && !network.security.supports_new_profile() {
        RowClick::NeedsProfile
    } else if !network.saved() && network.security.requires_password() {
        RowClick::AskPassword
    } else {
        RowClick::Connect
    }
}

/// A click connects only where NetworkManager can be asked without a password.
pub proof fn clicks_connect_only_when_possible(
    network: WifiNetwork,
    r: Result<ConnectRequest, String>,
)
    requires
        !network.active,
        network.is_saved() || !(network.security is Enterprise)
            && !network.security.wants_password(),
        connects(network, None, r),
    ensures
        r is Ok,
{
}

/// What the list shows.
#[derive(Clone, Copy, Debug, PartialEq, Eq, Structural)]
pub enum ListView {
    NoDevice,
    Disabled,
    NoNetworks,
    Networks,
}

/// What the header of the popup and the button in the bar show.
pub struct HeaderView {
    pub icon: &'static str,
    pub title: String,
    pub status: String,
    pub tooltip: String,
    pub actions_visible: bool,
    pub vless_visible: bool,
    pub vless_sensitive: bool,
    pub vless_icon: &'static str,
    pub rescan_visible: bool,
    pub rescan_sensitive: bool,
    pub switch_sensitive: bool,
    pub switch_active: bool,
    pub rows_sensitive: bool,
}

/// What the user gets for the password they typed.
pub enum PasswordOutcome {
    Nothing,
    Missing,
    Connect(WifiNetwork),
}

/// The state of the Wi-Fi popup.
pub struct NetworkController {
    pub wifi: WifiSnapshot,
    pub vless: VlessState,
    pub password_target: Option<WifiNetwork>,
    pub header_initialized: bool,
    pub list_initialized: bool,
    pub list_dirty: bool,
    pub wifi_revision: Generation,
    pub vless_revision: Generation,
    pub action_busy: bool,
    pub rescan_busy: bool,
    pub rescan_baseline: Option<i64>,
    pub rescan_generation: Generation,
}

/// A text with the tunnel's mark behind it where the tunnel is on.
pub open spec fn with_vless(base: Seq<char>, active: bool) -> Seq<char> {
    if active {
        base + " • VLESS"@
    } else {
        base
    }
}

fn append_service_meta(base: String, vless_active: bool) -> (r: String)
    ensures
        r@ == with_vless(base@, vless_active),
{
    if vless_active {
        concat2(&base, " • VLESS")
    } else {
        base
    }
}

impl NetworkController {
    /// A scan whose end is awaited is running.
    pub open spec fn wf(&self) -> bool {
        self.rescan_baseline is Some ==> self.rescan_busy
    }

    pub fn new() -> (r: Self)
        ensures
            r.wf(),
            !r.wifi.available,
            !r.wifi.enabled,
            r.wifi.networks@.len() == 0,
            r.vless == (VlessState { available: false, active: false }),
            r.password_target is None,
            !r.header_initialized,
            !r.list_initialized,
            !r.list_dirty,
            !r.action_busy,
            !r.rescan_busy,
            r.wifi.last_scan == 0,
            r.wifi_revision.value == 0,
            r.vless_revision.value == 0,
            r.rescan_generation.value == 0,
    {
        NetworkController {
            wifi: WifiSnapshot::default(),
            vless: VlessState::default(),
            password_target: None,
            header_initialized: false,
            list_initialized: false,
            list_dirty: false,
            wifi_revision: Generation::default(),
            vless_revision: Generation::default(),
            action_busy: false,
            rescan_busy: false,
            rescan_baseline: None,
            rescan_generation: Generation::default(),
        }
    }

    pub open spec fn list_differs(&self, next: WifiSnapshot) -> bool {
        self.wifi.available != next.available || self.wifi.enabled != next.enabled
            || network_models(self.wifi.networks@) != network_models(next.networks@)
    }

    /// Whether a snapshot ends the scan that is awaited: Wi-Fi went off.
    pub open spec fn scan_is_void(&self, next: WifiSnapshot) -> bool {
        !next.enabled && self.rescan_busy
    }

    /// Whether a snapshot shows that the scan that is awaited has ended.
    pub open spec fn scan_is_done(&self, next: WifiSnapshot) -> bool {
        !self.scan_is_void(next) && (self.rescan_baseline matches Some(baseline) && next.last_scan
            != baseline)
    }

    pub open spec fn prompt_is_void(&self, next: WifiSnapshot) -> bool {
        self.password_target is Some && refreshed_target(self.password_target, next) is None
    }

    /// Takes a new snapshot.
    pub fn apply_snapshot(&mut self, snapshot: WifiSnapshot, popup_visible: bool) -> (r: WifiOutcome)
        requires
            old(self).wf(),
        ensures
            final(self).wf(),
            opt_network(final(self).password_target) == refreshed_target(
                old(self).password_target,
                snapshot,
            ),
            ({
                let void = old(self).scan_is_void(snapshot);
                let done = old(self).scan_is_done(snapshot);
                let list = old(self).list_differs(snapshot) || !old(self).list_initialized;
                &&& *final(self) == (NetworkController {
                    wifi: snapshot,
                    password_target: final(self).password_target,
                    header_initialized: true,
                    list_initialized: old(self).list_initialized || (list && popup_visible),
                    list_dirty: if list {
                        !popup_visible
                    } else {
                        old(self).list_dirty
                    },
                    rescan_busy: old(self).rescan_busy && !void && !done,
                    rescan_baseline: if void || done {
                        None
                    } else {
                        old(self).rescan_baseline
                    },
                    rescan_generation: Generation {
                        value: if void {
                            bumped(old(self).rescan_generation.value, 1)
                        } else {
                            old(self).rescan_generation.value
                        },
                    },
                    ..*old(self)
                })
                &&& r == (WifiOutcome {
                    hide_prompt: old(self).prompt_is_void(snapshot),
                    clear_notice: old(self).prompt_is_void(snapshot) || void || done,
                    stop_animation: void || done,
                    update_header: header_differs(old(self).wifi, snapshot) || !old(
                        self).header_initialized || done,
                    sync_list: list && popup_visible,
                })
            }),
    {
        let first = !self.header_initialized;
        self.header_initialized = true;
        let header_changed = wifi_header_changed(&self.wifi, &snapshot);
        let list_changed = self.wifi.available != snapshot.available || self.wifi.enabled
            != snapshot.enabled || !same_networks(&self.wifi.networks, &snapshot.networks);
        let refreshed = refresh_password_target(&self.password_target, &snapshot);
        let void_prompt = self.password_target.is_some() && refreshed.is_none();
        let enabled = snapshot.enabled;
        let last_scan: i64 = snapshot.last_scan;
        self.password_target = refreshed;
        self.wifi = snapshot;
        let void_scan = !enabled && self.rescan_busy;
        if void_scan {
            self.cancel_rescan_tracking();
        }
        let done = match self.rescan_baseline {
            Some(baseline) => last_scan != baseline,
            None => false,
        };
        if done {
            self.rescan_baseline = None;
            self.rescan_busy = false;
        }
        let list = list_changed || !self.list_initialized;
        if list {
            if popup_visible {
                self.list_initialized = true;
                self.list_dirty = false;
            } else {
                self.list_dirty = true;
            }
        }
        WifiOutcome {
            hide_prompt: void_prompt,
            clear_notice: void_prompt || void_scan || done,
            stop_animation: void_scan || done,
            update_header: header_changed || first || done,
            sync_list: list && popup_visible,
        }
    }

    /// Takes a new state of the tunnel; the answer says whether anything changed.
    pub fn apply_vless_state(&mut self, vless: VlessState) -> (r: bool)
        ensures
            *final(self) == (NetworkController { vless, ..*old(self) }),
            r == (old(self).vless != vless),
    {
        if self.vless == vless {
            false
        } else {
            self.vless = vless;
            true
        }
    }

    pub open spec fn title_text(&self) -> Seq<char> {
        match first_active(self.wifi.networks@, 0) {
            Some(i) if self.wifi.available && self.wifi.enabled => self.wifi.networks@[i].ssid@,
            _ => "Wi-Fi"@,
        }
    }

    pub open spec fn status_text(&self) -> Seq<char> {
        if !self.wifi.available {
            "No Wi-Fi device"@
        } else if !self.wifi.enabled {
            "Disabled"@
        } else {
            match first_active(self.wifi.networks@, 0) {
                Some(i) => decimal(self.wifi.networks@[i].signal as nat) + "% • "@
                    + self.wifi.networks@[i].security.label_text(),
                None => if self.wifi.networks@.len() == 0 {
                    "Ready"@
                } else {
                    decimal(self.wifi.networks@.len()) + " networks"@
                },
            }
        }
    }

    pub open spec fn tooltip_text(&self) -> Seq<char> {
        if !self.wifi.available {
            "Wi-Fi • no NetworkManager device"@
        } else if !self.wifi.enabled {
            "Wi-Fi disabled"@
        } else {
            match first_active(self.wifi.networks@, 0) {
                Some(i) => self.wifi.networks@[i].ssid@ + " • "@ + decimal(
                    self.wifi.networks@[i].signal as nat,
                ) + "% • "@ + self.wifi.networks@[i].security.label_text(),
                None => "Wi-Fi ready"@,
            }
        }
    }

    /// What the header shows.
    pub fn header_view(&self) -> (r: HeaderView)
        ensures
            r.icon@ == (if !self.wifi.available || !self.wifi.enabled {
                ICON_WIFI_OFF@
            } else {
                match first_active(self.wifi.networks@, 0) {
                    Some(i) => signal_icon_text(self.wifi.networks@[i].signal),
                    None => ICON_WIFI_NONE@,
                }
            }),
            r.title@ == self.title_text(),
            r.status@ == with_vless(self.status_text(), self.vless.active),
            r.tooltip@ == with_vless(self.tooltip_text(), self.vless.active),
            r.vless_visible == self.vless.available,
            r.vless_sensitive == (self.vless.available && !self.action_busy),
            r.vless_icon@ == (if self.vless.active {
                ICON_VLESS_ACTIVE@
            } else {
                ICON_VLESS_INACTIVE@
            }),
            r.rescan_visible == (self.wifi.available && self.wifi.enabled),
            r.rescan_sensitive == (r.rescan_visible && !self.action_busy && !self.rescan_busy),
            r.actions_visible == (r.vless_visible || r.rescan_visible),
            r.switch_sensitive == (self.wifi.available && !self.action_busy),
            r.switch_active == self.wifi.enabled,
            r.rows_sensitive == !self.action_busy,
    {
        let ready = self.wifi.available && self.wifi.enabled;
        let active = active_position(&self.wifi.networks);
        let icon = if !ready {
            ICON_WIFI_OFF
        } else {
            match active {
                Some(i) => wifi_signal_icon(self.wifi.networks[i].signal),
                None => ICON_WIFI_NONE,
            }
        };
        let (title, status, tooltip) = if !self.wifi.available {
            (
                "Wi-Fi".to_owned(),
                "No Wi-Fi device".to_owned(),
                "Wi-Fi • no NetworkManager device".to_owned(),
            )
        } else if !self.wifi.enabled {
            ("Wi-Fi".to_owned(), "Disabled".to_owned(), "Wi-Fi disabled".to_owned())
        } else {
            match active {
                Some(i) => {
                    let network = &self.wifi.networks[i];
                    let label = network.security.label();
                    let number = numeral(network.signal as u64);
                    (
                        network.ssid.clone(),
                        concat3(&number, "% • ", label),
                        concat5(&network.ssid, " • ", &number, "% • ", label),
                    )
                },
                None => {
                    let count: usize = self.wifi.networks.len();
                    let status = if count == 0 {
                        "Ready".to_owned()
                    } else {
                        let number = numeral(count as u64);
                        concat2(&number, " networks")
                    };
                    ("Wi-Fi".to_owned(), status, "Wi-Fi ready".to_owned())
                },
            }
        };
        let free = !self.action_busy;
        HeaderView {
            icon,
            title,
            status: append_service_meta(status, self.vless.active),
            tooltip: append_service_meta(tooltip, self.vless.active),
            actions_visible: self.vless.available || ready,
            vless_visible: self.vless.available,
            vless_sensitive: self.vless.available && free,
            vless_icon: if self.vless.active {
                ICON_VLESS_ACTIVE
            } else {
                ICON_VLESS_INACTIVE
            },
            rescan_visible: ready,
            rescan_sensitive: ready && free && !self.rescan_busy,
            switch_sensitive: self.wifi.available && free,
            switch_active: self.wifi.enabled,
            rows_sensitive: free,
        }
    }

    /// What the list shows.
    pub fn list_view(&self) -> (r: ListView)
        ensures
            r == (if !self.wifi.available {
                ListView::NoDevice
            } else if !self.wifi.enabled {
                ListView::Disabled
            } else if self.wifi.networks@.len() == 0 {
                ListView::NoNetworks
            } else {
                ListView::Networks
            }),
    {
        if !self.wifi.available {
            ListView::NoDevice
        } else if !self.wifi.enabled {
            ListView::Disabled
        } else if self.wifi.networks.is_empty() {
            ListView::NoNetworks
        } else {
            ListView::Networks
        }
    }

    /// Whether a popup that opens starts a scan; else it reads the state.
    pub fn scans_on_open(&self) -> (r: bool)
        ensures
            r == (self.wifi.available && self.wifi.enabled && !self.action_busy),
    {
        self.wifi.available && self.wifi.enabled && !self.action_busy
    }

    /// Shows Wi-Fi as on or off before NetworkManager says so.
    pub fn set_wifi_enabled(&mut self, enabled: bool)
        requires
            old(self).wf(),
        ensures
            final(self).wf(),
            *final(self) == (NetworkController {
                wifi: final(self).wifi,
                password_target: if enabled {
                    old(self).password_target
                } else {
                    None
                },
                list_initialized: true,
                list_dirty: false,
                ..*old(self)
            }),
            final(self).wifi.enabled == enabled,
            final(self).wifi.available == old(self).wifi.available,
            final(self).wifi.last_scan == old(self).wifi.last_scan,
            network_models(final(self).wifi.networks@) == (if enabled {
                network_models(old(self).wifi.networks@)
            } else {
                network_models(old(self).wifi.networks@).map_values(
                    |n: NetworkModel| NetworkModel { active: false, ..n },
                )
            }),
    {
        self.wifi.enabled = enabled;
        if !enabled {
            let ghost before = self.wifi.networks@;
            let mut rest: Vec<WifiNetwork> = Vec::new();
            rest.append(&mut self.wifi.networks);
            assert(rest@ =~= before);
            let mut out: Vec<WifiNetwork> = Vec::new();
            let ghost mut done: int = 0;
            while rest.len() > 0
                invariant
                    0 <= done <= before.len(),
                    rest@ =~= before.skip(done),
                    out@.len() == done,
                    forall|k: int|
                        0 <= k < done ==> (#[trigger] out@[k])@ == (NetworkModel {
                            active: false,
                            ..before[k]@
                        }),
                decreases rest@.len(),
            {
                let mut network = rest.remove(0);
                assert(network == before[done]);
                network.active = false;
                out.push(network);
                proof {
                    done = done + 1;
                }
            }
            assert(network_models(out@) =~= network_models(before).map_values(
                |n: NetworkModel| NetworkModel { active: false, ..n },
            ));
            self.wifi.networks = out;
            self.password_target = None;
        }
        self.list_initialized = true;
        self.list_dirty = false;
    }

    /// Starts an action, unless one runs. An action on Wi-Fi ends the wait for a scan.
    pub fn begin_action(&mut self, target: RefreshTarget) -> (r: bool)
        requires
            old(self).wf(),
        ensures
            final(self).wf(),
            r == !old(self).action_busy,
            *final(self) == (if old(self).action_busy {
                *old(self)
            } else {
                match target {
                    RefreshTarget::Wifi => NetworkController {
                        action_busy: true,
                        wifi_revision: Generation {
                            value: bumped(old(self).wifi_revision.value, 1),
                        },
                        rescan_busy: false,
                        rescan_baseline: None,
                        rescan_generation: Generation {
                            value: bumped(old(self).rescan_generation.value, 1),
                        },
                        ..*old(self)
                    },
                    RefreshTarget::Vless => NetworkController {
                        action_busy: true,
                        vless_revision: Generation {
                            value: bumped(old(self).vless_revision.value, 1),
                        },
                        ..*old(self)
                    },
                }
            }),
    {
        if self.action_busy {
            return false;
        }
        self.action_busy = true;
        match target {
            RefreshTarget::Wifi => {
                self.cancel_rescan_tracking();
                self.wifi_revision.bump();
            },
            RefreshTarget::Vless => {
                self.vless_revision.bump();
            },
        }
        true
    }

    /// Ends an action.
    pub fn finish_action(&mut self, target: RefreshTarget, succeeded: bool) -> (r: AfterAction)
        ensures
            *final(self) == (NetworkController { action_busy: false, ..*old(self) }),
            r == (if succeeded && target == RefreshTarget::Vless {
                AfterAction::VlessLater
            } else {
                AfterAction::Now(target)
            }),
    {
        self.action_busy = false;
        if succeeded && target == RefreshTarget::Vless {
            AfterAction::VlessLater
        } else {
            AfterAction::Now(target)
        }
    }

    /// Starts a scan; the returned value marks it.
    pub fn rescan(&mut self) -> (r: Option<u64>)
        requires
            old(self).wf(),
        ensures
            final(self).wf(),
            if old(self).action_busy || old(self).rescan_busy {
                r is None && *final(self) == *old(self)
            } else {
                &&& r == Some(bumped(old(self).rescan_generation.value, 1))
                &&& *final(self) == (NetworkController {
                    rescan_busy: true,
                    rescan_generation: Generation {
                        value: bumped(old(self).rescan_generation.value, 1),
                    },
                    wifi_revision: Generation { value: bumped(old(self).wifi_revision.value, 1) },
                    ..*old(self)
                })
            },
    {
        if self.action_busy || self.rescan_busy {
            return None;
        }
        self.rescan_busy = true;
        let generation: u64 = self.rescan_generation.bump();
        self.wifi_revision.bump();
        Some(generation)
    }

    /// The request for the scan came back, with the time of the scan before it or a failure. The
    /// answer says whether the scan is still the newest.
    pub fn rescan_requested(&mut self, generation: u64, previous: Option<i64>) -> (r: bool)
        requires
            old(self).wf(),
        ensures
            old(self).rescan_busy || previous is None ==> final(self).wf(),
            r == (old(self).rescan_generation.value == generation),
            *final(self) == (if r {
                NetworkController {
                    rescan_busy: old(self).rescan_busy && previous is Some,
                    rescan_baseline: previous,
                    ..*old(self)
                }
            } else {
                *old(self)
            }),
    {
        if !self.rescan_generation.is_current(generation) {
            return false;
        }
        self.rescan_baseline = previous;
        if previous.is_none() {
            self.rescan_busy = false;
        }
        true
    }

    /// The time for the scan is over; the answer says whether it was still awaited.
    pub fn rescan_timed_out(&mut self, generation: u64, previous: i64) -> (r: bool)
        requires
            old(self).wf(),
        ensures
            final(self).wf(),
            r == (old(self).rescan_generation.value == generation && old(self).rescan_baseline
                == Some(previous)),
            *final(self) == (if r {
                NetworkController { rescan_busy: false, rescan_baseline: None, ..*old(self) }
            } else {
                *old(self)
            }),
    {
        if self.rescan_generation.is_current(generation) && self.rescan_baseline == Some(previous) {
            self.rescan_baseline = None;
            self.rescan_busy = false;
            true
        } else {
            false
        }
    }

    fn cancel_rescan_tracking(&mut self)
        ensures
            final(self).wf(),
            *final(self) == (NetworkController {
                rescan_busy: false,
                rescan_baseline: None,
                rescan_generation: Generation {
                    value: bumped(old(self).rescan_generation.value, 1),
                },
                ..*old(self)
            }),
    {
        self.rescan_generation.bump();
        self.rescan_busy = false;
        self.rescan_baseline = None;
    }

    /// Asks for the password of a network; the answer is the title of the question.
    pub fn show_password_prompt(&mut self, network: WifiNetwork) -> (r: String)
        ensures
            r@ == "Connect to "@ + network.ssid@,
            *final(self) == (NetworkController { password_target: Some(network), ..*old(self) }),
    {
        let title = concat2("Connect to ", &network.ssid);
        self.password_target = Some(network);
        title
    }

    /// Closes the question for a password.
    pub fn hide_password_prompt(&mut self)
        ensures
            *final(self) == (NetworkController { password_target: None, ..*old(self) }),
    {
        self.password_target = None;
    }

    /// Takes the password that the user typed.
    pub fn connect_password_target(&mut self, password: &str) -> (r: PasswordOutcome)
        ensures
            if old(self).action_busy || old(self).password_target is None {
                r is Nothing && *final(self) == *old(self)
            } else if password@.len() == 0 {
                r is Missing && *final(self) == *old(self)
            } else {
                &&& r matches PasswordOutcome::Connect(network) && Some(network)
                    == old(self).password_target
                &&& *final(self) == (NetworkController { password_target: None, ..*old(self) })
            },
    {
        if self.action_busy || self.password_target.is_none() {
            return PasswordOutcome::Nothing;
        }
        if password.is_empty() {
            return PasswordOutcome::Missing;
        }
        match self.password_target.take() {
            Some(network) => PasswordOutcome::Connect(network),
            None => PasswordOutcome::Nothing,
        }
    }
}

/// What is said while Wi-Fi is switched on or off.
pub fn radio_notice(enabled: bool) -> (r: &'static str)
    ensures
        r@ == (if enabled {
            "Enabling Wi-Fi…"@
        } else {
            "Disabling Wi-Fi…"@
        }),
{
    if enabled {
        "Enabling Wi-Fi…"
    } else {
        "Disabling Wi-Fi…"
    }
}

/// What is said while the tunnel starts or stops.
pub fn vless_notice(target: bool) -> (r: &'static str)
    ensures
        r@ == (if target {
            "Starting VLESS…"@
        } else {
            "Stopping VLESS…"@
        }),
{
    if target {
        "Starting VLESS…"
    } else {
        "Stopping VLESS…"
    }
}

/// What is said while a network is connected to.
pub fn connecting_notice(ssid: &str) -> (r: String)
    ensures
        r@ == "Connecting to "@ + ssid@ + "…"@,
{
    concat3("Connecting to ", ssid, "…")
}

/// What is said while a network is forgotten.
pub fn forgetting_notice(ssid: &str) -> (r: String)
    ensures
        r@ == "Forgetting "@ + ssid@ + "…"@,
{
    concat3("Forgetting ", ssid, "…")
}

/// A scan that is awaited ends with the first snapshot that shows a newer scan or Wi-Fi off, and
/// no other snapshot ends it.
pub proof fn scans_end_when_seen(panel: NetworkController, next: WifiSnapshot)
    requires
        panel.wf(),
        panel.rescan_baseline is Some,
    ensures
        (panel.scan_is_void(next) || panel.scan_is_done(next)) == (!next.enabled || next.last_scan
            != panel.rescan_baseline->0),
{
}

proof fn signal_icons_differ()
    ensures
        "󰤨"@.len() == 1 && "󰤥"@.len() == 1 && "󰤢"@.len() == 1 && "󰤟"@.len() == 1 && "󰤮"@.len() == 1
            && "󰖪"@.len() == 1,
        "󰤨"@[0] == '󰤨' && "󰤥"@[0] == '󰤥' && "󰤢"@[0] == '󰤢' && "󰤟"@[0] == '󰤟' && "󰤮"@[0] == '󰤮'
            && "󰖪"@[0] == '󰖪',
{
    reveal_strlit("󰤨");
    reveal_strlit("󰤥");
    reveal_strlit("󰤢");
    reveal_strlit("󰤟");
    reveal_strlit("󰤮");
    reveal_strlit("󰖪");
}

/// A stronger signal has more bars: there are five icons, one for each fifth of the scale.
pub proof fn icons_tell_the_signal(signal: u8, icon: &'static str)
    requires
        call_ensures(wifi_signal_icon, (signal,), icon),
    ensures
        (icon@ == "󰤨"@) == (signal >= 80),
        (icon@ == "󰤥"@) == (60 <= signal < 80),
        (icon@ == "󰤢"@) == (40 <= signal < 60),
        (icon@ == "󰤟"@) == (20 <= signal < 40),
        (icon@ == "󰤮"@) == (signal < 20),
{
    signal_icons_differ();
}

/// The line of a network begins with its signal, names its security, and ends by saying that it is
/// saved exactly where it is. A network in use is ticked, and one that would ask for a password has
/// a lock.
pub proof fn lines_tell_the_network(network: WifiNetwork, line: String, icon: &'static str)
    requires
        call_ensures(network_meta, (&network,), line),
        call_ensures(network_status_icon, (&network,), icon),
    ensures
        begins_with(line@, decimal(network.signal as nat) + "%"@),
        has_text(
            line@,
            match network.security {
                WifiSecurity::Open => "open"@,
                WifiSecurity::Enterprise => "enterprise"@,
                _ => "secured"@,
            },
        ),
        network.saved_paths@.len() > 0 ==> ends_with(line@, "saved"@),
        network.saved_paths@.len() == 0 ==> line@.last() == 'n' || line@.last() == 'e'
            || line@.last() == 'd' && !ends_with(line@, "saved"@),
        (icon@ == "󰄬"@) == network.active,
        (icon@ == "󰌾"@) == (!network.active && !(network.security is Open)
            && network.saved_paths@.len() == 0),
{
    reveal_strlit("% • ");
    reveal_strlit("%");
    reveal_strlit(" • saved");
    reveal_strlit("");
    reveal_strlit("saved");
    reveal_strlit("open");
    reveal_strlit("enterprise");
    reveal_strlit("secured");
    reveal_strlit("󰄬");
    reveal_strlit("󰌾");
    assert("󰄬"@[0] != "󰌾"@[0] && "󰄬"@.len() == 1 && "󰌾"@.len() == 1 && ""@.len() == 0);
    let n = decimal(network.signal as nat);
    let label = network.security.label_text();
    let tail = if network.is_saved() {
        " • saved"@
    } else {
        ""@
    };
    assert(line@.subrange(0, n.len() as int + 1) =~= n + "%"@);
    parts_show(n + "% • "@, label, tail);
    if network.is_saved() {
        assert(line@.subrange(line@.len() - 5, line@.len() as int) =~= "saved"@);
    } else {
        assert(line@ =~= n + "% • "@ + label);
        assert(line@.last() == label.last());
        if ends_with(line@, "saved"@) && label == "secured"@ {
            assert(line@.subrange(line@.len() - 5, line@.len() as int)[0] == "saved"@[0]);
            assert(line@[line@.len() - 5] == label[label.len() - 5]);
            assert("secured"@[2] == 'c' && "saved"@[0] == 's');
        }
    }
}

/// A click on a network connects, asks for its password, or says what is missing: a network in use
/// or that cannot be reached is not connected to, and a password is asked for where one is needed
/// and none is saved.
pub proof fn clicks_do_what_is_needed(network: WifiNetwork, r: RowClick)
    requires
        call_ensures(row_click, (&network,), r),
    ensures
        (r is Nothing) == network.active,
        !network.active && network.saved_paths@.len() > 0 ==> r is Connect,
        !network.active && network.saved_paths@.len() == 0 ==> (r is NeedsProfile) == (
        network.security is Enterprise) && (r is AskPassword) == (network.security is Personal
            || network.security is Sae || network.security is Wep) && (r is Connect) == (
        network.security is Open || network.security is Owe),
{
}

proof fn first_active_is_active(networks: Seq<WifiNetwork>, from: int)
    requires
        0 <= from,
    ensures
        match first_active(networks, from) {
            Some(i) => from <= i < networks.len() && networks[i].active && forall|j: int|
                from <= j < i ==> !(#[trigger] networks[j]).active,
            None => forall|j: int| from <= j < networks.len() ==> !(#[trigger] networks[j]).active,
        },
    decreases networks.len() - from,
{
    if from < networks.len() {
        first_active_is_active(networks, from + 1);
    }
}

proof fn beginnings_stay(a: Seq<char>, s: Seq<char>, t: Seq<char>)
    requires
        s == a || begins_with(s, a),
    ensures
        begins_with(s + t, a),
{
    assert((s + t).subrange(0, a.len() as int) =~= s.subrange(0, a.len() as int));
    assert(a.subrange(0, a.len() as int) =~= a);
}

proof fn marks_stand_behind(a: Seq<char>, s: Seq<char>, active: bool)
    ensures
        begins_with(s, a) ==> begins_with(with_vless(s, active), a),
        active ==> ends_with(with_vless(s, active), "VLESS"@),
{
    if active {
        let all = s + " • VLESS"@;
        reveal_strlit(" • VLESS");
        reveal_strlit("VLESS");
        assert(all.subrange(all.len() - 5, all.len() as int) =~= "VLESS"@);
        if begins_with(s, a) {
            beginnings_stay(a, s, " • VLESS"@);
        }
    }
}

/// The header names the network in use, with its signal; the icon shows how strong it is, and that
/// of Wi-Fi switched off exactly where it is off or there is no device.
pub proof fn headers_name_the_network(panel: &NetworkController, r: HeaderView, i: int)
    requires
        call_ensures(NetworkController::header_view, (panel,), r),
        0 <= i < panel.wifi.networks@.len(),
        panel.wifi.networks@[i].active,
        forall|j: int| 0 <= j < i ==> !(#[trigger] panel.wifi.networks@[j]).active,
    ensures
        (r.icon@ == "󰖪"@) == !(panel.wifi.available && panel.wifi.enabled),
        panel.wifi.available && panel.wifi.enabled ==> {
            &&& r.title@ == panel.wifi.networks@[i].ssid@
            &&& begins_with(r.status@, decimal(panel.wifi.networks@[i].signal as nat))
            &&& begins_with(r.tooltip@, panel.wifi.networks@[i].ssid@)
            &&& (r.icon@ == "󰤨"@) == (panel.wifi.networks@[i].signal >= 80)
        },
        panel.vless.active ==> ends_with(r.status@, "VLESS"@) && ends_with(r.tooltip@, "VLESS"@),
{
    signal_icons_differ();
    first_active_is_active(panel.wifi.networks@, 0);
    let network = panel.wifi.networks@[i];
    let n = decimal(network.signal as nat);
    let label = network.security.label_text();
    beginnings_stay(n, n, "% • "@);
    beginnings_stay(n, n + "% • "@, label);
    beginnings_stay(network.ssid@, network.ssid@, " • "@);
    beginnings_stay(network.ssid@, network.ssid@ + " • "@, n);
    beginnings_stay(network.ssid@, network.ssid@ + " • "@ + n, "% • "@);
    beginnings_stay(network.ssid@, network.ssid@ + " • "@ + n + "% • "@, label);
    marks_stand_behind(n, panel.status_text(), panel.vless.active);
    marks_stand_behind(network.ssid@, panel.tooltip_text(), panel.vless.active);
}

/// The header offers what can be done: the switch where there is a device, a scan while Wi-Fi is on
/// and none runs, the tunnel where it is installed, and none of it while an action runs.
pub proof fn headers_offer_what_can_be_done(
    panel: &NetworkController,
    r: HeaderView,
    list: ListView,
    scans: bool,
)
    requires
        call_ensures(NetworkController::header_view, (panel,), r),
        call_ensures(NetworkController::list_view, (panel,), list),
        call_ensures(NetworkController::scans_on_open, (panel,), scans),
    ensures
        r.switch_active == panel.wifi.enabled,
        panel.action_busy ==> !r.switch_sensitive && !r.rescan_sensitive && !r.vless_sensitive
            && !r.rows_sensitive && !scans,
        !panel.action_busy ==> r.switch_sensitive == panel.wifi.available && r.vless_sensitive
            == panel.vless.available && r.rows_sensitive && r.rescan_sensitive == (
        panel.wifi.available && panel.wifi.enabled && !panel.rescan_busy) && scans == (
        panel.wifi.available && panel.wifi.enabled),
        (r.vless_icon@ == "󰌾"@) == panel.vless.active,
        (r.vless_icon@ == "󰌿"@) == !panel.vless.active,
        (list is NoDevice) == !panel.wifi.available,
        (list is Disabled) == (panel.wifi.available && !panel.wifi.enabled),
        (list is Networks) == (panel.wifi.available && panel.wifi.enabled
            && panel.wifi.networks@.len() > 0),
        !panel.vless.active ==> (!panel.wifi.available ==> r.status@ == "No Wi-Fi device"@) && (
        panel.wifi.available && !panel.wifi.enabled ==> r.status@ == "Disabled"@),
{
    reveal_strlit("󰌾");
    reveal_strlit("󰌿");
    assert("󰌾"@[0] != "󰌿"@[0]);
}

proof fn target_is_wanted(networks: Seq<WifiNetwork>, ssid: Seq<char>, from: int)
    requires
        0 <= from,
    ensures
        match find_target(networks, ssid, from) {
            Some(i) => from <= i < networks.len() && wants_password_for(networks[i], ssid),
            None => forall|j: int|
                from <= j < networks.len() ==> !wants_password_for(#[trigger] networks[j], ssid),
        },
    decreases networks.len() - from,
{
    if from < networks.len() {
        target_is_wanted(networks, ssid, from + 1);
    }
}

/// The question for a password stays as long as the network is there, unsaved and in need of one;
/// it goes away otherwise.
pub proof fn questions_stay_while_they_make_sense(
    target: Option<WifiNetwork>,
    snapshot: WifiSnapshot,
    r: Option<WifiNetwork>,
)
    requires
        call_ensures(refresh_password_target, (&target, &snapshot), r),
    ensures
        (r is Some) == (target is Some && exists|i: int|
            0 <= i < snapshot.networks@.len() && (#[trigger] snapshot.networks@[i]).ssid@
                == target->0.ssid@ && snapshot.networks@[i].saved_paths@.len() == 0 && (
            snapshot.networks@[i].security is Personal || snapshot.networks@[i].security is Sae
                || snapshot.networks@[i].security is Wep)),
        r matches Some(network) ==> network.ssid@ == target->0.ssid@,
{
    if target is Some {
        let ssid = target->0.ssid@;
        target_is_wanted(snapshot.networks@, ssid, 0);
        if r is Some {
            let i = find_target(snapshot.networks@, ssid, 0)->0;
            assert(r->0@.ssid == snapshot.networks@[i]@.ssid);
            assert(wants_password_for(snapshot.networks@[i], ssid));
        } else {
            assert forall|i: int| 0 <= i < snapshot.networks@.len() implies !wants_password_for(
                #[trigger] snapshot.networks@[i],
                ssid,
            ) by {}
        }
    }
}

/// A password that was typed connects to the network it was asked for, once; an empty one does
/// nothing.
pub proof fn passwords_connect_the_network_asked_for(
    asked: &mut NetworkController,
    network: WifiNetwork,
    title: String,
    answered: &mut NetworkController,
    password: &str,
    r: PasswordOutcome,
    again: &mut NetworkController,
    second: PasswordOutcome,
)
    requires
        call_ensures(NetworkController::show_password_prompt, (asked, network), title),
        *old(answered) == *final(asked),
        call_ensures(NetworkController::connect_password_target, (answered, password), r),
        *old(again) == *final(answered),
        call_ensures(NetworkController::connect_password_target, (again, password), second),
    ensures
        ends_with(title@, network.ssid@),
        final(asked).password_target == Some(network),
        (r is Connect) == (!old(asked).action_busy && password@.len() > 0),
        r matches PasswordOutcome::Connect(chosen) ==> chosen == network && second is Nothing,
        (r is Missing) == (!old(asked).action_busy && password@.len() == 0),
{
    parts_show("Connect to "@, network.ssid@, Seq::empty());
}

/// An action runs one at a time and an action on Wi-Fi ends the wait for a scan; after it the state
/// that it changed is read, that of the tunnel a moment later where the action succeeded.
pub proof fn actions_are_followed_by_a_read(
    begun: &mut NetworkController,
    target: RefreshTarget,
    starts: bool,
    second: &mut NetworkController,
    refused: bool,
    ended: &mut NetworkController,
    succeeded: bool,
    r: AfterAction,
)
    requires
        call_ensures(NetworkController::begin_action, (begun, target), starts),
        *old(second) == *final(begun),
        call_ensures(NetworkController::begin_action, (second, target), refused),
        *old(ended) == *final(second),
        call_ensures(NetworkController::finish_action, (ended, target, succeeded), r),
    ensures
        starts == !old(begun).action_busy,
        !refused,
        starts && target is Wifi ==> !final(begun).rescan_busy && final(begun).wifi_revision.value
            != old(begun).wifi_revision.value,
        starts && target is Vless ==> final(begun).rescan_busy == old(begun).rescan_busy && final(begun).vless_revision.value != old(begun).vless_revision.value,
        !final(ended).action_busy,
        (r is VlessLater) == (succeeded && target is Vless),
        r matches AfterAction::Now(read) ==> read == target,
{
}

/// A scan that was asked for is awaited until a snapshot shows it or its time is over, and only its
/// own time ends it.
pub proof fn scans_are_awaited(
    begun: &mut NetworkController,
    token: Option<u64>,
    second: &mut NetworkController,
    refused: Option<u64>,
    asked: &mut NetworkController,
    before: i64,
    newest: bool,
    late: &mut NetworkController,
    stale: u64,
    stale_ends: bool,
    over: &mut NetworkController,
    ends: bool,
)
    requires
        call_ensures(NetworkController::rescan, (begun,), token),
        token is Some,
        *old(second) == *final(begun),
        call_ensures(NetworkController::rescan, (second,), refused),
        *old(asked) == *final(second),
        call_ensures(
            NetworkController::rescan_requested,
            (asked, token->0, Some(before)),
            newest,
        ),
        *old(late) == *final(asked),
        stale != token->0,
        call_ensures(NetworkController::rescan_timed_out, (late, stale, before), stale_ends),
        *old(over) == *final(late),
        call_ensures(NetworkController::rescan_timed_out, (over, token->0, before), ends),
    ensures
        !old(begun).action_busy && !old(begun).rescan_busy,
        refused is None,
        newest,
        final(asked).rescan_busy,
        !stale_ends && final(late).rescan_busy,
        ends && !final(over).rescan_busy,
{
}

/// Wi-Fi that is switched off shows no network as in use and asks for no password.
pub proof fn switched_off_shows_no_network_in_use(panel: &mut NetworkController, enabled: bool, i: int)
    requires
        call_ensures(NetworkController::set_wifi_enabled, (panel, enabled), ()),
        0 <= i < final(panel).wifi.networks@.len(),
    ensures
        final(panel).wifi.enabled == enabled,
        !enabled ==> final(panel).password_target is None && !final(panel).wifi.networks@[i].active,
        final(panel).wifi.networks@.len() == old(panel).wifi.networks@.len(),
        final(panel).wifi.networks@[i].ssid@ == old(panel).wifi.networks@[i].ssid@,
        enabled ==> final(panel).wifi.networks@[i].active == old(panel).wifi.networks@[i].active,
{
    let (now, before) = (final(panel).wifi.networks@, old(panel).wifi.networks@);
    assert(network_models(now).len() == now.len());
    assert(network_models(before).len() == before.len());
    assert(network_models(now)[i] == now[i]@);
    assert(network_models(before)[i] == before[i]@);
    assert(now[i]@.active == now[i].active && before[i]@.active == before[i].active);
    assert(now[i]@.ssid == now[i].ssid@ && before[i]@.ssid == before[i].ssid@);
}

/// What is said while something is done tells what it is, and to which network.
pub proof fn notices_tell_what_is_done(
    on: bool,
    radio: &'static str,
    tunnel: &'static str,
    ssid: &str,
    connecting: String,
    forgetting: String,
)
    requires
        call_ensures(radio_notice, (on,), radio),
        call_ensures(vless_notice, (on,), tunnel),
        call_ensures(connecting_notice, (ssid,), connecting),
        call_ensures(forgetting_notice, (ssid,), forgetting),
    ensures
        (radio@ == "Enabling Wi-Fi…"@) == on && (radio@ == "Disabling Wi-Fi…"@) == !on,
        (tunnel@ == "Starting VLESS…"@) == on && (tunnel@ == "Stopping VLESS…"@) == !on,
        begins_with(connecting@, "Connecting to "@) && has_text(connecting@, ssid@),
        begins_with(forgetting@, "Forgetting "@) && has_text(forgetting@, ssid@),
{
    reveal_strlit("Enabling Wi-Fi…");
    reveal_strlit("Disabling Wi-Fi…");
    reveal_strlit("Starting VLESS…");
    reveal_strlit("Stopping VLESS…");
    assert("Enabling Wi-Fi…"@[0] != "Disabling Wi-Fi…"@[0]);
    assert("Starting VLESS…"@[2] != "Stopping VLESS…"@[2]);
    parts_show("Connecting to "@, ssid@, "…"@);
    parts_show("Forgetting "@, ssid@, "…"@);
}

/// A snapshot is shown from when it came, and the header and the list are drawn anew the first time
/// and whenever what they show has changed.
pub proof fn snapshots_are_shown(
    panel: &mut NetworkController,
    snapshot: WifiSnapshot,
    visible: bool,
    r: WifiOutcome,
)
    requires
        call_ensures(NetworkController::apply_snapshot, (panel, snapshot, visible), r),
    ensures
        final(panel).wifi == snapshot,
        !old(panel).header_initialized ==> r.update_header,
        old(panel).wifi.enabled != snapshot.enabled ==> r.update_header && (visible ==> r.sync_list),
        !old(panel).list_initialized && visible ==> r.sync_list,
        network_models(old(panel).wifi.networks@) != network_models(snapshot.networks@) ==> (visible
            ==> r.sync_list) && (!visible ==> final(panel).list_dirty),
        r.sync_list ==> visible,
        r.stop_animation ==> old(panel).rescan_busy || old(panel).rescan_baseline is Some,
        r.stop_animation ==> !final(panel).rescan_busy,
        final(panel).action_busy == old(panel).action_busy,
        final(panel).vless == old(panel).vless,
{
}

/// The header is drawn anew where Wi-Fi was switched or the network in use is another or stronger,
/// and not where nothing changed.
pub proof fn headers_change_with_what_they_show(
    a: WifiSnapshot,
    b: WifiSnapshot,
    r: bool,
    same: bool,
    panel: &mut NetworkController,
    vless: VlessState,
    changed: bool,
)
    requires
        call_ensures(wifi_header_changed, (&a, &b), r),
        call_ensures(wifi_header_changed, (&a, &a), same),
        call_ensures(NetworkController::apply_vless_state, (panel, vless), changed),
    ensures
        !same,
        a.enabled != b.enabled || a.available != b.available ==> r,
        b.available && b.enabled && a.available && a.enabled && a.networks@.len() > 0
            && b.networks@.len() > 0 && a.networks@[0].active && b.networks@[0].active ==> r == (
        a.networks@[0].ssid@ != b.networks@[0].ssid@ || a.networks@[0].signal
            != b.networks@[0].signal || a.networks@[0].security != b.networks@[0].security),
        final(panel).vless == vless,
        changed == (old(panel).vless != vless),
        final(panel).wifi == old(panel).wifi,
{
}

/// Without a network in use the header says how many there are, and the button that Wi-Fi is ready,
/// off or missing.
pub proof fn idle_headers_count_the_networks(panel: &NetworkController, r: HeaderView)
    requires
        call_ensures(NetworkController::header_view, (panel,), r),
        forall|i: int|
            0 <= i < panel.wifi.networks@.len() ==> !(#[trigger] panel.wifi.networks@[i]).active,
        !panel.vless.active,
    ensures
        r.title@ == "Wi-Fi"@,
        panel.wifi.available && panel.wifi.enabled ==> r.tooltip@ == "Wi-Fi ready"@ && (
        panel.wifi.networks@.len() == 0 ==> r.status@ == "Ready"@) && (panel.wifi.networks@.len()
            > 0 ==> begins_with(r.status@, decimal(panel.wifi.networks@.len())) && ends_with(
            r.status@,
            " networks"@,
        )) && r.icon@ == "󰤮"@,
        panel.wifi.available && !panel.wifi.enabled ==> r.tooltip@ == "Wi-Fi disabled"@,
        !panel.wifi.available ==> r.tooltip@ == "Wi-Fi • no NetworkManager device"@,
{
    first_active_is_active(panel.wifi.networks@, 0);
    parts_show(decimal(panel.wifi.networks@.len()), " networks"@, Seq::empty());
}

/// A row is redrawn where what it shows changes: where no part is told to change, the icons and the
/// lines of both networks are the same.
pub proof fn rows_change_with_what_they_show(
    a: WifiNetwork,
    b: WifiNetwork,
    r: RowChanges,
    same: RowChanges,
    icons: (&'static str, &'static str),
    lines: (String, String),
    marks: (&'static str, &'static str),
    saved: (bool, bool),
)
    requires
        call_ensures(row_changes, (&a, &b), r),
        call_ensures(row_changes, (&a, &a), same),
        call_ensures(wifi_signal_icon, (a.signal,), icons.0),
        call_ensures(wifi_signal_icon, (b.signal,), icons.1),
        call_ensures(network_meta, (&a,), lines.0),
        call_ensures(network_meta, (&b,), lines.1),
        call_ensures(network_status_icon, (&a,), marks.0),
        call_ensures(network_status_icon, (&b,), marks.1),
        call_ensures(WifiNetwork::saved, (&a,), saved.0),
        call_ensures(WifiNetwork::saved, (&b,), saved.1),
    ensures
        r.icon == (icons.0@ != icons.1@),
        !r.meta ==> lines.0@ == lines.1@,
        !r.status ==> marks.0@ == marks.1@,
        r.forget_button == (saved.0 != saved.1),
        !same.icon && !same.meta && !same.status && !same.forget_button,
        a.signal != b.signal ==> r.meta,
        a.active != b.active ==> r.status,
{
}

/// A question that is closed takes no password.
pub proof fn closed_questions_take_no_password(
    panel: &mut NetworkController,
    answered: &mut NetworkController,
    password: &str,
    r: PasswordOutcome,
)
    requires
        call_ensures(NetworkController::hide_password_prompt, (panel,), ()),
        *old(answered) == *final(panel),
        call_ensures(NetworkController::connect_password_target, (answered, password), r),
    ensures
        !(r is Connect),
        final(answered).wifi == old(panel).wifi,
{
}

} // verus!
