//! The Bluetooth popup: what it shows, and what each event does to it.
use crate::bluetooth_agent::{AgentEvent, AgentPromptKind, EventModel};
use crate::bluetooth_backend::{
    device_models, device_position, find_device, same_devices, BluetoothDevice, BluetoothSnapshot,
};
use crate::gate::{bumped, Generation};
use crate::text::{
    all_digits, begins_with, blank_texts_trim_to_nothing, chars_of, concat2, concat3, concat4,
    contains, copy_opt, decimal, digits_value, ends_with, has_text, is_ascii_number, is_blank,
    is_space, join, joined, joined_holds, lower_text, numeral, numerals_stand_for_their_number,
    occurs_at, opt_str, opt_text, parts_show, push_text, same, same_opt, texts, to_lowercase, trim,
    trimmed, trimming_takes_white_space_alone,
};
use vstd::prelude::*;

verus! {

pub const ICON_BLUETOOTH_OFF: &'static str = "󰂲";

pub const ICON_BLUETOOTH_CONNECTED: &'static str = "󰂱";

pub const ICON_BLUETOOTH_ON: &'static str = "󰂯";

/// How long a search for devices runs, in milliseconds.
pub const DISCOVERY_TIMEOUT_MS: u64 = 10_000;

/// How long a notice is shown, in milliseconds.
pub const NOTICE_TIMEOUT_MS: u64 = 4_200;

/// What is being done with a device.
#[derive(Clone, Copy, Debug, PartialEq, Eq, Structural)]
pub enum PendingDeviceAction {
    Pairing,
    Connecting,
    Disconnecting,
    Removing,
}

impl PendingDeviceAction {
    /// Whether the device will be connected once the action is done.
    pub fn target_connected(self, current: bool) -> (r: bool)
        ensures
            r == (match self {
                PendingDeviceAction::Pairing => true,
                PendingDeviceAction::Connecting => true,
                PendingDeviceAction::Disconnecting => false,
                PendingDeviceAction::Removing => current,
            }),
    {
        match self {
            PendingDeviceAction::Pairing => true,
            PendingDeviceAction::Connecting => true,
            PendingDeviceAction::Disconnecting => false,
            PendingDeviceAction::Removing => current,
        }
    }

    pub open spec fn status_text(self) -> Seq<char> {
        match self {
            PendingDeviceAction::Pairing => "Pairing…"@,
            PendingDeviceAction::Connecting => "Connecting…"@,
            PendingDeviceAction::Disconnecting => "Disconnecting…"@,
            PendingDeviceAction::Removing => "Removing…"@,
        }
    }

    pub fn status(self) -> (r: &'static str)
        ensures
            r@ == self.status_text(),
    {
        match self {
            PendingDeviceAction::Pairing => "Pairing…",
            PendingDeviceAction::Connecting => "Connecting…",
            PendingDeviceAction::Disconnecting => "Disconnecting…",
            PendingDeviceAction::Removing => "Removing…",
        }
    }
}

#[derive(Clone, Debug, PartialEq, Eq)]
pub struct PendingDevice {
    pub path: String,
    pub action: PendingDeviceAction,
}

/// The path of the device that an action of one kind is about.
pub open spec fn pending_path(pending: Option<PendingDevice>, action: PendingDeviceAction) -> Option<
    Seq<char>,
> {
    match pending {
        Some(pending) => if pending.action == action {
            Some(pending.path@)
        } else {
            None
        },
        None => None,
    }
}

#[derive(Clone, Copy, Debug, PartialEq, Eq, Structural)]
pub enum PairingPromptMode {
    Hidden,
    Input,
    Confirmation,
    Display,
}

/// The part of the popup that asks about a pairing. The entry is shown where input is wanted.
#[derive(Clone, Debug, PartialEq, Eq)]
pub struct PairingPrompt {
    pub mode: PairingPromptMode,
    pub device_path: Option<String>,
    pub title: String,
    pub message: String,
    /// The code to compare or to type.
    pub code: Option<String>,
    /// What the empty entry says.
    pub placeholder: &'static str,
    /// The label of the button that agrees, where there is one.
    pub confirm_label: Option<&'static str>,
}

/// The contents of a `PairingPrompt`.
pub struct PromptModel {
    pub mode: PairingPromptMode,
    pub device_path: Option<Seq<char>>,
    pub title: Seq<char>,
    pub message: Seq<char>,
    pub code: Option<Seq<char>>,
    pub placeholder: Seq<char>,
    pub confirm_label: Option<Seq<char>>,
}

impl View for PairingPrompt {
    type V = PromptModel;

    open spec fn view(&self) -> PromptModel {
        PromptModel {
            mode: self.mode,
            device_path: opt_text(self.device_path),
            title: self.title@,
            message: self.message@,
            code: opt_text(self.code),
            placeholder: self.placeholder@,
            confirm_label: opt_str(self.confirm_label),
        }
    }
}

/// The prompt that is not shown.
pub open spec fn hidden_prompt() -> PromptModel {
    PromptModel {
        mode: PairingPromptMode::Hidden,
        device_path: None,
        title: "Pair Bluetooth device"@,
        message: ""@,
        code: None,
        placeholder: ""@,
        confirm_label: None,
    }
}

/// A number with zeros in front up to six digits.
pub open spec fn six_digits(n: nat) -> Seq<char> {
    zeros(6 - decimal(n).len()) + decimal(n)
}

/// A row of `n` zeros.
pub open spec fn zeros(n: int) -> Seq<char>
    decreases n,
{
    if n <= 0 {
        Seq::empty()
    } else {
        zeros(n - 1).push('0')
    }
}

/// The prompt for an event that shows one; `name` is that of the device.
pub open spec fn prompt_for(event: EventModel, name: Seq<char>) -> PromptModel {
    match event {
        EventModel::Prompt { device_path, kind } => PromptModel {
            mode: match kind {
                AgentPromptKind::PinCode => PairingPromptMode::Input,
                AgentPromptKind::Passkey => PairingPromptMode::Input,
                _ => PairingPromptMode::Confirmation,
            },
            device_path: Some(device_path),
            title: "Pair with "@ + name,
            message: match kind {
                AgentPromptKind::PinCode => "Enter the PIN requested by the Bluetooth device."@,
                AgentPromptKind::Passkey => "Enter the passkey shown on the Bluetooth device."@,
                AgentPromptKind::Confirmation { .. } => {
                    "Confirm that this code matches on both devices."@
                },
                AgentPromptKind::Authorization => "Allow this Bluetooth pairing request?"@,
            },
            code: match kind {
                AgentPromptKind::Confirmation { passkey } => Some(six_digits(passkey as nat)),
                _ => None,
            },
            placeholder: match kind {
                AgentPromptKind::PinCode => "PIN"@,
                AgentPromptKind::Passkey => "6-digit passkey"@,
                _ => ""@,
            },
            confirm_label: Some(
                match kind {
                    AgentPromptKind::PinCode => "Pair"@,
                    AgentPromptKind::Passkey => "Pair"@,
                    AgentPromptKind::Confirmation { .. } => "Confirm"@,
                    AgentPromptKind::Authorization => "Allow"@,
                },
            ),
        },
        EventModel::DisplayPinCode { device_path, pincode } => PromptModel {
            mode: PairingPromptMode::Display,
            device_path: Some(device_path),
            title: "Pair with "@ + name,
            message: "Type this code on the Bluetooth device, then press Enter."@,
            code: Some(pincode),
            placeholder: ""@,
            confirm_label: None,
        },
        EventModel::DisplayPasskey { device_path, passkey, entered } => PromptModel {
            mode: PairingPromptMode::Display,
            device_path: Some(device_path),
            title: "Pair with "@ + name,
            message: "Type this code on the Bluetooth device, then press Enter. "@ + decimal(
                if entered < 6 {
                    entered as nat
                } else {
                    6
                },
            ) + "/6 digits entered."@,
            code: Some(six_digits(passkey as nat)),
            placeholder: ""@,
            confirm_label: None,
        },
        _ => hidden_prompt(),
    }
}

/// What the popup has to do for an event of the pairing agent.
#[derive(Clone, Copy, Debug, PartialEq, Eq, Structural)]
pub enum PromptOutcome {
    /// The pairing was given up: answer the question with no.
    Reject,
    /// The pairing was given up: nothing to do.
    Ignore,
    /// Show the prompt, and put the focus on its entry where `focus_entry`.
    Show { focus_entry: bool },
    Hide,
}

/// How the user's agreement answers the open question.
#[derive(Clone, Copy, Debug, PartialEq, Eq, Structural)]
pub enum Submission {
    /// With the text of the entry.
    Input,
    /// With yes.
    Confirm,
}

/// An action on the adapter's power.
pub struct PowerJob {
    pub adapter_path: String,
    /// Stop the search for devices first.
    pub stop_discovery: bool,
}

/// An action on the search for devices.
pub struct ScanJob {
    pub adapter_path: String,
}

/// An action on a device's connection.
#[derive(Clone, Debug, PartialEq, Eq)]
pub struct ConnectJob {
    pub device_path: String,
    pub device_name: String,
    pub paired: bool,
    pub trusted: bool,
    pub connect: bool,
    /// The adapter whose search for devices is to stop first.
    pub stop_discovery_on: Option<String>,
}

impl ConnectJob {
    /// Whether the device has to be paired.
    pub open spec fn pairs(self) -> bool {
        self.connect && !self.paired
    }

    pub open spec fn action(self) -> PendingDeviceAction {
        if self.pairs() {
            PendingDeviceAction::Pairing
        } else if self.connect {
            PendingDeviceAction::Connecting
        } else {
            PendingDeviceAction::Disconnecting
        }
    }
}

/// An action that removes a device.
pub struct RemoveJob {
    pub adapter_path: String,
    pub device_path: String,
}

/// What the popup has to do for a new snapshot.
#[derive(Clone, Copy, Debug, PartialEq, Eq, Structural)]
pub struct SnapshotOutcome {
    pub close_popup: bool,
    pub refresh_list: bool,
}

/// What the header of the popup and the button in the bar show.
pub struct HeaderView {
    pub available: bool,
    pub glyph: &'static str,
    pub tooltip: String,
    pub title: String,
    pub status: &'static str,
    pub switch_sensitive: bool,
    pub switch_active: bool,
    pub scan_visible: bool,
    pub scan_sensitive: bool,
    pub scan_animating: bool,
}

/// What the list of the popup shows.
#[derive(Clone, Copy, Debug, PartialEq, Eq, Structural)]
pub enum ListView {
    Unavailable,
    Off,
    Scanning,
    NoDevices,
    Devices,
}

/// The state of the Bluetooth popup.
pub struct BluetoothController {
    pub snapshot: BluetoothSnapshot,
    pub snapshot_generation: Generation,
    pub action_busy: bool,
    pub pending_power: Option<bool>,
    pub pending_scan: Option<bool>,
    pub pending_device: Option<PendingDevice>,
    pub prompt: PairingPrompt,
    pub pairing_cancelled: bool,
    pub discovery_timeout: Generation,
    pub notice: Generation,
    pub list_initialized: bool,
    pub list_dirty: bool,
}

/// The names of the connected devices among the first `n`.
pub open spec fn connected_names(devices: Seq<BluetoothDevice>, n: nat) -> Seq<Seq<char>>
    decreases n,
{
    if n == 0 {
        Seq::empty()
    } else {
        let before = connected_names(devices, (n - 1) as nat);
        if devices[n - 1].connected {
            before.push(devices[n - 1].name@)
        } else {
            before
        }
    }
}

pub open spec fn glyph_text(powered: bool, connected: bool) -> Seq<char> {
    if !powered {
        ICON_BLUETOOTH_OFF@
    } else if connected {
        ICON_BLUETOOTH_CONNECTED@
    } else {
        ICON_BLUETOOTH_ON@
    }
}

pub fn trigger_glyph(powered: bool, connected: bool) -> (r: &'static str)
    ensures
        r@ == glyph_text(powered, connected),
{
    if !powered {
        ICON_BLUETOOTH_OFF
    } else if connected {
        ICON_BLUETOOTH_CONNECTED
    } else {
        ICON_BLUETOOTH_ON
    }
}

/// The glyph of a device, found by what its icon and its name speak of.
pub open spec fn device_glyph_text(icon: Seq<char>, name: Seq<char>) -> Seq<char> {
    glyph_for_text(lower_text(icon + " "@ + name))
}

/// The glyph of a device of which `value`, in lower case, speaks.
pub open spec fn glyph_for_text(value: Seq<char>) -> Seq<char> {
    if has_text(value, "headset"@) || has_text(value, "headphone"@) || has_text(value, "earbud"@) {
        "󰋋"@
    } else if has_text(value, "speaker"@) || has_text(value, "audio-card"@) {
        "󰓃"@
    } else if has_text(value, "phone"@) {
        "󰄜"@
    } else if has_text(value, "keyboard"@) {
        "󰌌"@
    } else if has_text(value, "mouse"@) {
        "󰍽"@
    } else if has_text(value, "gamepad"@) || has_text(value, "joystick"@) || has_text(
        value,
        "input-gaming"@,
    ) {
        "󰮂"@
    } else if has_text(value, "watch"@) {
        "󰢗"@
    } else if has_text(value, "computer"@) || has_text(value, "laptop"@) {
        "󰌢"@
    } else if has_text(value, "printer"@) {
        "󰐪"@
    } else {
        ICON_BLUETOOTH_ON@
    }
}

pub fn device_glyph(icon: &str, name: &str) -> (r: &'static str)
    ensures
        r@ == device_glyph_text(icon@, name@),
{
    let described = concat3(icon, " ", name);
    let value = to_lowercase(&described);
    glyph_for(&value)
}

/// The glyph of a device of which `value`, in lower case, speaks.
pub fn glyph_for(value: &str) -> (r: &'static str)
    ensures
        r@ == glyph_for_text(value@),
{
    if contains(value, "headset") || contains(value, "headphone") || contains(value, "earbud") {
        "󰋋"
    } else if contains(value, "speaker") || contains(value, "audio-card") {
        "󰓃"
    } else if contains(value, "phone") {
        "󰄜"
    } else if contains(value, "keyboard") {
        "󰌌"
    } else if contains(value, "mouse") {
        "󰍽"
    } else if contains(value, "gamepad") || contains(value, "joystick") || contains(
        value,
        "input-gaming",
    ) {
        "󰮂"
    } else if contains(value, "watch") {
        "󰢗"
    } else if contains(value, "computer") || contains(value, "laptop") {
        "󰌢"
    } else if contains(value, "printer") {
        "󰐪"
    } else {
        ICON_BLUETOOTH_ON
    }
}

/// The line under a device's name.
pub open spec fn meta_text(device: BluetoothDevice, pending: Option<PendingDeviceAction>) -> Seq<
    char,
> {
    match pending {
        Some(action) => action.status_text(),
        None => {
            let state = if device.connected {
                "Connected"@
            } else if device.is_known() {
                "Disconnected"@
            } else {
                "Available"@
            };
            match device.battery {
                Some(battery) => state + " • "@ + decimal(battery as nat) + "%"@,
                None => state,
            }
        },
    }
}

pub fn device_meta(device: &BluetoothDevice, pending: Option<PendingDeviceAction>) -> (r: String)
    ensures
        r@ == meta_text(*device, pending),
{
    match pending {
        Some(action) => action.status().to_owned(),
        None => {
            let state = if device.connected {
                "Connected"
            } else if device.known() {
                "Disconnected"
            } else {
                "Available"
            };
            match device.battery {
                Some(battery) => {
                    let number = numeral(battery as u64);
                    concat4(state, " • ", &number, "%")
                },
                None => state.to_owned(),
            }
        },
    }
}

/// What the row of a device offers.
pub struct DeviceRowView {
    pub glyph: &'static str,
    pub meta: String,
    pub sensitive: bool,
    /// The label of the button that pairs, in place of a switch.
    pub pair_label: Option<&'static str>,
    pub switch_active: bool,
}

fn zero_row(n: usize) -> (r: String)
    ensures
        r@ == zeros(n as int),
{
    let mut out = String::new();
    let mut i: usize = 0;
    while i < n
        invariant
            i <= n,
            out@ == zeros(i as int),
        decreases n - i,
    {
        out.push('0');
        i = i + 1;
    }
    out
}

fn code_text(passkey: u32) -> (r: String)
    ensures
        r@ == six_digits(passkey as nat),
{
    let digits = numeral(passkey as u64);
    let count: usize = chars_of(&digits).len();
    if count < 6 {
        let front = zero_row(6 - count);
        concat2(&front, &digits)
    } else {
        assert(zeros(6 - digits@.len()) + digits@ =~= digits@);
        digits
    }
}

impl BluetoothController {
    /// An action on a device runs only while the popup is busy, and only a pairing can be given
    /// up.
    pub open spec fn wf(&self) -> bool {
        &&& self.pending_device is Some ==> self.action_busy
        &&& self.pairing_cancelled ==> pending_path(
            self.pending_device,
            PendingDeviceAction::Pairing,
        ) is Some
    }

    /// Whether the popup shows the adapter as powered: as it will be once the running action is
    /// done.
    pub open spec fn shows_powered(&self) -> bool {
        match self.pending_power {
            Some(target) => target,
            None => self.snapshot.is_powered(),
        }
    }

    /// Whether the popup shows a search as running.
    pub open spec fn shows_scanning(&self) -> bool {
        match self.pending_scan {
            Some(target) => target,
            None => self.snapshot.is_discovering(),
        }
    }

    /// The name of the device with the path.
    pub open spec fn name_for(&self, path: Seq<char>) -> Seq<char> {
        match find_device(self.snapshot.devices@, path, 0) {
            Some(i) => self.snapshot.devices@[i].name@,
            None => "Bluetooth device"@,
        }
    }

    /// What the button in the bar says.
    pub open spec fn tooltip_text(&self) -> Seq<char> {
        if self.snapshot.adapter is None {
            "Bluetooth unavailable"@
        } else if !self.shows_powered() {
            "Bluetooth off"@
        } else {
            let first = if self.shows_scanning() {
                "Bluetooth scanning"@
            } else if self.snapshot.is_connected() {
                "Bluetooth connected"@
            } else {
                "Bluetooth on"@
            };
            let names = connected_names(self.snapshot.devices@, self.snapshot.devices@.len());
            if names.len() == 0 {
                first
            } else {
                first + "\n"@ + joined(names, ", "@)
            }
        }
    }

    pub open spec fn status_text(&self) -> Seq<char> {
        if self.pending_power == Some(true) && !self.snapshot.is_powered() {
            "Turning on…"@
        } else if self.pending_power == Some(false) && self.snapshot.is_powered() {
            "Turning off…"@
        } else if self.snapshot.adapter is None {
            "Unavailable"@
        } else if !self.shows_powered() {
            "Off"@
        } else if self.shows_scanning() {
            "Scanning…"@
        } else {
            "Ready"@
        }
    }

    pub fn new() -> (r: Self)
        ensures
            r.wf(),
            r.snapshot.adapter is None,
            r.snapshot.devices@.len() == 0,
            !r.action_busy,
            r.pending_power is None,
            r.pending_scan is None,
            r.pending_device is None,
            r.prompt@ == hidden_prompt(),
            r.snapshot_generation.value == 0,
            r.discovery_timeout.value == 0,
            r.notice.value == 0,
            !r.list_initialized,
            !r.list_dirty,
    {
        BluetoothController {
            snapshot: BluetoothSnapshot::default(),
            snapshot_generation: Generation::default(),
            action_busy: false,
            pending_power: None,
            pending_scan: None,
            pending_device: None,
            prompt: closed_prompt(),
            pairing_cancelled: false,
            discovery_timeout: Generation::default(),
            notice: Generation::default(),
            list_initialized: false,
            list_dirty: false,
        }
    }

    fn display_powered(&self) -> (r: bool)
        ensures
            r == self.shows_powered(),
    {
        match self.pending_power {
            Some(target) => target,
            None => self.snapshot.powered(),
        }
    }

    pub fn display_scanning(&self) -> (r: bool)
        ensures
            r == self.shows_scanning(),
    {
        match self.pending_scan {
            Some(target) => target,
            None => self.snapshot.discovering(),
        }
    }

    /// Whether the list would look different with `next` in place of the snapshot.
    pub open spec fn list_differs(&self, next: &BluetoothSnapshot) -> bool {
        let now = self.snapshot;
        let same_adapter = match (now.adapter, next.adapter) {
            (Some(a), Some(b)) => a.path@ == b.path@ && a.powered == b.powered,
            (None, None) => true,
            _ => false,
        };
        ||| !same_adapter
        ||| device_models(now.devices@) != device_models(next.devices@)
        ||| now.devices@.len() == 0 && next.devices@.len() == 0 && now.is_discovering()
            != next.is_discovering()
    }

    fn list_changes(&self, next: &BluetoothSnapshot) -> (r: bool)
        ensures
            r == self.list_differs(next),
    {
        let same_adapter = match (&self.snapshot.adapter, &next.adapter) {
            (Some(a), Some(b)) => same(&a.path, &b.path) && a.powered == b.powered,
            (None, None) => true,
            _ => false,
        };
        !same_adapter || !same_devices(&self.snapshot.devices, &next.devices) || (
        self.snapshot.devices.is_empty() && next.devices.is_empty() && self.snapshot.discovering()
            != next.discovering())
    }

    /// Takes a new snapshot. A wish that it shows as granted is forgotten.
    pub fn apply_snapshot(&mut self, snapshot: BluetoothSnapshot, popup_visible: bool) -> (r:
        SnapshotOutcome)
        requires
            old(self).wf(),
        ensures
            final(self).wf(),
            *final(self) == (BluetoothController {
                snapshot,
                pending_power: if old(self).pending_power == Some(snapshot.is_powered()) {
                    None
                } else {
                    old(self).pending_power
                },
                pending_scan: if old(self).pending_scan == Some(snapshot.is_discovering()) {
                    None
                } else {
                    old(self).pending_scan
                },
                ..*old(self)
            }),
            r == (SnapshotOutcome {
                close_popup: snapshot.adapter is None && popup_visible,
                refresh_list: old(self).list_differs(&snapshot) || !old(self).list_initialized,
            }),
    {
        let changed = self.list_changes(&snapshot);
        let available = snapshot.available();
        if let Some(target) = self.pending_power {
            if snapshot.powered() == target {
                self.pending_power = None;
            }
        }
        if let Some(target) = self.pending_scan {
            if snapshot.discovering() == target {
                self.pending_scan = None;
            }
        }
        self.snapshot = snapshot;
        SnapshotOutcome {
            close_popup: !available && popup_visible,
            refresh_list: changed || !self.list_initialized,
        }
    }

    /// Whether to build the list now; a popup that is not shown builds it when it opens.
    pub fn refresh_device_list(&mut self, popup_visible: bool) -> (r: bool)
        ensures
            r == popup_visible,
            *final(self) == (BluetoothController {
                list_initialized: old(self).list_initialized || popup_visible,
                list_dirty: !popup_visible,
                ..*old(self)
            }),
    {
        if popup_visible {
            self.list_initialized = true;
            self.list_dirty = false;
        } else {
            self.list_dirty = true;
        }
        popup_visible
    }

    /// What the list shows.
    pub fn list_view(&self) -> (r: ListView)
        ensures
            r == (if self.snapshot.adapter is None {
                ListView::Unavailable
            } else if !self.shows_powered() {
                ListView::Off
            } else if self.snapshot.devices@.len() > 0 {
                ListView::Devices
            } else if self.shows_scanning() {
                ListView::Scanning
            } else {
                ListView::NoDevices
            }),
    {
        if !self.snapshot.available() {
            ListView::Unavailable
        } else if !self.display_powered() {
            ListView::Off
        } else if !self.snapshot.devices.is_empty() {
            ListView::Devices
        } else if self.display_scanning() {
            ListView::Scanning
        } else {
            ListView::NoDevices
        }
    }

    fn tooltip(&self) -> (r: String)
        ensures
            r@ == self.tooltip_text(),
    {
        if !self.snapshot.available() {
            return "Bluetooth unavailable".to_owned();
        }
        if !self.display_powered() {
            return "Bluetooth off".to_owned();
        }
        let mut names: Vec<String> = Vec::new();
        let mut i: usize = 0;
        while i < self.snapshot.devices.len()
            invariant
                i <= self.snapshot.devices@.len(),
                texts(names@) =~= connected_names(self.snapshot.devices@, i as nat),
            decreases self.snapshot.devices@.len() - i,
        {
            if self.snapshot.devices[i].connected {
                names.push(self.snapshot.devices[i].name.clone());
            }
            i = i + 1;
        }
        let mut out = if self.display_scanning() {
            "Bluetooth scanning".to_owned()
        } else if self.snapshot.connected() {
            "Bluetooth connected".to_owned()
        } else {
            "Bluetooth on".to_owned()
        };
        if !names.is_empty() {
            let list = join(&names, ", ");
            push_text(&mut out, "\n");
            push_text(&mut out, &list);
        }
        out
    }

    /// What the header shows.
    pub fn header_view(&self) -> (r: HeaderView)
        ensures
            r.available == self.snapshot.adapter is Some,
            r.glyph@ == glyph_text(
                self.shows_powered(),
                self.shows_powered() && self.snapshot.is_connected(),
            ),
            r.tooltip@ == self.tooltip_text(),
            r.title@ == (match self.snapshot.adapter {
                Some(adapter) => adapter.alias@,
                None => "Bluetooth"@,
            }),
            r.status@ == self.status_text(),
            r.switch_sensitive == (self.snapshot.adapter is Some && !self.action_busy),
            r.switch_active == self.shows_powered(),
            r.scan_visible == (self.snapshot.adapter is Some && self.shows_powered()),
            r.scan_sensitive == (r.scan_visible && !self.action_busy),
            r.scan_animating == (r.scan_visible && self.shows_scanning()),
    {
        let available = self.snapshot.available();
        let connected = self.snapshot.connected();
        let powered = self.display_powered();
        let scanning = self.display_scanning();
        let was_powered = self.snapshot.powered();
        let status = if self.pending_power == Some(true) && !was_powered {
            "Turning on…"
        } else if self.pending_power == Some(false) && was_powered {
            "Turning off…"
        } else if !available {
            "Unavailable"
        } else if !powered {
            "Off"
        } else if scanning {
            "Scanning…"
        } else {
            "Ready"
        };
        let title = match &self.snapshot.adapter {
            Some(adapter) => adapter.alias.clone(),
            None => "Bluetooth".to_owned(),
        };
        let show_scan = available && powered;
        HeaderView {
            available,
            glyph: trigger_glyph(powered, powered && connected),
            tooltip: self.tooltip(),
            title,
            status,
            switch_sensitive: available && !self.action_busy,
            switch_active: powered,
            scan_visible: show_scan,
            scan_sensitive: show_scan && !self.action_busy,
            scan_animating: show_scan && scanning,
        }
    }

    /// The action on the device that runs.
    pub open spec fn action_on(&self, path: Seq<char>) -> Option<PendingDeviceAction> {
        match self.pending_device {
            Some(pending) => if pending.path@ == path {
                Some(pending.action)
            } else {
                None
            },
            None => None,
        }
    }

    /// What the row of a device shows.
    pub fn device_row_view(&self, device: &BluetoothDevice) -> (r: DeviceRowView)
        ensures
            r.glyph@ == device_glyph_text(device.icon@, device.name@),
            r.meta@ == meta_text(*device, self.action_on(device.path@)),
            r.sensitive == !self.action_busy,
            match r.pair_label {
                Some(label) => !device.connected && !device.paired && label@ == (
                if self.action_on(device.path@) == Some(PendingDeviceAction::Pairing) {
                    "Pairing…"@
                } else {
                    "Pair"@
                }),
                None => device.connected || device.paired,
            },
            r.switch_active == (match self.action_on(device.path@) {
                Some(PendingDeviceAction::Pairing) => true,
                Some(PendingDeviceAction::Connecting) => true,
                Some(PendingDeviceAction::Disconnecting) => false,
                _ => device.connected,
            }),
    {
        let action = match &self.pending_device {
            Some(pending) => if same(&pending.path, &device.path) {
                Some(pending.action)
            } else {
                None
            },
            None => None,
        };
        let pairing = match action {
            Some(PendingDeviceAction::Pairing) => true,
            _ => false,
        };
        DeviceRowView {
            glyph: device_glyph(&device.icon, &device.name),
            meta: device_meta(device, action),
            sensitive: !self.action_busy,
            pair_label: if !device.connected && !device.paired {
                Some(if pairing {
                    "Pairing…"
                } else {
                    "Pair"
                })
            } else {
                None
            },
            switch_active: match action {
                Some(action) => action.target_connected(device.connected),
                None => device.connected,
            },
        }
    }

    pub fn device_name_for_path(&self, device_path: &str) -> (r: String)
        ensures
            r@ == self.name_for(device_path@),
    {
        match device_position(&self.snapshot.devices, device_path) {
            Some(i) => self.snapshot.devices[i].name.clone(),
            None => "Bluetooth device".to_owned(),
        }
    }

    /// Takes an event of the pairing agent.
    pub fn handle_agent_event(&mut self, event: AgentEvent) -> (r: PromptOutcome)
        requires
            old(self).wf(),
        ensures
            final(self).wf(),
            *final(self) == (BluetoothController { prompt: final(self).prompt, ..*old(self) }),
            if old(self).pairing_cancelled {
                final(self).prompt == old(self).prompt && r == (if event is Prompt {
                    PromptOutcome::Reject
                } else {
                    PromptOutcome::Ignore
                })
            } else {
                match event@ {
                    EventModel::Prompt { device_path, kind } => final(self).prompt@ == prompt_for(
                        event@,
                        old(self).name_for(device_path),
                    ) && r == (PromptOutcome::Show {
                        focus_entry: kind is PinCode || kind is Passkey,
                    }),
                    EventModel::DisplayPinCode { device_path, .. } => final(self).prompt@
                        == prompt_for(event@, old(self).name_for(device_path)) && r == (
                    PromptOutcome::Show { focus_entry: false }),
                    EventModel::DisplayPasskey { device_path, .. } => final(self).prompt@
                        == prompt_for(event@, old(self).name_for(device_path)) && r == (
                    PromptOutcome::Show { focus_entry: false }),
                    _ => final(self).prompt@ == hidden_prompt() && r == PromptOutcome::Hide,
                }
            },
    {
        if self.pairing_cancelled {
            return match event {
                AgentEvent::Prompt { .. } => PromptOutcome::Reject,
                _ => PromptOutcome::Ignore,
            };
        }
        match event {
            AgentEvent::Prompt { device_path, kind } => {
                let name = self.device_name_for_path(&device_path);
                let title = concat2("Pair with ", &name);
                self.prompt = question_prompt(device_path, title, kind);
                PromptOutcome::Show {
                    focus_entry: match kind {
                        AgentPromptKind::PinCode => true,
                        AgentPromptKind::Passkey => true,
                        _ => false,
                    },
                }
            },
            AgentEvent::DisplayPinCode { device_path, pincode } => {
                let name = self.device_name_for_path(&device_path);
                self.prompt =
                PairingPrompt {
                    mode: PairingPromptMode::Display,
                    device_path: Some(device_path),
                    title: concat2("Pair with ", &name),
                    message: "Type this code on the Bluetooth device, then press Enter.".to_owned(),
                    code: Some(pincode),
                    placeholder: "",
                    confirm_label: None,
                };
                PromptOutcome::Show { focus_entry: false }
            },
            AgentEvent::DisplayPasskey { device_path, passkey, entered } => {
                let name = self.device_name_for_path(&device_path);
                let count = numeral(
                    if entered < 6 {
                        entered as u64
                    } else {
                        6
                    },
                );
                self.prompt =
                PairingPrompt {
                    mode: PairingPromptMode::Display,
                    device_path: Some(device_path),
                    title: concat2("Pair with ", &name),
                    message: concat3(
                        "Type this code on the Bluetooth device, then press Enter. ",
                        &count,
                        "/6 digits entered.",
                    ),
                    code: Some(code_text(passkey)),
                    placeholder: "",
                    confirm_label: None,
                };
                PromptOutcome::Show { focus_entry: false }
            },
            AgentEvent::Cancel | AgentEvent::Release => {
                self.prompt = closed_prompt();
                PromptOutcome::Hide
            },
        }
    }

    /// How the user's agreement answers the open question.
    pub fn submit_pairing_prompt(&self) -> (r: Option<Submission>)
        ensures
            r == (match self.prompt.mode {
                PairingPromptMode::Input => Some(Submission::Input),
                PairingPromptMode::Confirmation => Some(Submission::Confirm),
                _ => None,
            }),
    {
        match self.prompt.mode {
            PairingPromptMode::Input => Some(Submission::Input),
            PairingPromptMode::Confirmation => Some(Submission::Confirm),
            _ => None,
        }
    }

    /// Closes the prompt.
    pub fn hide_pairing_prompt(&mut self)
        ensures
            *final(self) == (BluetoothController { prompt: final(self).prompt, ..*old(self) }),
            final(self).prompt@ == hidden_prompt(),
    {
        self.prompt = closed_prompt();
    }

    /// The device whose pairing is to be given up: the one of the prompt, else the one that is
    /// being paired.
    pub open spec fn pairing_device(&self) -> Option<Seq<char>> {
        if self.prompt.device_path is Some {
            opt_text(self.prompt.device_path)
        } else {
            pending_path(self.pending_device, PendingDeviceAction::Pairing)
        }
    }

    /// Gives up the pairing: the open question is answered with no, the prompt closes, and BlueZ
    /// is told for the device that is returned.
    pub fn cancel_pairing_prompt(&mut self) -> (r: Option<String>)
        requires
            old(self).wf(),
        ensures
            final(self).wf(),
            final(self).prompt@ == hidden_prompt(),
            *final(self) == (BluetoothController {
                prompt: final(self).prompt,
                pairing_cancelled: old(self).pairing_cancelled || (old(self).pairing_device()
                    is Some && old(self).pairing_device() == pending_path(
                    old(self).pending_device,
                    PendingDeviceAction::Pairing,
                )),
                ..*old(self)
            }),
            opt_text(r) == old(self).pairing_device(),
    {
        let own = match &self.pending_device {
            Some(pending) => match pending.action {
                PendingDeviceAction::Pairing => Some(pending.path.clone()),
                _ => None,
            },
            None => None,
        };
        let device_path = match &self.prompt.device_path {
            Some(path) => Some(path.clone()),
            None => copy_opt(&own),
        };
        if device_path.is_some() && same_opt(&device_path, &own) {
            self.pairing_cancelled = true;
        }
        self.prompt = closed_prompt();
        device_path
    }

    /// Whether closing the popup gives up a pairing.
    pub fn closing_cancels_pairing(&self) -> (r: bool)
        ensures
            r == (self.prompt.mode != PairingPromptMode::Hidden || pending_path(
                self.pending_device,
                PendingDeviceAction::Pairing,
            ) is Some),
    {
        let shown = match self.prompt.mode {
            PairingPromptMode::Hidden => false,
            _ => true,
        };
        let pairing = match &self.pending_device {
            Some(pending) => match pending.action {
                PendingDeviceAction::Pairing => true,
                _ => false,
            },
            None => false,
        };
        shown || pairing
    }

    /// Whether the switch, moved to `target`, asks for a change of the power.
    pub fn switch_asks(&self, target: bool) -> (r: bool)
        ensures
            r == (!self.action_busy && target != self.snapshot.is_powered()),
    {
        !self.action_busy && target != self.snapshot.powered()
    }

    /// Starts to switch the adapter on or off.
    pub fn set_powered(&mut self, powered: bool) -> (r: Option<PowerJob>)
        requires
            old(self).wf(),
        ensures
            final(self).wf(),
            if old(self).action_busy || old(self).snapshot.adapter is None {
                r is None && *final(self) == *old(self)
            } else {
                &&& r matches Some(job) && job.adapter_path@
                    == old(self).snapshot.adapter->0.path@ && job.stop_discovery == (!powered
                    && old(self).snapshot.is_discovering())
                &&& *final(self) == (BluetoothController {
                    action_busy: true,
                    snapshot_generation: Generation {
                        value: bumped(old(self).snapshot_generation.value, 1),
                    },
                    pending_power: Some(powered),
                    pending_scan: if powered {
                        old(self).pending_scan
                    } else {
                        Some(false)
                    },
                    discovery_timeout: Generation {
                        value: if powered {
                            old(self).discovery_timeout.value
                        } else {
                            bumped(old(self).discovery_timeout.value, 1)
                        },
                    },
                    ..*old(self)
                })
            },
    {
        if self.action_busy {
            return None;
        }
        let job = match &self.snapshot.adapter {
            Some(adapter) => PowerJob {
                adapter_path: adapter.path.clone(),
                stop_discovery: !powered && adapter.discovering,
            },
            None => return None,
        };
        self.action_busy = true;
        self.snapshot_generation.bump();
        self.pending_power = Some(powered);
        if !powered {
            self.discovery_timeout.bump();
            self.pending_scan = Some(false);
        }
        Some(job)
    }

    /// Ends the switching on or off.
    pub fn finish_power(&mut self, succeeded: bool)
        ensures
            old(self).wf() && old(self).pending_device is None ==> final(self).wf(),
            *final(self) == (BluetoothController {
                action_busy: false,
                pending_power: if succeeded {
                    old(self).pending_power
                } else {
                    None
                },
                pending_scan: if succeeded {
                    old(self).pending_scan
                } else {
                    None
                },
                ..*old(self)
            }),
    {
        self.action_busy = false;
        if !succeeded {
            self.pending_power = None;
            self.pending_scan = None;
        }
    }

    /// Starts or stops a search for devices.
    pub fn set_scanning(&mut self, scanning: bool) -> (r: Option<ScanJob>)
        requires
            old(self).wf(),
        ensures
            final(self).wf(),
            if old(self).action_busy || old(self).snapshot.adapter is None || !old(
                self).shows_powered() {
                r is None && *final(self) == *old(self)
            } else {
                &&& r matches Some(job) && job.adapter_path@
                    == old(self).snapshot.adapter->0.path@
                &&& *final(self) == (BluetoothController {
                    action_busy: true,
                    snapshot_generation: Generation {
                        value: bumped(old(self).snapshot_generation.value, 1),
                    },
                    pending_scan: Some(scanning),
                    discovery_timeout: Generation {
                        value: if scanning {
                            old(self).discovery_timeout.value
                        } else {
                            bumped(old(self).discovery_timeout.value, 1)
                        },
                    },
                    ..*old(self)
                })
            },
    {
        if self.action_busy || !self.display_powered() {
            return None;
        }
        let job = match &self.snapshot.adapter {
            Some(adapter) => ScanJob { adapter_path: adapter.path.clone() },
            None => return None,
        };
        self.action_busy = true;
        self.snapshot_generation.bump();
        self.pending_scan = Some(scanning);
        if !scanning {
            self.discovery_timeout.bump();
        }
        Some(job)
    }

    /// Ends the start or stop of a search.
    pub fn finish_scan(&mut self, succeeded: bool)
        ensures
            old(self).wf() && old(self).pending_device is None ==> final(self).wf(),
            *final(self) == (BluetoothController {
                action_busy: false,
                pending_scan: if succeeded {
                    old(self).pending_scan
                } else {
                    None
                },
                ..*old(self)
            }),
    {
        self.action_busy = false;
        if !succeeded {
            self.pending_scan = None;
        }
    }

    /// Starts the time that a search may take; the returned value marks it.
    pub fn start_discovery_timeout(&mut self) -> (r: u64)
        ensures
            r == bumped(old(self).discovery_timeout.value, 1),
            *final(self) == (BluetoothController {
                discovery_timeout: Generation { value: r },
                ..*old(self)
            }),
    {
        self.discovery_timeout.bump()
    }

    /// Whether the search is to stop because its time is over.
    pub fn discovery_expired(&self, token: u64) -> (r: bool)
        ensures
            r == (self.discovery_timeout.value == token && self.shows_scanning()),
    {
        self.discovery_timeout.is_current(token) && self.display_scanning()
    }

    /// Whether a request to connect or disconnect the device makes sense, and what it takes.
    pub fn plan_connection(&self, device_path: &str, connected: bool) -> (r: Option<ConnectJob>)
        ensures
            match find_device(self.snapshot.devices@, device_path@, 0) {
                Some(i) => {
                    let device = self.snapshot.devices@[i];
                    if self.action_busy || device.connected == connected {
                        r is None
                    } else {
                        r matches Some(job) && job.device_path@ == device_path@ && job.device_name@
                            == device.name@ && job.paired == device.paired && job.trusted
                            == device.trusted && job.connect == connected && opt_text(
                            job.stop_discovery_on,
                        ) == (if connected && self.snapshot.is_discovering() {
                            Some(self.snapshot.adapter->0.path@)
                        } else {
                            None
                        })
                    }
                },
                None => r is None,
            },
    {
        let i: usize = match device_position(&self.snapshot.devices, device_path) {
            Some(i) => i,
            None => return None,
        };
        let device = &self.snapshot.devices[i];
        if self.action_busy || device.connected == connected {
            return None;
        }
        let stop_discovery_on = match &self.snapshot.adapter {
            Some(adapter) => if connected && adapter.discovering {
                Some(adapter.path.clone())
            } else {
                None
            },
            None => None,
        };
        Some(
            ConnectJob {
                device_path: device.path.clone(),
                device_name: device.name.clone(),
                paired: device.paired,
                trusted: device.trusted,
                connect: connected,
                stop_discovery_on,
            },
        )
    }

    /// Starts to connect or disconnect a device. Where it has to be paired, the agent's session
    /// for it runs already.
    pub fn set_device_connected(&mut self, job: &ConnectJob)
        requires
            old(self).wf(),
            !old(self).action_busy,
        ensures
            final(self).wf(),
            final(self).pending_device matches Some(pending) && pending.path@ == job.device_path@
                && pending.action == job.action(),
            *final(self) == (BluetoothController {
                action_busy: true,
                pairing_cancelled: false,
                snapshot_generation: Generation {
                    value: bumped(old(self).snapshot_generation.value, 1),
                },
                discovery_timeout: Generation {
                    value: if job.connect {
                        bumped(old(self).discovery_timeout.value, 1)
                    } else {
                        old(self).discovery_timeout.value
                    },
                },
                pending_scan: if job.connect {
                    Some(false)
                } else {
                    old(self).pending_scan
                },
                pending_device: final(self).pending_device,
                ..*old(self)
            }),
    {
        self.pairing_cancelled = false;
        self.action_busy = true;
        self.snapshot_generation.bump();
        if job.connect {
            self.discovery_timeout.bump();
            self.pending_scan = Some(false);
        }
        self.pending_device = Some(
            PendingDevice {
                path: job.device_path.clone(),
                action: if job.connect && !job.paired {
                    PendingDeviceAction::Pairing
                } else if job.connect {
                    PendingDeviceAction::Connecting
                } else {
                    PendingDeviceAction::Disconnecting
                },
            },
        );
    }

    /// Ends an action on a device's connection; the answer is the notice to show. A pairing that
    /// the user gave up is no failure.
    pub fn finish_connection(&mut self, result: Result<(), String>) -> (r: Option<String>)
        requires
            old(self).wf(),
        ensures
            final(self).wf(),
            final(self).prompt@ == hidden_prompt(),
            *final(self) == (BluetoothController {
                action_busy: false,
                pending_device: None,
                pending_scan: None,
                pairing_cancelled: false,
                prompt: final(self).prompt,
                ..*old(self)
            }),
            r == (match result {
                Err(message) => if old(self).pairing_cancelled {
                    None
                } else {
                    Some(message)
                },
                Ok(()) => None,
            }),
    {
        self.action_busy = false;
        self.pending_device = None;
        self.pending_scan = None;
        self.prompt = closed_prompt();
        let cancelled = self.pairing_cancelled;
        self.pairing_cancelled = false;
        match result {
            Err(message) => if cancelled {
                None
            } else {
                Some(message)
            },
            Ok(()) => None,
        }
    }

    /// Starts to remove a device.
    pub fn remove_device(&mut self, device_path: &str) -> (r: Option<RemoveJob>)
        requires
            old(self).wf(),
        ensures
            final(self).wf(),
            if old(self).action_busy || old(self).snapshot.adapter is None || find_device(
                old(self).snapshot.devices@,
                device_path@,
                0,
            ) is None {
                r is None && *final(self) == *old(self)
            } else {
                &&& r matches Some(job) && job.adapter_path@
                    == old(self).snapshot.adapter->0.path@ && job.device_path@ == device_path@
                &&& final(self).pending_device matches Some(pending) && pending.path@
                    == device_path@ && pending.action == PendingDeviceAction::Removing
                &&& *final(self) == (BluetoothController {
                    action_busy: true,
                    snapshot_generation: Generation {
                        value: bumped(old(self).snapshot_generation.value, 1),
                    },
                    pending_device: final(self).pending_device,
                    ..*old(self)
                })
            },
    {
        if self.action_busy {
            return None;
        }
        let adapter_path = match &self.snapshot.adapter {
            Some(adapter) => adapter.path.clone(),
            None => return None,
        };
        if device_position(&self.snapshot.devices, device_path).is_none() {
            return None;
        }
        self.action_busy = true;
        self.snapshot_generation.bump();
        self.pending_device = Some(
            PendingDevice {
                path: device_path.to_owned(),
                action: PendingDeviceAction::Removing,
            },
        );
        Some(RemoveJob { adapter_path, device_path: device_path.to_owned() })
    }

    /// Ends the removal of a device.
    pub fn finish_removal(&mut self)
        ensures
            !old(self).pairing_cancelled ==> final(self).wf(),
            *final(self) == (BluetoothController {
                action_busy: false,
                pending_device: None,
                ..*old(self)
            }),
    {
        self.action_busy = false;
        self.pending_device = None;
    }

    /// Shows a notice or takes it away; the returned value marks the time it is shown, where it
    /// is shown at all.
    pub fn set_notice(&mut self, text: Option<&str>) -> (r: Option<u64>)
        ensures
            *final(self) == (BluetoothController {
                notice: Generation { value: bumped(old(self).notice.value, 1) },
                ..*old(self)
            }),
            r == (if text matches Some(t) && trimmed(t@).len() > 0 {
                Some(final(self).notice.value)
            } else {
                None
            }),
    {
        let generation: u64 = self.notice.bump();
        match text {
            Some(text) => {
                let solid = trim(text);
                if solid.as_str().is_empty() {
                    None
                } else {
                    Some(generation)
                }
            },
            None => None,
        }
    }
}

fn closed_prompt() -> (r: PairingPrompt)
    ensures
        r@ == hidden_prompt(),
        r.mode == PairingPromptMode::Hidden,
{
    PairingPrompt {
        mode: PairingPromptMode::Hidden,
        device_path: None,
        title: "Pair Bluetooth device".to_owned(),
        message: "".to_owned(),
        code: None,
        placeholder: "",
        confirm_label: None,
    }
}

fn question_prompt(device_path: String, title: String, kind: AgentPromptKind) -> (r: PairingPrompt)
    ensures
        forall|name: Seq<char>|
            title@ == "Pair with "@ + name ==> r@ == #[trigger] prompt_for(
                EventModel::Prompt { device_path: device_path@, kind },
                name,
            ),
{
    match kind {
        AgentPromptKind::PinCode => PairingPrompt {
            mode: PairingPromptMode::Input,
            device_path: Some(device_path),
            title,
            message: "Enter the PIN requested by the Bluetooth device.".to_owned(),
            code: None,
            placeholder: "PIN",
            confirm_label: Some("Pair"),
        },
        AgentPromptKind::Passkey => PairingPrompt {
            mode: PairingPromptMode::Input,
            device_path: Some(device_path),
            title,
            message: "Enter the passkey shown on the Bluetooth device.".to_owned(),
            code: None,
            placeholder: "6-digit passkey",
            confirm_label: Some("Pair"),
        },
        AgentPromptKind::Confirmation { passkey } => PairingPrompt {
            mode: PairingPromptMode::Confirmation,
            device_path: Some(device_path),
            title,
            message: "Confirm that this code matches on both devices.".to_owned(),
            code: Some(code_text(passkey)),
            placeholder: "",
            confirm_label: Some("Confirm"),
        },
        AgentPromptKind::Authorization => PairingPrompt {
            mode: PairingPromptMode::Confirmation,
            device_path: Some(device_path),
            title,
            message: "Allow this Bluetooth pairing request?".to_owned(),
            code: None,
            placeholder: "",
            confirm_label: Some("Allow"),
        },
    }
}

/// A code of up to six digits is always written with six.
pub proof fn codes_have_six_digits(passkey: u32)
    requires
        passkey <= 999_999,
    ensures
        six_digits(passkey as nat).len() == 6,
{
    decimal_length(passkey as nat);
    zeros_length(6 - decimal(passkey as nat).len());
}

proof fn decimal_length(n: nat)
    requires
        n <= 999_999,
    ensures
        1 <= decimal(n).len() <= 6,
{
    reveal_with_fuel(decimal, 7);
}

proof fn zeros_length(n: int)
    ensures
        zeros(n).len() == (if n < 0 {
            0
        } else {
            n
        }),
    decreases n,
{
    if n > 0 {
        zeros_length(n - 1);
    }
}

proof fn statuses_differ()
    ensures
        "Pairing…"@.len() == 8,
        "Connecting…"@.len() == 11,
        "Disconnecting…"@.len() == 14,
        "Removing…"@.len() == 9,
{
    reveal_strlit("Pairing…");
    reveal_strlit("Connecting…");
    reveal_strlit("Disconnecting…");
    reveal_strlit("Removing…");
}

/// Each action says what it does, and leaves the device connected or not as it says.
pub proof fn actions_say_what_they_do(
    action: PendingDeviceAction,
    current: bool,
    status: &'static str,
    connected: bool,
)
    requires
        call_ensures(PendingDeviceAction::status, (action,), status),
        call_ensures(PendingDeviceAction::target_connected, (action, current), connected),
    ensures
        (status@ == "Pairing…"@) == (action is Pairing),
        (status@ == "Connecting…"@) == (action is Connecting),
        (status@ == "Disconnecting…"@) == (action is Disconnecting),
        (status@ == "Removing…"@) == (action is Removing),
        action is Pairing || action is Connecting ==> connected,
        action is Disconnecting ==> !connected,
        action is Removing ==> connected == current,
{
    statuses_differ();
}

/// The button in the bar shows one glyph for an adapter that is off, another while a device is
/// connected, and a third for one that is on with none.
pub proof fn glyphs_tell_the_power(powered: bool, connected: bool, glyph: &'static str)
    requires
        call_ensures(trigger_glyph, (powered, connected), glyph),
    ensures
        (glyph@ == "󰂲"@) == !powered,
        (glyph@ == "󰂱"@) == (powered && connected),
        (glyph@ == "󰂯"@) == (powered && !connected),
{
    reveal_strlit("󰂲");
    reveal_strlit("󰂱");
    reveal_strlit("󰂯");
    assert("󰂲"@[0] != "󰂱"@[0] && "󰂲"@[0] != "󰂯"@[0] && "󰂱"@[0] != "󰂯"@[0]);
}

/// A device gets the glyph of a kind only where its description speaks of that kind, the plain
/// glyph exactly where it speaks of none, and that of headphones wherever it speaks of them, though
/// the word for a telephone stands in it too.
pub proof fn glyphs_fit_the_device(value: &str, glyph: &'static str)
    requires
        call_ensures(glyph_for, (value,), glyph),
    ensures
        ({
            let (v, g) = (value@, glyph@);
            let ears = has_text(v, "headset"@) || has_text(v, "headphone"@) || has_text(
                v,
                "earbud"@,
            );
            let sound = has_text(v, "speaker"@) || has_text(v, "audio-card"@);
            let game = has_text(v, "gamepad"@) || has_text(v, "joystick"@) || has_text(
                v,
                "input-gaming"@,
            );
            let desk = has_text(v, "computer"@) || has_text(v, "laptop"@);
            &&& (g == "󰋋"@) == ears
            &&& (g == "󰓃"@) == (sound && !ears)
            &&& g == "󰄜"@ ==> has_text(v, "phone"@)
            &&& g == "󰌌"@ ==> has_text(v, "keyboard"@)
            &&& g == "󰍽"@ ==> has_text(v, "mouse"@)
            &&& g == "󰮂"@ ==> game
            &&& g == "󰢗"@ ==> has_text(v, "watch"@)
            &&& g == "󰌢"@ ==> desk
            &&& g == "󰐪"@ ==> has_text(v, "printer"@)
            &&& (g == "󰂯"@) == !(ears || sound || has_text(v, "phone"@) || has_text(v, "keyboard"@)
                || has_text(v, "mouse"@) || game || has_text(v, "watch"@) || desk || has_text(
                v,
                "printer"@,
            ))
            &&& g == "󰋋"@ || g == "󰓃"@ || g == "󰄜"@ || g == "󰌌"@ || g == "󰍽"@ || g == "󰮂"@
                || g == "󰢗"@ || g == "󰌢"@ || g == "󰐪"@ || g == "󰂯"@
        }),
{
    reveal_strlit("󰋋");
    reveal_strlit("󰓃");
    reveal_strlit("󰄜");
    reveal_strlit("󰌌");
    reveal_strlit("󰍽");
    reveal_strlit("󰮂");
    reveal_strlit("󰢗");
    reveal_strlit("󰌢");
    reveal_strlit("󰐪");
    reveal_strlit("󰂯");
    assert("󰋋"@[0] == '󰋋' && "󰓃"@[0] == '󰓃' && "󰄜"@[0] == '󰄜' && "󰌌"@[0] == '󰌌' && "󰍽"@[0]
        == '󰍽' && "󰮂"@[0] == '󰮂' && "󰢗"@[0] == '󰢗' && "󰌢"@[0] == '󰌢' && "󰐪"@[0] == '󰐪'
        && "󰂯"@[0] == '󰂯');
}

/// A device is described by its icon and its name alike.
pub proof fn icons_and_names_describe_devices(icon: &str, name: &str, word: Seq<char>)
    requires
        has_text(icon@, word) || has_text(name@, word),
    ensures
        has_text(icon@ + " "@ + name@, word),
{
    let all = icon@ + " "@ + name@;
    if has_text(icon@, word) {
        let i = choose|i: int| occurs_at(icon@, word, i);
        assert(all.subrange(i, i + word.len()) =~= icon@.subrange(i, i + word.len()));
        assert(occurs_at(all, word, i));
    } else {
        let i = choose|i: int| occurs_at(name@, word, i);
        let j = icon@.len() + " "@.len() + i;
        assert(all.subrange(j, j + word.len()) =~= name@.subrange(i, i + word.len()));
        assert(occurs_at(all, word, j));
    }
}

/// The line of a device tells the action that runs on it; without one it begins with how the device
/// stands to this machine, and ends with its battery where that is known.
pub proof fn lines_tell_the_device(
    device: BluetoothDevice,
    pending: Option<PendingDeviceAction>,
    line: String,
)
    requires
        call_ensures(device_meta, (&device, pending), line),
    ensures
        pending is None && device.connected ==> begins_with(line@, "Connected"@),
        pending is None && !device.connected && (device.paired || device.trusted) ==> begins_with(
            line@,
            "Disconnected"@,
        ),
        pending is None && !device.connected && !device.paired && !device.trusted ==> begins_with(
            line@,
            "Available"@,
        ),
        pending is None ==> (device.battery matches Some(battery) ==> has_text(
            line@,
            decimal(battery as nat),
        ) && line@.last() == '%'),
        pending matches Some(action) ==> (line@ == "Pairing…"@) == (action is Pairing) && (line@
            == "Connecting…"@) == (action is Connecting) && (line@ == "Disconnecting…"@) == (
        action is Disconnecting) && (line@ == "Removing…"@) == (action is Removing),
{
    statuses_differ();
    let state = if device.connected {
        "Connected"@
    } else if device.is_known() {
        "Disconnected"@
    } else {
        "Available"@
    };
    assert(state.subrange(0, state.len() as int) =~= state);
    if device.battery is Some {
        let n = decimal(device.battery->0 as nat);
        reveal_strlit("%");
        parts_show(state, " • "@ + n, "%"@);
        parts_show(state + " • "@, n, "%"@);
        assert(state + " • "@ + n + "%"@ =~= state + (" • "@ + n) + "%"@);
    }
}

proof fn zeros_count_nothing(n: int, s: Seq<char>)
    requires
        all_digits(s),
    ensures
        all_digits(zeros(n) + s),
        digits_value(zeros(n) + s) == digits_value(s),
    decreases s.len(), (if n < 0 {
        0
    } else {
        n
    }),
{
    zeros_length(n);
    let all = zeros(n) + s;
    if s.len() > 0 {
        let front = s.drop_last();
        assert forall|i: int| 0 <= i < front.len() implies is_ascii_number(#[trigger] front[i]) by {
            assert(front[i] == s[i]);
        }
        zeros_count_nothing(n, front);
        assert(all.drop_last() =~= zeros(n) + front);
        assert forall|i: int| 0 <= i < all.len() implies is_ascii_number(#[trigger] all[i]) by {
            if i < all.len() - 1 {
                assert((zeros(n) + front)[i] == all[i]);
            } else {
                assert(is_ascii_number(s[s.len() - 1]));
            }
        }
    } else if n > 0 {
        zeros_count_nothing(n - 1, s);
        assert(zeros(n - 1) + s =~= zeros(n - 1));
        assert(all =~= zeros(n - 1).push('0'));
        assert(all.drop_last() =~= zeros(n - 1));
        assert forall|i: int| 0 <= i < all.len() implies is_ascii_number(#[trigger] all[i]) by {
            if i < all.len() - 1 {
                assert((zeros(n - 1) + s)[i] == all[i]);
            }
        }
    } else {
        assert(all =~= s);
    }
}

/// Whether a code shows a number in six digits, or in as many as it takes.
pub open spec fn shows_code(code: Option<String>, n: u32) -> bool {
    code matches Some(text) && text@.len() >= 6 && all_digits(text@) && digits_value(text@) == n
}

proof fn codes_stand_for_their_number(n: u32)
    ensures
        six_digits(n as nat).len() >= 6,
        all_digits(six_digits(n as nat)),
        digits_value(six_digits(n as nat)) == n,
{
    numerals_stand_for_their_number(n as nat);
    let missing = 6 - decimal(n as nat).len();
    zeros_length(missing);
    zeros_count_nothing(missing, decimal(n as nat));
}

/// A question of BlueZ is shown with the name of its device, asks for what is wanted, shows the
/// number to compare where there is one, and is answered by text or by yes as it asks. A pairing
/// that the user gave up is not shown again but refused.
#[verifier::rlimit(40)]
pub proof fn questions_are_shown(
    popup: &mut BluetoothController,
    device_path: String,
    kind: AgentPromptKind,
    r: PromptOutcome,
    submission: Option<Submission>,
)
    requires
        call_ensures(
            BluetoothController::handle_agent_event,
            (popup, AgentEvent::Prompt { device_path, kind }),
            r,
        ),
        call_ensures(BluetoothController::submit_pairing_prompt, (final(popup),), submission),
    ensures
        old(popup).pairing_cancelled ==> r is Reject && *final(popup) == *old(popup),
        !old(popup).pairing_cancelled ==> {
            &&& r matches PromptOutcome::Show { focus_entry } && focus_entry == (kind is PinCode
                || kind is Passkey)
            &&& opt_text(final(popup).prompt.device_path) == Some(device_path@)
            &&& ends_with(final(popup).prompt.title@, old(popup).name_for(device_path@))
            &&& final(popup).prompt.confirm_label is Some
            &&& (submission is Some && submission->0 is Input) == (kind is PinCode
                || kind is Passkey)
            &&& (submission is Some && submission->0 is Confirm) == (kind is Confirmation
                || kind is Authorization)
            &&& kind matches AgentPromptKind::Confirmation { passkey } ==> shows_code(
                final(popup).prompt.code,
                passkey,
            )
            &&& !(kind is Confirmation) ==> final(popup).prompt.code is None
        },
{
    parts_show("Pair with "@, old(popup).name_for(device_path@), Seq::empty());
    if kind is Confirmation {
        codes_stand_for_their_number(kind->passkey);
    }
    if !old(popup).pairing_cancelled {
        let shown = final(popup).prompt;
        assert(shown@.code == opt_text(shown.code));
        assert(shown@.mode == shown.mode);
        assert(shown@.confirm_label == opt_str(shown.confirm_label));
    } else {
        assert(final(popup).prompt == old(popup).prompt);
    }
}

/// A PIN that the user is to type is shown as it came and takes no answer.
#[verifier::rlimit(40)]
pub proof fn pins_are_shown(
    popup: &mut BluetoothController,
    device_path: String,
    pincode: String,
    r: PromptOutcome,
    submission: Option<Submission>,
)
    requires
        !old(popup).pairing_cancelled,
        call_ensures(
            BluetoothController::handle_agent_event,
            (popup, AgentEvent::DisplayPinCode { device_path, pincode }),
            r,
        ),
        call_ensures(BluetoothController::submit_pairing_prompt, (final(popup),), submission),
    ensures
        opt_text(final(popup).prompt.code) == Some(pincode@),
        opt_text(final(popup).prompt.device_path) == Some(device_path@),
        r is Show,
        submission is None,
{
    let shown = final(popup).prompt;
    assert(shown@.code == opt_text(shown.code));
    assert(shown@.mode == shown.mode);
}

/// A passkey that the user is to type is shown in six digits, with how many of them were typed, and
/// takes no answer.
#[verifier::rlimit(40)]
pub proof fn passkeys_are_shown(
    popup: &mut BluetoothController,
    device_path: String,
    passkey: u32,
    entered: u16,
    r: PromptOutcome,
    submission: Option<Submission>,
)
    requires
        !old(popup).pairing_cancelled,
        call_ensures(
            BluetoothController::handle_agent_event,
            (popup, AgentEvent::DisplayPasskey { device_path, passkey, entered }),
            r,
        ),
        call_ensures(BluetoothController::submit_pairing_prompt, (final(popup),), submission),
    ensures
        shows_code(final(popup).prompt.code, passkey),
        entered < 6 ==> ends_with(
            final(popup).prompt.message@,
            decimal(entered as nat) + "/6 digits entered."@,
        ),
        r is Show,
        submission is None,
{
    codes_stand_for_their_number(passkey);
    let shown = final(popup).prompt;
    assert(shown@.code == opt_text(shown.code));
    assert(shown@.mode == shown.mode);
    if entered < 6 {
        parts_show(
            "Type this code on the Bluetooth device, then press Enter. "@,
            decimal(entered as nat),
            "/6 digits entered."@,
        );
    }
}

/// The prompt goes away when BlueZ gives up.
#[verifier::rlimit(40)]
pub proof fn prompts_go_away(
    popup: &mut BluetoothController,
    event: AgentEvent,
    r: PromptOutcome,
    submission: Option<Submission>,
)
    requires
        !old(popup).pairing_cancelled,
        event is Cancel || event is Release,
        call_ensures(BluetoothController::handle_agent_event, (popup, event), r),
        call_ensures(BluetoothController::submit_pairing_prompt, (final(popup),), submission),
    ensures
        r is Hide,
        submission is None,
        final(popup).prompt.mode is Hidden && final(popup).prompt.code is None,
{
    let shown = final(popup).prompt;
    assert(shown@.code == opt_text(shown.code));
    assert(shown@.mode == shown.mode);
}

/// Giving up a pairing closes the prompt; questions that still come are refused, and its end is no
/// failure to be told.
#[verifier::rlimit(40)]
pub proof fn cancelled_pairings_stay_cancelled(
    popup: &mut BluetoothController,
    device: Option<String>,
    later: &mut BluetoothController,
    device_path: String,
    kind: AgentPromptKind,
    r: PromptOutcome,
    ended: &mut BluetoothController,
    result: Result<(), String>,
    notice: Option<String>,
)
    requires
        old(popup).pending_device matches Some(pending) && pending.action is Pairing && (
        opt_text(old(popup).prompt.device_path) matches Some(path) ==> path == pending.path@),
        call_ensures(BluetoothController::cancel_pairing_prompt, (popup,), device),
        *old(later) == *final(popup),
        call_ensures(
            BluetoothController::handle_agent_event,
            (later, AgentEvent::Prompt { device_path, kind }),
            r,
        ),
        *old(ended) == *final(later),
        call_ensures(BluetoothController::finish_connection, (ended, result), notice),
    ensures
        opt_text(device) == Some(old(popup).pending_device->0.path@),
        final(popup).prompt.mode is Hidden,
        r is Reject,
        notice is None,
        final(ended).pending_device is None && !final(ended).action_busy,
{
    assert(final(popup).prompt@.mode == final(popup).prompt.mode);
}

/// An action on the power is asked for one at a time, and the popup shows the adapter as it will be
/// until the action has failed.
pub proof fn switches_show_what_was_asked(
    popup: &mut BluetoothController,
    powered: bool,
    job: Option<PowerJob>,
    again: &mut BluetoothController,
    refused: Option<PowerJob>,
    failed: &mut BluetoothController,
    header: HeaderView,
    after: HeaderView,
)
    requires
        old(popup).pending_power is None,
        call_ensures(BluetoothController::set_powered, (popup, powered), job),
        *old(again) == *final(popup),
        call_ensures(BluetoothController::set_powered, (again, !powered), refused),
        *old(failed) == *final(again),
        call_ensures(BluetoothController::finish_power, (failed, false), ()),
        call_ensures(BluetoothController::header_view, (final(popup),), header),
        call_ensures(BluetoothController::header_view, (final(failed),), after),
    ensures
        (job is Some) == (!old(popup).action_busy && old(popup).snapshot.adapter is Some),
        job matches Some(j) ==> j.adapter_path@ == old(popup).snapshot.adapter->0.path@,
        job matches Some(j) ==> j.stop_discovery == (!powered && old(
            popup,
        ).snapshot.adapter->0.discovering),
        job is Some ==> refused is None && header.switch_active == powered
            && !header.switch_sensitive && after.switch_sensitive,
        job is Some ==> after.switch_active == old(popup).snapshot.adapter->0.powered,
{
}

/// The header tells the adapter: its name, whether it is there, and what it does.
pub proof fn headers_tell_the_adapter(popup: &BluetoothController, r: HeaderView, list: ListView)
    requires
        call_ensures(BluetoothController::header_view, (popup,), r),
        call_ensures(BluetoothController::list_view, (popup,), list),
    ensures
        r.available == popup.snapshot.adapter is Some,
        popup.snapshot.adapter matches Some(adapter) ==> r.title@ == adapter.alias@ && (
        popup.pending_power is None ==> r.switch_active == adapter.powered && (r.status@ == "Off"@)
            == !adapter.powered && (popup.pending_scan is None ==> (r.status@ == "Scanning…"@) == (
        adapter.powered && adapter.discovering) && (r.status@ == "Ready"@) == (adapter.powered
            && !adapter.discovering) && r.scan_animating == (adapter.powered
            && adapter.discovering))),
        popup.snapshot.adapter is None && popup.pending_power is None ==> r.status@
            == "Unavailable"@ && !r.scan_visible,
        popup.pending_power == Some(true) && !popup.snapshot.is_powered() ==> r.status@
            == "Turning on…"@,
        popup.pending_power == Some(false) && popup.snapshot.is_powered() ==> r.status@
            == "Turning off…"@,
        popup.action_busy ==> !r.switch_sensitive && !r.scan_sensitive,
        (list is Unavailable) == (popup.snapshot.adapter is None),
        popup.snapshot.adapter is Some ==> (list is Off) == !r.switch_active,
        (list is Devices) == (popup.snapshot.adapter is Some && r.switch_active
            && popup.snapshot.devices@.len() > 0),
        list is Scanning ==> r.scan_animating && popup.snapshot.devices@.len() == 0,
        list is NoDevices ==> !r.scan_animating && popup.snapshot.devices@.len() == 0,
{
    reveal_strlit("Off");
    reveal_strlit("Scanning…");
    reveal_strlit("Ready");
    reveal_strlit("Unavailable");
    reveal_strlit("Turning on…");
    reveal_strlit("Turning off…");
    assert("Off"@.len() == 3 && "Scanning…"@.len() == 9 && "Ready"@.len() == 5 && "Unavailable"@.len()
        == 11 && "Turning on…"@.len() == 11 && "Turning off…"@.len() == 12);
}

proof fn connected_names_hold(devices: Seq<BluetoothDevice>, n: nat, k: int)
    requires
        0 <= k < n <= devices.len(),
        devices[k].connected,
    ensures
        connected_names(devices, n).contains(devices[k].name@),
    decreases n,
{
    let all = connected_names(devices, n);
    if k == n - 1 {
        assert(all[all.len() - 1] == devices[k].name@);
    } else {
        connected_names_hold(devices, (n - 1) as nat, k);
        let before = connected_names(devices, (n - 1) as nat);
        let i = choose|i: int| 0 <= i < before.len() && before[i] == devices[k].name@;
        assert(all[i] == devices[k].name@);
    }
}

/// While the adapter is on, the button in the bar names every device that is connected.
pub proof fn connected_devices_are_named(popup: &BluetoothController, r: HeaderView, k: int)
    requires
        call_ensures(BluetoothController::header_view, (popup,), r),
        popup.snapshot.adapter is Some,
        popup.pending_power is None,
        popup.snapshot.is_powered(),
        0 <= k < popup.snapshot.devices@.len(),
        popup.snapshot.devices@[k].connected,
    ensures
        has_text(r.tooltip@, popup.snapshot.devices@[k].name@),
        r.glyph@ == "󰂱"@,
{
    let devices = popup.snapshot.devices@;
    let names = connected_names(devices, devices.len());
    let name = devices[k].name@;
    connected_names_hold(devices, devices.len(), k);
    let i = choose|i: int| 0 <= i < names.len() && names[i] == name;
    joined_holds(names, ", "@, i);
    let line = joined(names, ", "@);
    let at = choose|at: int| occurs_at(line, name, at);
    let first = if popup.shows_scanning() {
        "Bluetooth scanning"@
    } else if popup.snapshot.is_connected() {
        "Bluetooth connected"@
    } else {
        "Bluetooth on"@
    };
    let whole = first + "\n"@ + line;
    let j = first.len() + "\n"@.len() + at;
    assert(whole.subrange(j, j + name.len()) =~= line.subrange(at, at + name.len()));
    assert(occurs_at(whole, name, j));
}

proof fn found_devices(devices: Seq<BluetoothDevice>, path: Seq<char>, from: int)
    requires
        0 <= from,
    ensures
        match find_device(devices, path, from) {
            Some(i) => from <= i < devices.len() && devices[i].path@ == path,
            None => forall|i: int|
                from <= i < devices.len() ==> (#[trigger] devices[i]).path@ != path,
        },
    decreases devices.len() - from,
{
    if from < devices.len() {
        found_devices(devices, path, from + 1);
    }
}

/// A device is connected or disconnected only where it is listed and not so already, and nothing
/// else runs; the job is about that device, and its row tells the action while it runs.
pub proof fn connections_are_asked_for(
    popup: &mut BluetoothController,
    path: &str,
    connect: bool,
    job: ConnectJob,
    row: DeviceRowView,
    device: BluetoothDevice,
)
    requires
        call_ensures(BluetoothController::plan_connection, (old(popup), path, connect), Some(job)),
        call_ensures(BluetoothController::set_device_connected, (popup, &job), ()),
        call_ensures(BluetoothController::device_row_view, (final(popup), &device), row),
        device.path@ == path@,
    ensures
        !old(popup).action_busy,
        exists|i: int|
            0 <= i < old(popup).snapshot.devices@.len() && (#[trigger] old(
                popup,
            ).snapshot.devices@[i]).path@ == path@ && old(popup).snapshot.devices@[i].connected
                == !connect && job.paired == old(popup).snapshot.devices@[i].paired && job.trusted
                == old(popup).snapshot.devices@[i].trusted && job.device_name@ == old(
                popup,
            ).snapshot.devices@[i].name@,
        job.device_path@ == path@ && job.connect == connect,
        job.stop_discovery_on is Some == (connect && old(popup).snapshot.is_discovering()),
        (row.meta@ == "Pairing…"@) == (connect && !job.paired),
        (row.meta@ == "Connecting…"@) == (connect && job.paired),
        (row.meta@ == "Disconnecting…"@) == !connect,
        row.switch_active == connect,
        !row.sensitive,
{
    statuses_differ();
    found_devices(old(popup).snapshot.devices@, path@, 0);
}

/// A device that is listed gets its job unless something runs or it is already as asked.
pub proof fn possible_connections_are_planned(
    popup: &BluetoothController,
    path: &str,
    connect: bool,
    r: Option<ConnectJob>,
)
    requires
        call_ensures(BluetoothController::plan_connection, (popup, path, connect), r),
    ensures
        !popup.action_busy && popup.snapshot.devices@.len() > 0 && (forall|i: int|
            0 <= i < popup.snapshot.devices@.len() ==> (#[trigger] popup.snapshot.devices@[i]).path@
                == path@ && popup.snapshot.devices@[i].connected != connect) ==> r is Some,
        r is Some ==> !popup.action_busy,
{
    found_devices(popup.snapshot.devices@, path@, 0);
    if popup.snapshot.devices@.len() > 0 {
        assert(popup.snapshot.devices@[0].path@ == popup.snapshot.devices@[0].path@);
    }
}

/// A failed connection is told, and a successful one is not; either way nothing runs any more.
pub proof fn failed_connections_are_told(
    popup: &mut BluetoothController,
    result: Result<(), String>,
    notice: Option<String>,
)
    requires
        call_ensures(BluetoothController::finish_connection, (popup, result), notice),
    ensures
        !final(popup).action_busy && final(popup).pending_device is None,
        result is Ok ==> notice is None,
        !old(popup).pairing_cancelled ==> (result matches Err(message) ==> notice == Some(message)),
        final(popup).prompt.mode is Hidden,
{
    assert(final(popup).prompt@.mode == final(popup).prompt.mode);
}

/// What was asked for is shown until a snapshot shows that it came, and then the snapshot alone is.
pub proof fn snapshots_settle_wishes(
    popup: &mut BluetoothController,
    snapshot: BluetoothSnapshot,
    visible: bool,
    r: SnapshotOutcome,
)
    requires
        call_ensures(BluetoothController::apply_snapshot, (popup, snapshot, visible), r),
    ensures
        final(popup).snapshot == snapshot,
        old(popup).pending_power is None ==> final(popup).shows_powered() == snapshot.is_powered(),
        old(popup).pending_power matches Some(target) ==> final(popup).shows_powered() == target && (
        final(popup).pending_power is None) == (snapshot.is_powered() == target),
        old(popup).pending_scan matches Some(target) ==> final(popup).shows_scanning() == target && (
        final(popup).pending_scan is None) == (snapshot.is_discovering() == target),
        r.close_popup == (visible && snapshot.adapter is None),
        !old(popup).list_initialized ==> r.refresh_list,
        device_models(old(popup).snapshot.devices@) != device_models(snapshot.devices@)
            ==> r.refresh_list,
        final(popup).action_busy == old(popup).action_busy,
{
}

/// A search is started and stopped on the adapter alone while it is on; it ends by itself when its
/// own time is over, and an earlier time does not end it.
pub proof fn searches_end_in_their_time(
    popup: &mut BluetoothController,
    scanning: bool,
    job: Option<ScanJob>,
    first: &mut BluetoothController,
    early: u64,
    second: &mut BluetoothController,
    token: u64,
    expired: bool,
    stale: bool,
)
    requires
        call_ensures(BluetoothController::set_scanning, (popup, scanning), job),
        *old(first) == *final(popup),
        call_ensures(BluetoothController::start_discovery_timeout, (first,), early),
        *old(second) == *final(first),
        call_ensures(BluetoothController::start_discovery_timeout, (second,), token),
        call_ensures(BluetoothController::discovery_expired, (final(second), token), expired),
        call_ensures(BluetoothController::discovery_expired, (final(second), early), stale),
    ensures
        (job is Some) == (!old(popup).action_busy && old(popup).snapshot.adapter is Some && old(
            popup,
        ).shows_powered()),
        job matches Some(j) ==> j.adapter_path@ == old(popup).snapshot.adapter->0.path@ && expired
            == scanning,
        !stale,
{
}

/// A notice is shown exactly where it says something, and only the newest one is taken away when
/// its time is over.
pub proof fn empty_notices_are_not_shown(
    popup: &mut BluetoothController,
    text: Option<&str>,
    r: Option<u64>,
)
    requires
        call_ensures(BluetoothController::set_notice, (popup, text), r),
    ensures
        (r is Some) == (text is Some && !is_blank(text->0@)),
        r matches Some(token) ==> token == final(popup).notice.value && token != old(
            popup,
        ).notice.value,
{
    if text is Some {
        let t = text->0@;
        if is_blank(t) {
            blank_texts_trim_to_nothing(t);
        } else if trimmed(t).len() == 0 {
            trimming_takes_white_space_alone(t);
            let (from, to) = choose|from: int, to: int|
                0 <= from <= to <= t.len() && #[trigger] t.subrange(from, to) == trimmed(t)
                    && is_blank(t.subrange(0, from)) && is_blank(t.subrange(to, t.len() as int));
            assert forall|i: int| 0 <= i < t.len() implies is_space(#[trigger] t[i]) by {
                if i < from {
                    assert(t.subrange(0, from)[i] == t[i]);
                } else {
                    assert(t.subrange(to, t.len() as int)[i - to] == t[i]);
                }
            }
        }
    }
}

/// A device is removed only where it is listed and nothing else runs, and from the adapter in use.
pub proof fn listed_devices_are_removed(
    popup: &mut BluetoothController,
    path: &str,
    r: Option<RemoveJob>,
    ended: &mut BluetoothController,
)
    requires
        call_ensures(BluetoothController::remove_device, (popup, path), r),
        *old(ended) == *final(popup),
        call_ensures(BluetoothController::finish_removal, (ended,), ()),
    ensures
        (r is Some) == (!old(popup).action_busy && old(popup).snapshot.adapter is Some && exists|
            i: int,
        |
            0 <= i < old(popup).snapshot.devices@.len() && (#[trigger] old(
                popup,
            ).snapshot.devices@[i]).path@ == path@),
        r matches Some(job) ==> job.device_path@ == path@ && job.adapter_path@ == old(
            popup,
        ).snapshot.adapter->0.path@ && final(popup).action_on(path@) == Some(
            PendingDeviceAction::Removing,
        ),
        !final(ended).action_busy && final(ended).pending_device is None,
{
    found_devices(old(popup).snapshot.devices@, path@, 0);
}

/// A question is worded for what it asks: a PIN, a passkey, a code to compare, or leave.
#[verifier::rlimit(40)]
pub proof fn questions_are_worded_for_their_kind(
    popup: &mut BluetoothController,
    device_path: String,
    kind: AgentPromptKind,
    r: PromptOutcome,
)
    requires
        !old(popup).pairing_cancelled,
        call_ensures(
            BluetoothController::handle_agent_event,
            (popup, AgentEvent::Prompt { device_path, kind }),
            r,
        ),
    ensures
        (opt_str(final(popup).prompt.confirm_label) == Some("Confirm"@)) == (kind is Confirmation),
        (opt_str(final(popup).prompt.confirm_label) == Some("Allow"@)) == (kind is Authorization),
        (opt_str(final(popup).prompt.confirm_label) == Some("Pair"@)) == (kind is PinCode
            || kind is Passkey),
        (final(popup).prompt.placeholder@ == "PIN"@) == (kind is PinCode),
        (final(popup).prompt.placeholder@ == "6-digit passkey"@) == (kind is Passkey),
        kind is PinCode ==> final(popup).prompt.message@
            == "Enter the PIN requested by the Bluetooth device."@,
        kind is Passkey ==> final(popup).prompt.message@
            == "Enter the passkey shown on the Bluetooth device."@,
        kind is Confirmation ==> final(popup).prompt.message@
            == "Confirm that this code matches on both devices."@,
        kind is Authorization ==> final(popup).prompt.message@
            == "Allow this Bluetooth pairing request?"@,
{
    reveal_strlit("Confirm");
    reveal_strlit("Allow");
    reveal_strlit("Pair");
    reveal_strlit("PIN");
    reveal_strlit("6-digit passkey");
    reveal_strlit("");
    assert("Confirm"@.len() == 7 && "Allow"@.len() == 5 && "Pair"@.len() == 4 && "PIN"@.len() == 3
        && "6-digit passkey"@.len() == 15 && ""@.len() == 0);
    let shown = final(popup).prompt;
    assert(shown@.confirm_label == opt_str(shown.confirm_label));
    assert(shown@.placeholder == shown.placeholder@);
    assert(shown@.message == shown.message@);
}

/// A row offers to pair a device that is neither paired nor connected, and else a switch that shows
/// the connection as it will be; it can be used while nothing runs.
pub proof fn rows_offer_to_pair(popup: &BluetoothController, device: BluetoothDevice, r: DeviceRowView)
    requires
        call_ensures(BluetoothController::device_row_view, (popup, &device), r),
    ensures
        (r.pair_label is Some) == (!device.connected && !device.paired),
        r.pair_label matches Some(label) ==> (label@ == "Pair"@) == !(popup.action_on(device.path@)
            == Some(PendingDeviceAction::Pairing)),
        popup.pending_device is None ==> r.switch_active == device.connected,
        r.sensitive == !popup.action_busy,
{
    reveal_strlit("Pair");
    reveal_strlit("Pairing…");
    assert("Pair"@.len() == 4 && "Pairing…"@.len() == 8);
}

/// The switch asks for a change only to another state and while nothing runs; closing the popup
/// gives up a pairing that runs or is asked about; and a list that is not seen is built when it is.
pub proof fn popups_ask_for_what_changes(
    popup: &BluetoothController,
    target: bool,
    asks: bool,
    cancels: bool,
    list: &mut BluetoothController,
    visible: bool,
    builds: bool,
)
    requires
        call_ensures(BluetoothController::switch_asks, (popup, target), asks),
        call_ensures(BluetoothController::closing_cancels_pairing, (popup,), cancels),
        call_ensures(BluetoothController::refresh_device_list, (list, visible), builds),
    ensures
        asks ==> !popup.action_busy,
        !popup.action_busy ==> asks == (target != (popup.snapshot.adapter is Some
            && popup.snapshot.adapter->0.powered)),
        popup.prompt.mode is Hidden && popup.pending_device is None ==> !cancels,
        !(popup.prompt.mode is Hidden) ==> cancels,
        popup.pending_device matches Some(pending) ==> (pending.action is Pairing ==> cancels),
        builds == visible,
        final(list).list_dirty == !visible,
        visible ==> final(list).list_initialized,
{
}

/// The button in the bar says whether Bluetooth is there, on, searching or connected.
pub proof fn buttons_say_the_state(popup: &BluetoothController, r: HeaderView)
    requires
        call_ensures(BluetoothController::header_view, (popup,), r),
    ensures
        popup.snapshot.adapter is None ==> r.tooltip@ == "Bluetooth unavailable"@,
        popup.snapshot.adapter is Some && !r.switch_active ==> r.tooltip@ == "Bluetooth off"@,
        popup.snapshot.adapter is Some && r.switch_active && popup.snapshot.devices@.len() == 0 ==> (
        r.scan_animating ==> r.tooltip@ == "Bluetooth scanning"@) && (!r.scan_animating
            ==> r.tooltip@ == "Bluetooth on"@),
        popup.snapshot.adapter is None ==> r.title@ == "Bluetooth"@,
{
    if popup.snapshot.devices@.len() == 0 {
        assert(connected_names(popup.snapshot.devices@, 0).len() == 0);
        assert(!popup.snapshot.is_connected());
    }
}

/// A device is called by its name where it is listed.
pub proof fn listed_devices_are_called_by_name(popup: &BluetoothController, path: &str, r: String)
    requires
        call_ensures(BluetoothController::device_name_for_path, (popup, path), r),
    ensures
        (forall|i: int|
            0 <= i < popup.snapshot.devices@.len() ==> (#[trigger] popup.snapshot.devices@[i]).path@
                != path@) ==> r@ == "Bluetooth device"@,
        (exists|i: int|
            0 <= i < popup.snapshot.devices@.len() && (#[trigger] popup.snapshot.devices@[i]).path@
                == path@) ==> exists|i: int|
            0 <= i < popup.snapshot.devices@.len() && (#[trigger] popup.snapshot.devices@[i]).path@
                == path@ && r@ == popup.snapshot.devices@[i].name@,
{
    found_devices(popup.snapshot.devices@, path@, 0);
    if let Some(i) = find_device(popup.snapshot.devices@, path@, 0) {
        assert(popup.snapshot.devices@[i].path@ == path@);
    }
}

/// The glyph of a device is that of its icon and its name together, in lower case.
pub proof fn devices_are_described_in_lower_case(
    icon: &str,
    name: &str,
    glyph: &'static str,
    value: &str,
    plain: &'static str,
)
    requires
        call_ensures(device_glyph, (icon, name), glyph),
        value@ == lower_text(icon@ + " "@ + name@),
        call_ensures(glyph_for, (value,), plain),
    ensures
        glyph@ == plain@,
{
}

/// A search that could not be started is not shown as running, and one that could is; the prompt
/// that is closed asks nothing.
pub proof fn failed_searches_are_not_shown(
    popup: &mut BluetoothController,
    succeeded: bool,
    scanning: bool,
    closed: &mut BluetoothController,
    submission: Option<Submission>,
)
    requires
        call_ensures(BluetoothController::finish_scan, (popup, succeeded), ()),
        call_ensures(BluetoothController::display_scanning, (final(popup),), scanning),
        call_ensures(BluetoothController::hide_pairing_prompt, (closed,), ()),
        call_ensures(BluetoothController::submit_pairing_prompt, (final(closed),), submission),
    ensures
        !final(popup).action_busy,
        !succeeded ==> scanning == old(popup).snapshot.is_discovering(),
        succeeded ==> (old(popup).pending_scan matches Some(target) ==> scanning == target),
        submission is None,
        final(closed).pending_device == old(closed).pending_device,
{
    assert(final(closed).prompt@.mode == final(closed).prompt.mode);
}

/// Whoever connects a device is shown no search for devices, and a search that was to end by itself
/// ends no more; whoever disconnects one is shown the search as before.
pub proof fn connections_stop_the_search(
    popup: &mut BluetoothController,
    job: ConnectJob,
    before: bool,
    after: bool,
)
    requires
        call_ensures(BluetoothController::set_device_connected, (popup, &job), ()),
        call_ensures(BluetoothController::display_scanning, (old(popup),), before),
        call_ensures(BluetoothController::display_scanning, (final(popup),), after),
    ensures
        job.connect ==> !after,
        !job.connect ==> after == before,
        job.connect == (final(popup).discovery_timeout.value != old(popup).discovery_timeout.value),
        final(popup).action_busy,
        final(popup).snapshot == old(popup).snapshot,
{
}

} // verus!
