//! Bluetooth adapters and devices as BlueZ describes them, and the actions on them.
use crate::cache::WriteLock;
use crate::gate::bumped;
use crate::sort::{
    in_order, order_is_unique, sorted_has_the_same_members, stable_sort, stably_sorted, tied, Ranked,
};
use crate::text::{
    begins_with, blank_texts_trim_to_nothing, concat2, concat4, ends_with, has_text, is_blank,
    is_space, lower_text, not_after, opt_is, opt_str, opt_text, or_empty, parts_show, same, text_le,
    text_le_antisymmetric, text_le_reflexive, text_le_total, text_le_transitive, text_or_empty,
    texts, to_lowercase, trim, trimmed, trimming_takes_white_space_alone,
};
use vstd::prelude::*;

verus! {

/// The name of BlueZ on the bus.
pub const BLUEZ_SERVICE: &'static str = "org.bluez";

/// The object of the pairing agent.
pub const AGENT_PATH: &'static str = "/dev/obsidian_bar/BluetoothAgent";

/// How long an ordinary call may take, in milliseconds.
pub const DBUS_TIMEOUT_MS: i32 = 8_000;

/// How long a pairing may take, in milliseconds.
pub const PAIR_TIMEOUT_MS: i32 = 120_000;

pub const BLUEZ_ADAPTER_INTERFACE: &'static str = "org.bluez.Adapter1";

pub const BLUEZ_DEVICE_INTERFACE: &'static str = "org.bluez.Device1";

pub const BLUEZ_BATTERY_INTERFACE: &'static str = "org.bluez.Battery1";

pub const BLUEZ_OBJECT_MANAGER_INTERFACE: &'static str = "org.freedesktop.DBus.ObjectManager";

pub const DBUS_PROPERTIES_INTERFACE: &'static str = "org.freedesktop.DBus.Properties";

/// How long a snapshot stays good, in milliseconds.
pub const SNAPSHOT_CACHE_TTL_MS: u64 = 5_000;

/// How long to wait before a device is asked again to connect, in milliseconds.
pub const CONNECT_RETRY_DELAY_MS: u64 = 700;

/// How often a device is asked to connect.
pub const CONNECT_ATTEMPTS: u8 = 3;

/// What a second action is told while one is running.
pub const BLUETOOTH_BUSY: &'static str = "another Bluetooth action is already in progress";

/// Why a D-Bus call failed: the message, and the name of the error where the other side sent one.
#[derive(Clone, Debug, PartialEq, Eq)]
pub struct DbusCallError {
    pub message: String,
    pub remote_name: Option<String>,
}

/// Whether the other side answered with the error `name`.
pub open spec fn is_error(error: DbusCallError, name: Seq<char>) -> bool {
    opt_text(error.remote_name) == Some(name)
}

pub fn is_remote_error(error: &DbusCallError, name: &str) -> (r: bool)
    ensures
        r == is_error(*error, name@),
{
    match &error.remote_name {
        Some(remote) => same(remote, name),
        None => false,
    }
}

/// Whether the error says that BlueZ is not there at all.
pub fn is_bluez_unavailable(error: &DbusCallError) -> (r: bool)
    ensures
        r == (is_error(*error, "org.freedesktop.DBus.Error.ServiceUnknown"@) || is_error(
            *error,
            "org.freedesktop.DBus.Error.NameHasNoOwner"@,
        )),
{
    is_remote_error(error, "org.freedesktop.DBus.Error.ServiceUnknown") || is_remote_error(
        error,
        "org.freedesktop.DBus.Error.NameHasNoOwner",
    )
}

#[derive(Clone, Debug, PartialEq, Eq)]
pub struct BluetoothAdapter {
    pub path: String,
    pub alias: String,
    pub powered: bool,
    pub discovering: bool,
}

/// The contents of a `BluetoothAdapter`.
pub struct AdapterModel {
    pub path: Seq<char>,
    pub alias: Seq<char>,
    pub powered: bool,
    pub discovering: bool,
}

impl View for BluetoothAdapter {
    type V = AdapterModel;

    open spec fn view(&self) -> AdapterModel {
        AdapterModel {
            path: self.path@,
            alias: self.alias@,
            powered: self.powered,
            discovering: self.discovering,
        }
    }
}

#[derive(Clone, Debug, PartialEq, Eq)]
pub struct BluetoothDevice {
    pub path: String,
    pub name: String,
    pub icon: String,
    pub paired: bool,
    pub trusted: bool,
    pub connected: bool,
    pub battery: Option<u8>,
}

/// The contents of a `BluetoothDevice`.
pub struct DeviceModel {
    pub path: Seq<char>,
    pub name: Seq<char>,
    pub icon: Seq<char>,
    pub paired: bool,
    pub trusted: bool,
    pub connected: bool,
    pub battery: Option<u8>,
}

impl View for BluetoothDevice {
    type V = DeviceModel;

    open spec fn view(&self) -> DeviceModel {
        DeviceModel {
            path: self.path@,
            name: self.name@,
            icon: self.icon@,
            paired: self.paired,
            trusted: self.trusted,
            connected: self.connected,
            battery: self.battery,
        }
    }
}

impl BluetoothDevice {
    /// Whether the device has been used before.
    pub open spec fn is_known(self) -> bool {
        self.paired || self.trusted || self.connected
    }

    pub fn known(&self) -> (r: bool)
        ensures
            r == self.is_known(),
    {
        self.paired || self.trusted || self.connected
    }

    /// Where the device stands in the list: connected, known, other.
    pub open spec fn rank(self) -> int {
        if self.connected {
            0
        } else if self.is_known() {
            1
        } else {
            2
        }
    }

    fn rank_number(&self) -> (r: u8)
        ensures
            r == self.rank(),
    {
        if self.connected {
            0
        } else if self.known() {
            1
        } else {
            2
        }
    }
}

/// Connected devices first, then known ones; within each by name, letter case aside, and path.
impl Ranked for BluetoothDevice {
    open spec fn le(&self, other: &Self) -> bool {
        if self.rank() != other.rank() {
            self.rank() < other.rank()
        } else if lower_text(self.name@) != lower_text(other.name@) {
            text_le(lower_text(self.name@), lower_text(other.name@))
        } else {
            text_le(self.path@, other.path@)
        }
    }

    proof fn le_total(a: &Self, b: &Self) {
        text_le_total(lower_text(a.name@), lower_text(b.name@));
        text_le_total(a.path@, b.path@);
    }

    proof fn le_transitive(a: &Self, b: &Self, c: &Self) {
        let (x, y, z) = (lower_text(a.name@), lower_text(b.name@), lower_text(c.name@));
        if a.rank() == b.rank() && b.rank() == c.rank() {
            if x != y && y != z {
                text_le_transitive(x, y, z);
                if x == z {
                    text_le_antisymmetric(x, y);
                }
            }
            if x == y && y == z {
                text_le_transitive(a.path@, b.path@, c.path@);
            }
        }
    }

    fn ranks_le(&self, other: &Self) -> (r: bool) {
        let mine: u8 = self.rank_number();
        let theirs: u8 = other.rank_number();
        if mine != theirs {
            return mine < theirs;
        }
        let my_name = to_lowercase(&self.name);
        let their_name = to_lowercase(&other.name);
        if same(&my_name, &their_name) {
            not_after(&self.path, &other.path)
        } else {
            not_after(&my_name, &their_name)
        }
    }
}

/// The position, from `i` on, of the first device with the path.
pub open spec fn find_device(devices: Seq<BluetoothDevice>, path: Seq<char>, i: int) -> Option<int>
    decreases devices.len() - i,
{
    if i < 0 || i >= devices.len() {
        None
    } else if devices[i].path@ == path {
        Some(i)
    } else {
        find_device(devices, path, i + 1)
    }
}

/// Finds the first device with the path.
pub fn device_position(devices: &Vec<BluetoothDevice>, path: &str) -> (r: Option<usize>)
    ensures
        match r {
            Some(i) => i < devices@.len() && find_device(devices@, path@, 0) == Some(i as int)
                && devices@[i as int].path@ == path@,
            None => find_device(devices@, path@, 0) is None,
        },
{
    let mut i: usize = 0;
    while i < devices.len()
        invariant
            i <= devices@.len(),
            find_device(devices@, path@, 0) == find_device(devices@, path@, i as int),
        decreases devices@.len() - i,
    {
        if same(&devices[i].path, path) {
            return Some(i);
        }
        i = i + 1;
    }
    None
}

fn same_device(a: &BluetoothDevice, b: &BluetoothDevice) -> (r: bool)
    ensures
        r == (a@ == b@),
{
    same(&a.path, &b.path) && same(&a.name, &b.name) && same(&a.icon, &b.icon) && a.paired
        == b.paired && a.trusted == b.trusted && a.connected == b.connected && a.battery
        == b.battery
}

/// Connected devices stand before all others.
pub proof fn connected_devices_come_first(devices: Seq<BluetoothDevice>, i: int, j: int)
    requires
        in_order(devices),
        0 <= i < devices.len(),
        0 <= j < devices.len(),
        devices[i].connected,
        !devices[j].connected,
    ensures
        i < j,
{
    if j < i {
        assert(devices[j].le(&devices[i]));
    }
}

/// The order of the devices does not depend on the order in which they were listed, as long as no
/// two of them have one path.
pub proof fn device_order_is_free_of_listing(
    a: Seq<BluetoothDevice>,
    b: Seq<BluetoothDevice>,
    sorted_a: Seq<BluetoothDevice>,
    sorted_b: Seq<BluetoothDevice>,
)
    requires
        stably_sorted(a, sorted_a),
        stably_sorted(b, sorted_b),
        a.to_multiset() == b.to_multiset(),
        forall|i: int, j: int|
            #![trigger a[i], a[j]]
            0 <= i < a.len() && 0 <= j < a.len() && a[i].path@ == a[j].path@ ==> a[i] == a[j],
    ensures
        sorted_a == sorted_b,
{
    assert forall|i: int, j: int|
        #![trigger sorted_a[i], sorted_a[j]]
        0 <= i < sorted_a.len() && 0 <= j < sorted_a.len() && tied(
            sorted_a[i],
            sorted_a[j],
        ) implies sorted_a[i] == sorted_a[j] by {
        let (x, y) = (sorted_a[i], sorted_a[j]);
        assert(sorted_a.contains(x) && sorted_a.contains(y));
        sorted_has_the_same_members(a, sorted_a, x);
        sorted_has_the_same_members(a, sorted_a, y);
        if lower_text(x.name@) != lower_text(y.name@) {
            text_le_antisymmetric(lower_text(x.name@), lower_text(y.name@));
        } else {
            text_le_antisymmetric(x.path@, y.path@);
        }
        let k = choose|k: int| 0 <= k < a.len() && a[k] == x;
        let l = choose|l: int| 0 <= l < a.len() && a[l] == y;
        assert(a[k].path@ == a[l].path@);
    }
    order_is_unique(sorted_a, sorted_b);
}

/// Whether two lists describe the same devices in the same order.
pub fn same_devices(a: &Vec<BluetoothDevice>, b: &Vec<BluetoothDevice>) -> (r: bool)
    ensures
        r == (device_models(a@) == device_models(b@)),
{
    if a.len() != b.len() {
        assert(device_models(a@).len() != device_models(b@).len());
        return false;
    }
    let mut i: usize = 0;
    while i < a.len()
        invariant
            i <= a@.len(),
            a@.len() == b@.len(),
            forall|k: int| 0 <= k < i ==> device_models(a@)[k] == device_models(b@)[k],
        decreases a@.len() - i,
    {
        if !same_device(&a[i], &b[i]) {
            assert(device_models(a@)[i as int] != device_models(b@)[i as int]);
            return false;
        }
        i = i + 1;
    }
    assert(device_models(a@) =~= device_models(b@));
    true
}

#[derive(Clone, Debug, PartialEq, Eq)]
pub struct BluetoothSnapshot {
    pub adapter: Option<BluetoothAdapter>,
    pub devices: Vec<BluetoothDevice>,
}

impl Default for BluetoothSnapshot {
    fn default() -> (r: Self)
        ensures
            r.adapter is None,
            r.devices@.len() == 0,
    {
        BluetoothSnapshot { adapter: None, devices: Vec::new() }
    }
}

impl BluetoothSnapshot {
    pub open spec fn is_powered(self) -> bool {
        self.adapter matches Some(adapter) && adapter.powered
    }

    pub open spec fn is_discovering(self) -> bool {
        self.adapter matches Some(adapter) && adapter.discovering
    }

    pub open spec fn is_connected(self) -> bool {
        exists|i: int| 0 <= i < self.devices@.len() && (#[trigger] self.devices@[i]).connected
    }

    pub fn available(&self) -> (r: bool)
        ensures
            r == self.adapter is Some,
    {
        self.adapter.is_some()
    }

    pub fn powered(&self) -> (r: bool)
        ensures
            r == self.is_powered(),
    {
        match &self.adapter {
            Some(adapter) => adapter.powered,
            None => false,
        }
    }

    pub fn discovering(&self) -> (r: bool)
        ensures
            r == self.is_discovering(),
    {
        match &self.adapter {
            Some(adapter) => adapter.discovering,
            None => false,
        }
    }

    /// Whether any device is connected.
    pub fn connected(&self) -> (r: bool)
        ensures
            r == self.is_connected(),
    {
        let mut i: usize = 0;
        while i < self.devices.len()
            invariant
                i <= self.devices@.len(),
                forall|k: int| 0 <= k < i ==> !(#[trigger] self.devices@[k]).connected,
            decreases self.devices@.len() - i,
        {
            if self.devices[i].connected {
                return true;
            }
            i = i + 1;
        }
        false
    }
}

/// Whether `a` is at least as good a choice as `b`: powered adapters first, then the preferred
/// one, then by path.
pub open spec fn adapter_le(
    a: BluetoothAdapter,
    b: BluetoothAdapter,
    preferred: Option<Seq<char>>,
) -> bool {
    if a.powered != b.powered {
        a.powered
    } else if (preferred == Some(a.path@)) != (preferred == Some(b.path@)) {
        preferred == Some(a.path@)
    } else {
        text_le(a.path@, b.path@)
    }
}

/// Whether adapter `i` is the first of the best choices.
pub open spec fn best_adapter(
    adapters: Seq<BluetoothAdapter>,
    preferred: Option<Seq<char>>,
    i: int,
) -> bool {
    &&& 0 <= i < adapters.len()
    &&& forall|j: int|
        0 <= j < adapters.len() ==> adapter_le(adapters[i], #[trigger] adapters[j], preferred)
    &&& forall|j: int| 0 <= j < i ==> !adapter_le(#[trigger] adapters[j], adapters[i], preferred)
}

proof fn adapter_le_transitive(
    a: BluetoothAdapter,
    b: BluetoothAdapter,
    c: BluetoothAdapter,
    preferred: Option<Seq<char>>,
)
    requires
        adapter_le(a, b, preferred),
        adapter_le(b, c, preferred),
    ensures
        adapter_le(a, c, preferred),
{
    if text_le(a.path@, b.path@) && text_le(b.path@, c.path@) {
        text_le_transitive(a.path@, b.path@, c.path@);
    }
}

fn adapter_not_worse(a: &BluetoothAdapter, b: &BluetoothAdapter, preferred: Option<&str>) -> (r:
    bool)
    ensures
        r == adapter_le(*a, *b, opt_str(preferred)),
{
    let a_preferred = opt_is(preferred, &a.path);
    let b_preferred = opt_is(preferred, &b.path);
    if a.powered != b.powered {
        a.powered
    } else if a_preferred != b_preferred {
        a_preferred
    } else {
        not_after(&a.path, &b.path)
    }
}

/// Picks the adapter to use.
pub fn select_adapter(adapters: Vec<BluetoothAdapter>, preferred_adapter: Option<&str>) -> (r:
    Option<BluetoothAdapter>)
    ensures
        match r {
            Some(adapter) => exists|i: int|
                #[trigger] best_adapter(adapters@, opt_str(preferred_adapter), i) && adapter
                    == adapters@[i],
            None => adapters@.len() == 0,
        },
{
    let mut adapters = adapters;
    let ghost all = adapters@;
    if adapters.len() == 0 {
        return None;
    }
    let ghost preferred = opt_str(preferred_adapter);
    let mut best: usize = 0;
    let mut i: usize = 1;
    proof {
        text_le_total(all[0].path@, all[0].path@);
    }
    while i < adapters.len()
        invariant
            adapters@ == all,
            preferred == opt_str(preferred_adapter),
            best < i <= all.len(),
            forall|j: int|
                0 <= j < i ==> adapter_le(all[best as int], #[trigger] all[j], preferred),
            forall|j: int|
                0 <= j < best ==> !adapter_le(#[trigger] all[j], all[best as int], preferred),
        decreases all.len() - i,
    {
        if !adapter_not_worse(&adapters[best], &adapters[i], preferred_adapter) {
            proof {
                text_le_total(all[best as int].path@, all[i as int].path@);
                text_le_total(all[i as int].path@, all[i as int].path@);
                assert forall|j: int| 0 <= j < i + 1 implies adapter_le(
                    all[i as int],
                    #[trigger] all[j],
                    preferred,
                ) by {
                    if j < i {
                        adapter_le_transitive(all[i as int], all[best as int], all[j], preferred);
                    }
                }
                assert forall|j: int| 0 <= j < i implies !adapter_le(
                    #[trigger] all[j],
                    all[i as int],
                    preferred,
                ) by {
                    if adapter_le(all[j], all[i as int], preferred) {
                        adapter_le_transitive(all[best as int], all[j], all[i as int], preferred);
                    }
                }
            }
            best = i;
        }
        i = i + 1;
    }
    assert(best_adapter(all, preferred, best as int));
    Some(adapters.swap_remove(best))
}

/// The choice of the adapter does not depend on the order in which the adapters are listed, as
/// long as no two of them have one path.
pub proof fn adapter_choice_is_free_of_order(
    a: Seq<BluetoothAdapter>,
    b: Seq<BluetoothAdapter>,
    preferred: Option<Seq<char>>,
    i: int,
    j: int,
)
    requires
        best_adapter(a, preferred, i),
        best_adapter(b, preferred, j),
        forall|x: BluetoothAdapter| #[trigger] a.contains(x) == b.contains(x),
        forall|k: int, l: int|
            0 <= k < a.len() && 0 <= l < a.len() && (#[trigger] a[k]).path@ == (
            #[trigger] a[l]).path@ ==> a[k] == a[l],
    ensures
        a[i] == b[j],
{
    assert(b.contains(b[j]));
    assert(a.contains(b[j]));
    let k = choose|k: int| 0 <= k < a.len() && a[k] == b[j];
    assert(a.contains(a[i]));
    assert(b.contains(a[i]));
    let l = choose|l: int| 0 <= l < b.len() && b[l] == a[i];
    assert(adapter_le(a[i], a[k], preferred));
    assert(adapter_le(b[j], b[l], preferred));
    text_le_antisymmetric(a[i].path@, a[k].path@);
}

/// A powered adapter is chosen wherever there is one.
pub proof fn powered_adapter_is_chosen(
    adapters: Seq<BluetoothAdapter>,
    preferred: Option<Seq<char>>,
    i: int,
    j: int,
)
    requires
        best_adapter(adapters, preferred, i),
        0 <= j < adapters.len(),
        adapters[j].powered,
    ensures
        adapters[i].powered,
{
    assert(adapter_le(adapters[i], adapters[j], preferred));
}

/// What BlueZ says of an adapter.
pub struct AdapterProperties {
    pub alias: Option<String>,
    pub powered: Option<bool>,
    pub discovering: Option<bool>,
}

/// What BlueZ says of a device.
pub struct DeviceProperties {
    pub adapter: Option<String>,
    pub address: Option<String>,
    pub alias: Option<String>,
    pub name: Option<String>,
    pub icon: Option<String>,
    pub paired: Option<bool>,
    pub trusted: Option<bool>,
    pub connected: Option<bool>,
}

/// An object of BlueZ with the interfaces that matter here.
pub struct BluezObject {
    pub path: String,
    pub adapter: Option<AdapterProperties>,
    pub device: Option<DeviceProperties>,
    pub battery: Option<u8>,
}

/// Whether a text is present and not blank.
pub open spec fn is_solid(text: Option<String>) -> bool {
    text matches Some(t) && trimmed(t@).len() > 0
}

fn solid_text(text: &Option<String>) -> (r: bool)
    ensures
        r == is_solid(*text),
{
    match text {
        Some(t) => {
            let t = trim(t);
            !t.as_str().is_empty()
        },
        None => false,
    }
}

/// The adapter that an object describes.
pub open spec fn adapter_of(object: BluezObject) -> Option<AdapterModel> {
    match object.adapter {
        Some(properties) => Some(
            AdapterModel {
                path: object.path@,
                alias: if is_solid(properties.alias) {
                    properties.alias->0@
                } else {
                    "Bluetooth"@
                },
                powered: properties.powered == Some(true),
                discovering: properties.discovering == Some(true),
            },
        ),
        None => None,
    }
}

/// The name of a device: its alias, its name, its address, whichever comes first.
pub open spec fn device_name(properties: DeviceProperties) -> Seq<char> {
    if is_solid(properties.alias) {
        properties.alias->0@
    } else if is_solid(properties.name) {
        properties.name->0@
    } else if text_or_empty(properties.address).len() > 0 {
        text_or_empty(properties.address)
    } else {
        "Unknown device"@
    }
}

/// The device of the adapter that an object describes.
pub open spec fn device_of(object: BluezObject, adapter_path: Seq<char>) -> Option<DeviceModel> {
    match object.device {
        Some(properties) => if opt_text(properties.adapter) == Some(adapter_path) {
            Some(
                DeviceModel {
                    path: object.path@,
                    name: device_name(properties),
                    icon: text_or_empty(properties.icon),
                    paired: properties.paired == Some(true),
                    trusted: properties.trusted == Some(true),
                    connected: properties.connected == Some(true),
                    battery: object.battery,
                },
            )
        } else {
            None
        },
        None => None,
    }
}

pub open spec fn adapters_of(objects: Seq<BluezObject>) -> Seq<AdapterModel>
    decreases objects.len(),
{
    if objects.len() == 0 {
        Seq::empty()
    } else {
        let before = adapters_of(objects.drop_last());
        match adapter_of(objects.last()) {
            Some(adapter) => before.push(adapter),
            None => before,
        }
    }
}

pub open spec fn devices_of(objects: Seq<BluezObject>, adapter_path: Seq<char>) -> Seq<DeviceModel>
    decreases objects.len(),
{
    if objects.len() == 0 {
        Seq::empty()
    } else {
        let before = devices_of(objects.drop_last(), adapter_path);
        match device_of(objects.last(), adapter_path) {
            Some(device) => before.push(device),
            None => before,
        }
    }
}

pub open spec fn adapter_models(adapters: Seq<BluetoothAdapter>) -> Seq<AdapterModel> {
    adapters.map_values(|adapter: BluetoothAdapter| adapter@)
}

pub open spec fn device_models(devices: Seq<BluetoothDevice>) -> Seq<DeviceModel> {
    devices.map_values(|device: BluetoothDevice| device@)
}

/// Whether a snapshot tells what the objects say: the chosen adapter, and its devices in order.
pub open spec fn describes(
    snapshot: BluetoothSnapshot,
    objects: Seq<BluezObject>,
    preferred: Option<Seq<char>>,
) -> bool {
    match snapshot.adapter {
        Some(adapter) => {
            &&& exists|adapters: Seq<BluetoothAdapter>, i: int|
                adapter_models(adapters) == adapters_of(objects) && #[trigger] best_adapter(
                    adapters,
                    preferred,
                    i,
                ) && adapter == adapters[i]
            &&& exists|devices: Seq<BluetoothDevice>|
                device_models(devices) == devices_of(objects, adapter.path@)
                    && #[trigger] stably_sorted(devices, snapshot.devices@)
        },
        None => adapters_of(objects).len() == 0 && snapshot.devices@.len() == 0,
    }
}

fn build_adapter(object: &BluezObject) -> (r: Option<BluetoothAdapter>)
    ensures
        match r {
            Some(adapter) => adapter_of(*object) == Some(adapter@),
            None => adapter_of(*object) is None,
        },
{
    match &object.adapter {
        Some(properties) => {
            let alias = if solid_text(&properties.alias) {
                or_empty(&properties.alias)
            } else {
                "Bluetooth".to_owned()
            };
            Some(
                BluetoothAdapter {
                    path: object.path.clone(),
                    alias,
                    powered: properties.powered.unwrap_or(false),
                    discovering: properties.discovering.unwrap_or(false),
                },
            )
        },
        None => None,
    }
}

fn build_device(object: &BluezObject, adapter_path: &str) -> (r: Option<BluetoothDevice>)
    ensures
        match r {
            Some(device) => device_of(*object, adapter_path@) == Some(device@),
            None => device_of(*object, adapter_path@) is None,
        },
{
    let properties = match &object.device {
        Some(properties) => properties,
        None => return None,
    };
    match &properties.adapter {
        Some(path) => if !same(path, adapter_path) {
            return None;
        },
        None => return None,
    }
    let name = if solid_text(&properties.alias) {
        or_empty(&properties.alias)
    } else if solid_text(&properties.name) {
        or_empty(&properties.name)
    } else {
        let address = or_empty(&properties.address);
        if address.as_str().is_empty() {
            "Unknown device".to_owned()
        } else {
            address
        }
    };
    Some(
        BluetoothDevice {
            path: object.path.clone(),
            name,
            icon: or_empty(&properties.icon),
            paired: properties.paired.unwrap_or(false),
            trusted: properties.trusted.unwrap_or(false),
            connected: properties.connected.unwrap_or(false),
            battery: object.battery,
        },
    )
}

/// Builds the snapshot that BlueZ's objects describe.
pub fn snapshot_from_objects(objects: &Vec<BluezObject>, preferred_adapter: Option<&str>) -> (r:
    BluetoothSnapshot)
    ensures
        describes(r, objects@, opt_str(preferred_adapter)),
{
    let mut adapters: Vec<BluetoothAdapter> = Vec::new();
    let mut i: usize = 0;
    assert(objects@.take(0) =~= Seq::<BluezObject>::empty());
    while i < objects.len()
        invariant
            i <= objects@.len(),
            adapter_models(adapters@) =~= adapters_of(objects@.take(i as int)),
        decreases objects@.len() - i,
    {
        assert(objects@.take(i as int + 1).drop_last() =~= objects@.take(i as int));
        if let Some(adapter) = build_adapter(&objects[i]) {
            adapters.push(adapter);
        }
        i = i + 1;
    }
    assert(objects@.take(objects@.len() as int) =~= objects@);
    let ghost all = adapters@;
    assert(adapter_models(all) == adapters_of(objects@));
    let adapter = match select_adapter(adapters, preferred_adapter) {
        Some(adapter) => adapter,
        None => {
            assert(adapter_models(all).len() == 0);
            return BluetoothSnapshot::default();
        },
    };
    let mut devices: Vec<BluetoothDevice> = Vec::new();
    let mut i: usize = 0;
    while i < objects.len()
        invariant
            i <= objects@.len(),
            device_models(devices@) =~= devices_of(objects@.take(i as int), adapter.path@),
        decreases objects@.len() - i,
    {
        assert(objects@.take(i as int + 1).drop_last() =~= objects@.take(i as int));
        if let Some(device) = build_device(&objects[i], &adapter.path) {
            devices.push(device);
        }
        i = i + 1;
    }
    assert(objects@.take(objects@.len() as int) =~= objects@);
    let ghost unsorted = devices@;
    assert(device_models(unsorted) == devices_of(objects@, adapter.path@));
    let devices = stable_sort(devices);
    let r = BluetoothSnapshot { adapter: Some(adapter), devices };
    assert(stably_sorted(unsorted, r.devices@));
    r
}

/// What came back when BlueZ was asked for its objects.
pub enum ObjectsReply {
    Objects(Vec<BluezObject>),
    /// The answer does not have the form of an object tree.
    Malformed,
    Failed(DbusCallError),
}

/// Reads the snapshot out of BlueZ's answer; without BlueZ there is no adapter.
pub fn read_snapshot(reply: &ObjectsReply, preferred_adapter: Option<&str>) -> (r: Result<
    BluetoothSnapshot,
    String,
>)
    ensures
        match *reply {
            ObjectsReply::Objects(objects) => r matches Ok(snapshot) && describes(
                snapshot,
                objects@,
                opt_str(preferred_adapter),
            ),
            ObjectsReply::Malformed => r matches Err(message) && message@
                == "BlueZ returned an invalid object tree"@,
            ObjectsReply::Failed(error) => if is_error(
                error,
                "org.freedesktop.DBus.Error.ServiceUnknown"@,
            ) || is_error(error, "org.freedesktop.DBus.Error.NameHasNoOwner"@) {
                r matches Ok(snapshot) && snapshot.adapter is None && snapshot.devices@.len() == 0
            } else {
                r matches Err(message) && message@ == "failed to read BlueZ objects: "@
                    + error.message@
            },
        },
{
    match reply {
        ObjectsReply::Objects(objects) => Ok(snapshot_from_objects(objects, preferred_adapter)),
        ObjectsReply::Malformed => Err("BlueZ returned an invalid object tree".to_owned()),
        ObjectsReply::Failed(error) => if is_bluez_unavailable(error) {
            Ok(BluetoothSnapshot::default())
        } else {
            Err(concat2("failed to read BlueZ objects: ", &error.message))
        },
    }
}

/// A snapshot with the revision it belongs to and the moment it was read.
pub struct SnapshotCacheEntry {
    pub revision: u64,
    pub loaded_at: u64,
    pub snapshot: BluetoothSnapshot,
}

/// The cached snapshot, the revision of BlueZ's state, and the lock of the action that runs.
pub struct BluetoothBackend {
    pub revision: u64,
    pub entry: Option<SnapshotCacheEntry>,
    pub writing: WriteLock,
}

/// What to do for a snapshot.
pub enum SnapshotStep<'a> {
    /// This one is good.
    Cached(&'a BluetoothSnapshot),
    /// Read one, at this revision; of equal adapters the one with this path is preferred.
    Read { revision: u64, preferred: Option<String> },
}

/// What to do with a snapshot that was read.
#[derive(Clone, Copy, Debug, PartialEq, Eq, Structural)]
pub enum ReadStep {
    /// It is current and stays in the cache.
    Store,
    /// Something changed meanwhile: read again.
    Again,
    /// Something changed meanwhile again: use it, but do not keep it.
    UseOnce,
}

impl BluetoothBackend {
    /// Whether the cached snapshot is good at `now`.
    pub open spec fn is_fresh(&self, now: u64) -> bool {
        self.entry matches Some(entry) && entry.revision == self.revision && (now < entry.loaded_at
            || now - entry.loaded_at < SNAPSHOT_CACHE_TTL_MS)
    }

    /// The path of the adapter of the cached snapshot, good or not.
    pub open spec fn known_adapter(&self) -> Option<Seq<char>> {
        match self.entry {
            Some(entry) => match entry.snapshot.adapter {
                Some(adapter) => Some(adapter.path@),
                None => None,
            },
            None => None,
        }
    }

    /// Whether only the revision differs, by `steps` changes.
    pub open spec fn changed_from(&self, before: &Self, steps: nat) -> bool {
        self.revision == bumped(before.revision, steps) && self.entry == before.entry
    }

    pub fn new() -> (r: Self)
        ensures
            r.revision == 0,
            r.entry is None,
            !r.writing.held,
    {
        BluetoothBackend { revision: 0, entry: None, writing: WriteLock::new() }
    }

    /// The snapshot to use at `now`, or how to read one.
    pub fn snapshot(&self, now: u64) -> (r: SnapshotStep<'_>)
        ensures
            match r {
                SnapshotStep::Cached(snapshot) => self.is_fresh(now) && self.entry->0.snapshot
                    == *snapshot,
                SnapshotStep::Read { revision, preferred } => !self.is_fresh(now) && revision
                    == self.revision && opt_text(preferred) == self.known_adapter(),
            },
    {
        let mut preferred: Option<String> = None;
        if let Some(entry) = &self.entry {
            if entry.revision == self.revision && (now < entry.loaded_at || now - entry.loaded_at
                < SNAPSHOT_CACHE_TTL_MS) {
                return SnapshotStep::Cached(&entry.snapshot);
            }
            if let Some(adapter) = &entry.snapshot.adapter {
                preferred = Some(adapter.path.clone());
            }
        }
        SnapshotStep::Read { revision: self.revision, preferred }
    }

    /// What to do with a snapshot whose reading began at `revision`; `last_try` where it has been
    /// read again already.
    pub fn judge_read(&self, revision: u64, last_try: bool) -> (r: ReadStep)
        ensures
            r == (if revision == self.revision {
                ReadStep::Store
            } else if last_try {
                ReadStep::UseOnce
            } else {
                ReadStep::Again
            }),
    {
        if revision == self.revision {
            ReadStep::Store
        } else if last_try {
            ReadStep::UseOnce
        } else {
            ReadStep::Again
        }
    }

    /// Keeps a snapshot that was read at the current revision.
    pub fn store(&mut self, now: u64, snapshot: BluetoothSnapshot)
        ensures
            final(self).revision == old(self).revision,
            final(self).writing == old(self).writing,
            final(self).entry == Some(
                SnapshotCacheEntry { revision: old(self).revision, loaded_at: now, snapshot },
            ),
    {
        self.entry = Some(SnapshotCacheEntry { revision: self.revision, loaded_at: now, snapshot });
    }

    /// Something changed: a cached snapshot is good no more.
    pub fn invalidate(&mut self)
        ensures
            final(self).changed_from(old(self), 1),
            final(self).writing == old(self).writing,
    {
        self.revision = self.revision.wrapping_add(1);
    }

    /// Starts an action; only one runs at a time.
    pub fn begin_action(&mut self) -> (r: Result<(), String>)
        ensures
            final(self).writing.held,
            match r {
                Ok(()) => !old(self).writing.held && final(self).changed_from(old(self), 1),
                Err(message) => old(self).writing.held && message@ == BLUETOOTH_BUSY@ && *final(self) == *old(self),
            },
    {
        match self.writing.acquire(BLUETOOTH_BUSY) {
            Ok(()) => {
                self.invalidate();
                Ok(())
            },
            Err(message) => Err(message),
        }
    }

    fn end_action(&mut self)
        ensures
            final(self).changed_from(old(self), 1),
            !final(self).writing.held,
    {
        self.invalidate();
        self.writing.release();
    }

    /// Ends the action that switched an adapter on or off.
    pub fn set_powered(&mut self, powered: bool, reply: Result<(), DbusCallError>) -> (r: Result<
        (),
        String,
    >)
        requires
            old(self).writing.held,
        ensures
            final(self).changed_from(old(self), 1),
            !final(self).writing.held,
            match reply {
                Ok(()) => r is Ok,
                Err(error) => r matches Err(message) && message@ == "failed to "@ + (if powered {
                    "enable"@
                } else {
                    "disable"@
                }) + " Bluetooth: "@ + error.message@,
            },
    {
        self.end_action();
        match reply {
            Ok(()) => Ok(()),
            Err(error) => Err(
                concat4(
                    "failed to ",
                    if powered {
                        "enable"
                    } else {
                        "disable"
                    },
                    " Bluetooth: ",
                    &error.message,
                ),
            ),
        }
    }

    /// Ends the action that started a search for devices; one that runs already is fine.
    pub fn start_discovery(&mut self, reply: Result<(), DbusCallError>) -> (r: Result<(), String>)
        requires
            old(self).writing.held,
        ensures
            final(self).changed_from(old(self), 1),
            !final(self).writing.held,
            tolerated(
                reply,
                "org.bluez.Error.InProgress"@,
                "failed to start Bluetooth scan: "@,
                r,
            ),
    {
        self.end_action();
        tolerate(reply, "org.bluez.Error.InProgress", "failed to start Bluetooth scan: ")
    }

    /// Ends the action that stopped a search for devices; an adapter that is off is fine.
    pub fn stop_discovery(&mut self, reply: Result<(), DbusCallError>) -> (r: Result<(), String>)
        requires
            old(self).writing.held,
        ensures
            final(self).changed_from(old(self), 1),
            !final(self).writing.held,
            tolerated(
                reply,
                "org.bluez.Error.NotReady"@,
                "failed to stop Bluetooth scan: "@,
                r,
            ),
    {
        self.end_action();
        tolerate(reply, "org.bluez.Error.NotReady", "failed to stop Bluetooth scan: ")
    }

    /// Ends the action that connected or disconnected a device.
    pub fn set_connected(&mut self, outcome: Result<(), String>) -> (r: Result<(), String>)
        requires
            old(self).writing.held,
        ensures
            final(self).changed_from(old(self), 1),
            !final(self).writing.held,
            r == outcome,
    {
        self.end_action();
        outcome
    }

    /// Ends the action that removed a device.
    pub fn remove_device(&mut self, reply: Result<(), DbusCallError>) -> (r: Result<(), String>)
        requires
            old(self).writing.held,
        ensures
            final(self).changed_from(old(self), 1),
            !final(self).writing.held,
            match reply {
                Ok(()) => r is Ok,
                Err(error) => r matches Err(message) && message@
                    == "failed to remove Bluetooth device: "@ + error.message@,
            },
    {
        self.end_action();
        match reply {
            Ok(()) => Ok(()),
            Err(error) => Err(concat2("failed to remove Bluetooth device: ", &error.message)),
        }
    }

    /// Ends the call that gave up a pairing. It runs beside the action that pairs, so it takes
    /// no lock; a pairing that has ended is fine.
    pub fn cancel_pairing(&mut self, reply: Result<(), DbusCallError>) -> (r: Result<(), String>)
        ensures
            final(self).changed_from(old(self), 1),
            final(self).writing == old(self).writing,
            tolerated(
                reply,
                "org.bluez.Error.DoesNotExist"@,
                "failed to cancel Bluetooth pairing: "@,
                r,
            ),
    {
        self.invalidate();
        tolerate(reply, "org.bluez.Error.DoesNotExist", "failed to cancel Bluetooth pairing: ")
    }
}

/// Whether `r` is the outcome of a call for which the error `fine` is no failure.
pub open spec fn tolerated(
    reply: Result<(), DbusCallError>,
    fine: Seq<char>,
    failure: Seq<char>,
    r: Result<(), String>,
) -> bool {
    match reply {
        Ok(()) => r is Ok,
        Err(error) => if is_error(error, fine) {
            r is Ok
        } else {
            r matches Err(message) && message@ == failure + error.message@
        },
    }
}

fn tolerate(reply: Result<(), DbusCallError>, fine: &str, failure: &str) -> (r: Result<(), String>)
    ensures
        tolerated(reply, fine@, failure@, r),
{
    match reply {
        Ok(()) => Ok(()),
        Err(error) => if is_remote_error(&error, fine) {
            Ok(())
        } else {
            Err(concat2(failure, &error.message))
        },
    }
}

/// A snapshot that was good when a change was made is not served after it, whatever number of
/// changes short of a full turn of the counter follows.
pub proof fn changes_retire_the_snapshot(
    before: BluetoothBackend,
    after: BluetoothBackend,
    steps: nat,
    then: u64,
    now: u64,
)
    requires
        before.is_fresh(then),
        0 < steps < 0x1_0000_0000_0000_0000,
        after.changed_from(&before, steps),
    ensures
        !after.is_fresh(now),
{
}

/// A device that is to be connected or disconnected.
pub struct ConnectPlan {
    pub device_name: String,
    pub paired: bool,
    pub trusted: bool,
    pub connect: bool,
}

/// The next thing to do for a plan.
pub enum ConnectStep {
    Disconnect,
    /// Make this program the one that answers pairing questions.
    RegisterAgent,
    Pair,
    Trust,
    /// Ask the device to connect; the number counts from 0.
    Connect(u8),
    /// Wait, then ask again; the number is that of the request that failed.
    Pause(u8),
    Succeeded,
    Failed(String),
}

/// The contents of a `ConnectStep`.
pub enum StepModel {
    Disconnect,
    RegisterAgent,
    Pair,
    Trust,
    Connect(u8),
    Pause(u8),
    Succeeded,
    Failed(Seq<char>),
}

impl View for ConnectStep {
    type V = StepModel;

    open spec fn view(&self) -> StepModel {
        match *self {
            ConnectStep::Disconnect => StepModel::Disconnect,
            ConnectStep::RegisterAgent => StepModel::RegisterAgent,
            ConnectStep::Pair => StepModel::Pair,
            ConnectStep::Trust => StepModel::Trust,
            ConnectStep::Connect(n) => StepModel::Connect(n),
            ConnectStep::Pause(n) => StepModel::Pause(n),
            ConnectStep::Succeeded => StepModel::Succeeded,
            ConnectStep::Failed(message) => StepModel::Failed(message@),
        }
    }
}

/// Whether asking the device again may help.
pub open spec fn is_transient(error: DbusCallError) -> bool {
    is_error(error, "org.bluez.Error.InProgress"@) || is_error(
        error,
        "org.bluez.Error.NotReady"@,
    ) || is_error(error, "org.bluez.Error.Failed"@)
}

impl ConnectPlan {
    /// The step after the device is paired.
    pub open spec fn after_pairing(self) -> StepModel {
        if self.trusted {
            StepModel::Connect(0)
        } else {
            StepModel::Trust
        }
    }

    pub open spec fn first(self) -> StepModel {
        if !self.connect {
            StepModel::Disconnect
        } else if !self.paired {
            StepModel::RegisterAgent
        } else {
            self.after_pairing()
        }
    }

    /// The step that follows `step` once `reply` has come back.
    pub open spec fn next(self, step: StepModel, reply: Result<(), DbusCallError>) -> StepModel {
        match step {
            StepModel::Disconnect => match reply {
                Ok(()) => StepModel::Succeeded,
                Err(error) => if is_error(error, "org.bluez.Error.NotConnected"@) {
                    StepModel::Succeeded
                } else {
                    StepModel::Failed(
                        "failed to disconnect "@ + self.device_name@ + ": "@ + error.message@,
                    )
                },
            },
            StepModel::RegisterAgent => match reply {
                Ok(()) => StepModel::Pair,
                Err(error) => if is_error(error, "org.bluez.Error.AlreadyExists"@) {
                    StepModel::Pair
                } else {
                    StepModel::Failed("failed to register Bluetooth agent: "@ + error.message@)
                },
            },
            StepModel::Pair => match reply {
                Ok(()) => self.after_pairing(),
                Err(error) => if is_error(error, "org.bluez.Error.AlreadyExists"@) {
                    self.after_pairing()
                } else {
                    StepModel::Failed(
                        "failed to pair "@ + self.device_name@ + ": "@ + error.message@,
                    )
                },
            },
            StepModel::Trust => match reply {
                Ok(()) => StepModel::Connect(0),
                Err(error) => StepModel::Failed(
                    "failed to trust "@ + self.device_name@ + ": "@ + error.message@,
                ),
            },
            StepModel::Connect(n) => match reply {
                Ok(()) => StepModel::Succeeded,
                Err(error) => if is_error(error, "org.bluez.Error.AlreadyConnected"@) {
                    StepModel::Succeeded
                } else if is_transient(error) && n + 1 < CONNECT_ATTEMPTS {
                    StepModel::Pause(n)
                } else {
                    StepModel::Failed(
                        "failed to connect "@ + self.device_name@ + ": "@ + error.message@,
                    )
                },
            },
            StepModel::Pause(n) => StepModel::Connect((n + 1) as u8),
            StepModel::Succeeded => StepModel::Succeeded,
            StepModel::Failed(message) => StepModel::Failed(message),
        }
    }

    /// What a plan has come to once the replies came back, in order.
    pub open spec fn after_replies(self, replies: Seq<Result<(), DbusCallError>>) -> StepModel
        decreases replies.len(),
    {
        if replies.len() == 0 {
            self.first()
        } else {
            self.next(self.after_replies(replies.drop_last()), replies.last())
        }
    }

    /// Whether a plan can come to `step`.
    pub open spec fn step_ok(step: StepModel) -> bool {
        match step {
            StepModel::Connect(n) => n < CONNECT_ATTEMPTS,
            StepModel::Pause(n) => n + 1 < CONNECT_ATTEMPTS,
            _ => true,
        }
    }

    /// How many replies a plan can still take from `step` on.
    pub open spec fn replies_left(step: StepModel) -> nat {
        match step {
            StepModel::Disconnect => 1,
            StepModel::RegisterAgent => 8,
            StepModel::Pair => 7,
            StepModel::Trust => 6,
            StepModel::Connect(n) => if n >= CONNECT_ATTEMPTS {
                0
            } else {
                (2 * (CONNECT_ATTEMPTS - n) - 1) as nat
            },
            StepModel::Pause(n) => if n >= CONNECT_ATTEMPTS {
                0
            } else {
                (2 * (CONNECT_ATTEMPTS - n) - 2) as nat
            },
            StepModel::Succeeded => 0,
            StepModel::Failed(_) => 0,
        }
    }

    fn settled(&self) -> (r: ConnectStep)
        ensures
            r@ == self.after_pairing(),
    {
        if self.trusted {
            ConnectStep::Connect(0)
        } else {
            ConnectStep::Trust
        }
    }

    /// The first step of the plan.
    pub fn start(&self) -> (r: ConnectStep)
        ensures
            r@ == self.first(),
            ConnectPlan::step_ok(r@),
    {
        if !self.connect {
            ConnectStep::Disconnect
        } else if !self.paired {
            ConnectStep::RegisterAgent
        } else {
            self.settled()
        }
    }

    /// The step after `step` was done and `reply` came back; the reply to a pause is ignored.
    pub fn advance(&self, step: ConnectStep, reply: Result<(), DbusCallError>) -> (r: ConnectStep)
        requires
            ConnectPlan::step_ok(step@),
        ensures
            r@ == self.next(step@, reply),
            ConnectPlan::step_ok(r@),
    {
        match step {
            ConnectStep::Disconnect => match reply {
                Ok(()) => ConnectStep::Succeeded,
                Err(error) => if is_remote_error(&error, "org.bluez.Error.NotConnected") {
                    ConnectStep::Succeeded
                } else {
                    ConnectStep::Failed(
                        concat4("failed to disconnect ", &self.device_name, ": ", &error.message),
                    )
                },
            },
            ConnectStep::RegisterAgent => match reply {
                Ok(()) => ConnectStep::Pair,
                Err(error) => if is_remote_error(&error, "org.bluez.Error.AlreadyExists") {
                    ConnectStep::Pair
                } else {
                    ConnectStep::Failed(
                        concat2("failed to register Bluetooth agent: ", &error.message),
                    )
                },
            },
            ConnectStep::Pair => match reply {
                Ok(()) => self.settled(),
                Err(error) => if is_remote_error(&error, "org.bluez.Error.AlreadyExists") {
                    self.settled()
                } else {
                    ConnectStep::Failed(
                        concat4("failed to pair ", &self.device_name, ": ", &error.message),
                    )
                },
            },
            ConnectStep::Trust => match reply {
                Ok(()) => ConnectStep::Connect(0),
                Err(error) => ConnectStep::Failed(
                    concat4("failed to trust ", &self.device_name, ": ", &error.message),
                ),
            },
            ConnectStep::Connect(n) => match reply {
                Ok(()) => ConnectStep::Succeeded,
                Err(error) => {
                    if is_remote_error(&error, "org.bluez.Error.AlreadyConnected") {
                        return ConnectStep::Succeeded;
                    }
                    let transient = is_remote_error(&error, "org.bluez.Error.InProgress")
                        || is_remote_error(&error, "org.bluez.Error.NotReady") || is_remote_error(
                        &error,
                        "org.bluez.Error.Failed",
                    );
                    if transient && n + 1 < CONNECT_ATTEMPTS {
                        ConnectStep::Pause(n)
                    } else {
                        ConnectStep::Failed(
                            concat4("failed to connect ", &self.device_name, ": ", &error.message),
                        )
                    }
                },
            },
            ConnectStep::Pause(n) => ConnectStep::Connect(n + 1),
            ConnectStep::Succeeded => ConnectStep::Succeeded,
            ConnectStep::Failed(message) => ConnectStep::Failed(message),
        }
    }
}

/// Every plan ends: with each reply there is less left to do, and the device is asked to connect
/// no more than the number of attempts.
pub proof fn plans_end(plan: ConnectPlan, step: StepModel, reply: Result<(), DbusCallError>)
    requires
        ConnectPlan::step_ok(step),
        !(step is Succeeded) && !(step is Failed),
    ensures
        ConnectPlan::step_ok(plan.next(step, reply)),
        ConnectPlan::replies_left(plan.next(step, reply)) < ConnectPlan::replies_left(step),
        ConnectPlan::step_ok(plan.first()),
        ConnectPlan::replies_left(plan.first()) <= 8,
{
}

/// A plan is over after its first eight replies at the latest.
pub proof fn plans_end_within_eight_replies(
    plan: ConnectPlan,
    replies: Seq<Result<(), DbusCallError>>,
)
    ensures
        ConnectPlan::step_ok(plan.after_replies(replies)),
        ConnectPlan::replies_left(plan.after_replies(replies)) + replies.len() <= 8 || plan.after_replies(
            replies,
        ) is Succeeded || plan.after_replies(replies) is Failed,
        replies.len() >= 8 ==> plan.after_replies(replies) is Succeeded || plan.after_replies(
            replies,
        ) is Failed,
    decreases replies.len(),
{
    if replies.len() > 0 {
        plans_end_within_eight_replies(plan, replies.drop_last());
        let step = plan.after_replies(replies.drop_last());
        if !(step is Succeeded) && !(step is Failed) {
            plans_end(plan, step, replies.last());
        }
    }
}

/// A device that is not paired is asked to connect only after pairing went well.
pub proof fn no_connection_without_pairing(plan: ConnectPlan, error: DbusCallError)
    requires
        plan.connect,
        !plan.paired,
        !is_error(error, "org.bluez.Error.AlreadyExists"@),
    ensures
        plan.first() == StepModel::RegisterAgent,
        plan.next(StepModel::RegisterAgent, Err(error)) is Failed,
        plan.next(StepModel::Pair, Err(error)) is Failed,
{
}

/// What a signal of BlueZ carries.
pub enum SignalParameters {
    /// The interfaces that were added to an object or removed from it.
    Interfaces(Vec<String>),
    /// The interface whose properties changed, and their names.
    Properties { interface: String, changed: Vec<String>, invalidated: Vec<String> },
    /// Something else.
    Malformed,
}

pub open spec fn tracks_interface(interface: Seq<char>) -> bool {
    interface == BLUEZ_ADAPTER_INTERFACE@ || interface == BLUEZ_DEVICE_INTERFACE@ || interface
        == BLUEZ_BATTERY_INTERFACE@
}

/// Whether a snapshot depends on the property.
pub open spec fn tracks_property(interface: Seq<char>, name: Seq<char>) -> bool {
    if interface == BLUEZ_ADAPTER_INTERFACE@ {
        name == "Alias"@ || name == "Powered"@ || name == "Discovering"@
    } else if interface == BLUEZ_DEVICE_INTERFACE@ {
        name == "Adapter"@ || name == "Address"@ || name == "Alias"@ || name == "Name"@ || name
            == "Icon"@ || name == "Paired"@ || name == "Trusted"@ || name == "Connected"@
    } else if interface == BLUEZ_BATTERY_INTERFACE@ {
        name == "Percentage"@
    } else {
        false
    }
}

/// Whether a signal can change a snapshot. One whose form is not as expected can.
pub open spec fn affects_snapshot(
    interface: Seq<char>,
    signal: Seq<char>,
    parameters: SignalParameters,
) -> bool {
    if interface == BLUEZ_OBJECT_MANAGER_INTERFACE@ && (signal == "InterfacesAdded"@ || signal
        == "InterfacesRemoved"@) {
        match parameters {
            SignalParameters::Interfaces(names) => exists|i: int|
                0 <= i < names@.len() && tracks_interface((#[trigger] names@[i])@),
            _ => true,
        }
    } else if interface == DBUS_PROPERTIES_INTERFACE@ && signal == "PropertiesChanged"@ {
        match parameters {
            SignalParameters::Properties { interface, changed, invalidated } => {
                ||| exists|i: int|
                    0 <= i < changed@.len() && tracks_property(
                        interface@,
                        (#[trigger] changed@[i])@,
                    )
                ||| exists|i: int|
                    0 <= i < invalidated@.len() && tracks_property(
                        interface@,
                        (#[trigger] invalidated@[i])@,
                    )
            },
            _ => true,
        }
    } else {
        false
    }
}

pub fn is_tracked_interface(interface: &str) -> (r: bool)
    ensures
        r == tracks_interface(interface@),
{
    same(interface, BLUEZ_ADAPTER_INTERFACE) || same(interface, BLUEZ_DEVICE_INTERFACE) || same(
        interface,
        BLUEZ_BATTERY_INTERFACE,
    )
}

pub fn is_tracked_property(interface: &str, name: &str) -> (r: bool)
    ensures
        r == tracks_property(interface@, name@),
{
    if same(interface, BLUEZ_ADAPTER_INTERFACE) {
        same(name, "Alias") || same(name, "Powered") || same(name, "Discovering")
    } else if same(interface, BLUEZ_DEVICE_INTERFACE) {
        same(name, "Adapter") || same(name, "Address") || same(name, "Alias") || same(name, "Name")
            || same(name, "Icon") || same(name, "Paired") || same(name, "Trusted") || same(
            name,
            "Connected",
        )
    } else if same(interface, BLUEZ_BATTERY_INTERFACE) {
        same(name, "Percentage")
    } else {
        false
    }
}

fn any_tracked_property(interface: &str, names: &Vec<String>) -> (r: bool)
    ensures
        r == exists|i: int|
            0 <= i < names@.len() && tracks_property(interface@, (#[trigger] names@[i])@),
{
    let mut i: usize = 0;
    while i < names.len()
        invariant
            i <= names@.len(),
            forall|k: int|
                0 <= k < i ==> !tracks_property(interface@, (#[trigger] names@[k])@),
        decreases names@.len() - i,
    {
        if is_tracked_property(interface, &names[i]) {
            return true;
        }
        i = i + 1;
    }
    false
}

fn any_tracked_interface(names: &Vec<String>) -> (r: bool)
    ensures
        r == exists|i: int| 0 <= i < names@.len() && tracks_interface((#[trigger] names@[i])@),
{
    let mut i: usize = 0;
    while i < names.len()
        invariant
            i <= names@.len(),
            forall|k: int| 0 <= k < i ==> !tracks_interface((#[trigger] names@[k])@),
        decreases names@.len() - i,
    {
        if is_tracked_interface(&names[i]) {
            return true;
        }
        i = i + 1;
    }
    false
}

/// Whether a signal can change a snapshot.
pub fn bluez_signal_affects_snapshot(
    interface_name: &str,
    signal_name: &str,
    parameters: &SignalParameters,
) -> (r: bool)
    ensures
        r == affects_snapshot(interface_name@, signal_name@, *parameters),
{
    if same(interface_name, BLUEZ_OBJECT_MANAGER_INTERFACE) && (same(signal_name, "InterfacesAdded")
        || same(signal_name, "InterfacesRemoved")) {
        match parameters {
            SignalParameters::Interfaces(names) => any_tracked_interface(names),
            _ => true,
        }
    } else if same(interface_name, DBUS_PROPERTIES_INTERFACE) && same(
        signal_name,
        "PropertiesChanged",
    ) {
        match parameters {
            SignalParameters::Properties { interface, changed, invalidated } => {
                any_tracked_property(interface, changed) || any_tracked_property(
                    interface,
                    invalidated,
                )
            },
            _ => true,
        }
    } else {
        false
    }
}

/// Where every reply is a success, the plan never fails, and after as many replies as it has steps
/// it has succeeded: one for a disconnection, at most four for a connection.
pub proof fn successful_replies_succeed(
    plan: ConnectPlan,
    replies: Seq<Result<(), DbusCallError>>,
)
    requires
        forall|i: int| 0 <= i < replies.len() ==> (#[trigger] replies[i]) is Ok,
    ensures
        !(plan.after_replies(replies) is Failed),
        !(plan.after_replies(replies) is Pause),
        replies.len() >= 4 ==> plan.after_replies(replies) is Succeeded,
        !plan.connect && replies.len() >= 1 ==> plan.after_replies(replies) is Succeeded,
        plan.connect && plan.paired && plan.trusted && replies.len() >= 1 ==> plan.after_replies(
            replies,
        ) is Succeeded,
        plan.after_replies(replies) is Succeeded ==> replies.len() >= 1 + (if plan.connect
            && !plan.paired {
            2int
        } else {
            0int
        }) + (if plan.connect && !plan.trusted {
            1int
        } else {
            0int
        }),
{
    steps_done(plan, replies);
}

/// How many successful replies lead from the start of a plan to the step.
spec fn steps_before(plan: ConnectPlan, step: StepModel) -> int {
    let pairing = if plan.paired {
        0int
    } else {
        2
    };
    match step {
        StepModel::Disconnect => 0,
        StepModel::RegisterAgent => 0,
        StepModel::Pair => 1,
        StepModel::Trust => pairing,
        StepModel::Connect(_) => pairing + (if plan.trusted {
            0int
        } else {
            1
        }),
        _ => -1,
    }
}

proof fn steps_done(plan: ConnectPlan, replies: Seq<Result<(), DbusCallError>>)
    requires
        forall|i: int| 0 <= i < replies.len() ==> (#[trigger] replies[i]) is Ok,
    ensures
        ({
            let step = plan.after_replies(replies);
            &&& !(step is Failed) && !(step is Pause)
            &&& plan.connect ==> !(step is Disconnect)
            &&& !plan.connect ==> step is Disconnect || step is Succeeded
            &&& !(step is Succeeded) ==> steps_before(plan, step) == replies.len()
            &&& step is RegisterAgent || step is Pair ==> plan.connect && !plan.paired
            &&& step is Trust ==> plan.connect && !plan.trusted
            &&& step is Connect ==> step == StepModel::Connect(0)
            &&& step is Succeeded ==> replies.len() > steps_before(
                plan,
                if plan.connect {
                    StepModel::Connect(0)
                } else {
                    StepModel::Disconnect
                },
            )
        }),
    decreases replies.len(),
{
    if replies.len() > 0 {
        let front = replies.drop_last();
        assert forall|i: int| 0 <= i < front.len() implies (#[trigger] front[i]) is Ok by {
            assert(front[i] == replies[i]);
        }
        steps_done(plan, front);
        assert(replies[replies.len() - 1] is Ok);
    }
}

/// A plan fails only where some reply was an error, and its message ends in the message of one.
pub proof fn failures_come_from_errors(
    plan: ConnectPlan,
    replies: Seq<Result<(), DbusCallError>>,
)
    ensures
        plan.after_replies(replies) matches StepModel::Failed(message) ==> exists|i: int|
            0 <= i < replies.len() && ((#[trigger] replies[i]) matches Err(error) && ends_with(
                message,
                error.message@,
            )),
    decreases replies.len(),
{
    if replies.len() > 0 {
        let front = replies.drop_last();
        failures_come_from_errors(plan, front);
        let step = plan.after_replies(front);
        let last = replies.len() - 1;
        if let StepModel::Failed(message) = plan.after_replies(replies) {
            if step is Failed {
                let i = choose|i: int|
                    0 <= i < front.len() && ((#[trigger] front[i]) matches Err(error) && ends_with(
                        message,
                        error.message@,
                    ));
                assert(replies[i] == front[i]);
            } else {
                let said = replies[last]->Err_0.message@;
                let at = message.len() - said.len();
                assert(message.subrange(at, at + said.len()) =~= said);
                assert(ends_with(message, said));
            }
        }
    }
}

/// A plan that connects succeeds only by asking the device to connect and being told that it is
/// connected; one that disconnects only by asking it to disconnect and being told that it is not.
pub proof fn success_is_what_was_asked_for(
    plan: ConnectPlan,
    replies: Seq<Result<(), DbusCallError>>,
    reply: Result<(), DbusCallError>,
)
    requires
        !(plan.after_replies(replies) is Succeeded),
        plan.after_replies(replies.push(reply)) is Succeeded,
    ensures
        plan.connect == (plan.after_replies(replies) is Connect),
        !plan.connect == (plan.after_replies(replies) is Disconnect),
        match reply {
            Ok(()) => true,
            Err(error) => opt_text(error.remote_name) == Some(
                if plan.connect {
                    "org.bluez.Error.AlreadyConnected"@
                } else {
                    "org.bluez.Error.NotConnected"@
                },
            ),
        },
{
    assert(replies.push(reply).drop_last() =~= replies);
    plans_keep_their_aim(plan, replies);
}

proof fn plans_keep_their_aim(plan: ConnectPlan, replies: Seq<Result<(), DbusCallError>>)
    ensures
        ({
            let step = plan.after_replies(replies);
            &&& step is Disconnect ==> !plan.connect
            &&& step is RegisterAgent || step is Pair || step is Trust || step is Connect
                || step is Pause ==> plan.connect
        }),
    decreases replies.len(),
{
    if replies.len() > 0 {
        plans_keep_their_aim(plan, replies.drop_last());
    }
}

/// A device that is busy or not ready is asked to connect again, up to three times in all; on any
/// other error it is not asked again.
pub proof fn busy_devices_are_asked_three_times(
    plan: ConnectPlan,
    n: u8,
    error: DbusCallError,
    reply: Result<(), DbusCallError>,
)
    requires
        n < 3,
        opt_text(error.remote_name) != Some("org.bluez.Error.AlreadyConnected"@),
    ensures
        ({
            let busy = opt_text(error.remote_name) == Some("org.bluez.Error.InProgress"@)
                || opt_text(error.remote_name) == Some("org.bluez.Error.NotReady"@) || opt_text(
                error.remote_name,
            ) == Some("org.bluez.Error.Failed"@);
            let after = plan.next(StepModel::Connect(n), Err(error));
            &&& busy && n < 2 ==> plan.next(after, reply) == StepModel::Connect((n + 1) as u8)
            &&& !busy || n == 2 ==> after is Failed
        }),
{
}

/// Whether the texts that can name a device give this name: its alias where that says something,
/// else its name, else its address.
pub open spec fn is_named(properties: DeviceProperties, name: Seq<char>) -> bool {
    let says = |text: Option<String>| text is Some && !is_blank(text->0@);
    &&& says(properties.alias) ==> name == properties.alias->0@
    &&& !says(properties.alias) && says(properties.name) ==> name == properties.name->0@
    &&& !says(properties.alias) && !says(properties.name) && says(properties.address) ==> name
        == properties.address->0@
    &&& name.len() > 0
}

/// Whether an object tells of a device of the adapter, and this is what it tells.
pub open spec fn tells_device(object: BluezObject, adapter: Seq<char>, device: DeviceModel) -> bool {
    &&& object.device matches Some(properties) && opt_text(properties.adapter) == Some(adapter)
        && device.paired == (properties.paired == Some(true)) && device.trusted == (
    properties.trusted == Some(true)) && device.connected == (properties.connected == Some(true))
        && is_named(properties, device.name) && (properties.icon matches Some(icon)
        ==> device.icon == icon@)
    &&& device.path == object.path@
    &&& device.battery == object.battery
}

proof fn solid_is_not_blank(text: Option<String>)
    ensures
        is_solid(text) == (text is Some && !is_blank(text->0@)),
{
    if text is Some {
        let t = text->0@;
        if is_blank(t) {
            blank_texts_trim_to_nothing(t);
        } else if trimmed(t).len() == 0 {
            trimming_takes_white_space_alone(t);
            let (from, to) = choose|from: int, to: int|
                0 <= from <= to <= t.len() && #[trigger] t.subrange(from, to) == trimmed(t)
                    && is_blank(t.subrange(0, from)) && is_blank(t.subrange(to, t.len() as int));
            assert forall|i: int| 0 <= i < t.len() implies is_space(#[trigger] t[i]) by {
                if i < from {
                    assert(t.subrange(0, from)[i] == t[i]);
                } else {
                    assert(t.subrange(to, t.len() as int)[i - to] == t[i]);
                }
            }
        }
    }
}

proof fn built_devices_are_told(object: BluezObject, adapter: Seq<char>)
    ensures
        match device_of(object, adapter) {
            Some(device) => tells_device(object, adapter, device),
            None => !(object.device is Some && opt_text(object.device->0.adapter) == Some(adapter)),
        },
{
    if object.device is Some {
        let properties = object.device->0;
        solid_is_not_blank(properties.alias);
        solid_is_not_blank(properties.name);
        reveal_strlit("Unknown device");
        if properties.address is Some && !is_blank(properties.address->0@) {
            assert(properties.address->0@.len() > 0);
        }
        if is_solid(properties.alias) {
            assert(properties.alias->0@.len() > 0) by {
                if properties.alias->0@.len() == 0 {
                    assert(is_blank(properties.alias->0@));
                }
            }
        } else if is_solid(properties.name) {
            assert(properties.name->0@.len() > 0) by {
                if properties.name->0@.len() == 0 {
                    assert(is_blank(properties.name->0@));
                }
            }
        }
    }
}

proof fn listed_devices_are_told(objects: Seq<BluezObject>, adapter: Seq<char>, k: int)
    requires
        0 <= k < devices_of(objects, adapter).len(),
    ensures
        exists|i: int|
            0 <= i < objects.len() && tells_device(
                #[trigger] objects[i],
                adapter,
                devices_of(objects, adapter)[k],
            ),
    decreases objects.len(),
{
    if objects.len() > 0 {
        let before = devices_of(objects.drop_last(), adapter);
        built_devices_are_told(objects.last(), adapter);
        if k < before.len() {
            listed_devices_are_told(objects.drop_last(), adapter, k);
            let i = choose|i: int|
                0 <= i < objects.len() - 1 && tells_device(
                    #[trigger] objects.drop_last()[i],
                    adapter,
                    before[k],
                );
            assert(objects.drop_last()[i] == objects[i]);
        } else {
            assert(objects[objects.len() - 1] == objects.last());
        }
    }
}

proof fn told_devices_are_listed(objects: Seq<BluezObject>, adapter: Seq<char>, i: int)
    requires
        0 <= i < objects.len(),
        objects[i].device matches Some(properties) && opt_text(properties.adapter) == Some(adapter),
    ensures
        exists|k: int|
            0 <= k < devices_of(objects, adapter).len() && tells_device(
                objects[i],
                adapter,
                #[trigger] devices_of(objects, adapter)[k],
            ),
    decreases objects.len(),
{
    let all = devices_of(objects, adapter);
    let before = devices_of(objects.drop_last(), adapter);
    built_devices_are_told(objects[i], adapter);
    if i == objects.len() - 1 {
        assert(tells_device(objects[i], adapter, all[all.len() - 1]));
    } else {
        assert(objects.drop_last()[i] == objects[i]);
        told_devices_are_listed(objects.drop_last(), adapter, i);
        let k = choose|k: int|
            0 <= k < before.len() && tells_device(
                objects.drop_last()[i],
                adapter,
                #[trigger] before[k],
            );
        assert(all[k] == before[k]);
    }
}

/// A snapshot lists exactly the devices of its adapter, each as its object tells it.
pub proof fn snapshots_list_the_devices(
    objects: Vec<BluezObject>,
    preferred: Option<&str>,
    r: BluetoothSnapshot,
)
    requires
        call_ensures(snapshot_from_objects, (&objects, preferred), r),
        r.adapter is Some,
    ensures
        forall|k: int|
            0 <= k < r.devices@.len() ==> exists|i: int|
                0 <= i < objects@.len() && tells_device(
                    #[trigger] objects@[i],
                    r.adapter->0.path@,
                    (#[trigger] r.devices@[k])@,
                ),
        forall|i: int|
            0 <= i < objects@.len() && (#[trigger] objects@[i]).device is Some && opt_text(
                objects@[i].device->0.adapter,
            ) == Some(r.adapter->0.path@) ==> exists|k: int|
                0 <= k < r.devices@.len() && tells_device(
                    objects@[i],
                    r.adapter->0.path@,
                    (#[trigger] r.devices@[k])@,
                ),
{
    let adapter = r.adapter->0.path@;
    let listed = choose|devices: Seq<BluetoothDevice>|
        device_models(devices) == devices_of(objects@, adapter) && #[trigger] stably_sorted(
            devices,
            r.devices@,
        );
    let all = devices_of(objects@, adapter);
    assert(all.len() == listed.len());
    assert forall|k: int| 0 <= k < r.devices@.len() implies exists|i: int|
        0 <= i < objects@.len() && tells_device(
            #[trigger] objects@[i],
            adapter,
            (#[trigger] r.devices@[k])@,
        ) by {
        assert(r.devices@.contains(r.devices@[k]));
        sorted_has_the_same_members(listed, r.devices@, r.devices@[k]);
        let n = choose|n: int| 0 <= n < listed.len() && listed[n] == r.devices@[k];
        assert(device_models(listed)[n] == listed[n]@);
        listed_devices_are_told(objects@, adapter, n);
    }
    assert forall|i: int|
        0 <= i < objects@.len() && (#[trigger] objects@[i]).device is Some && opt_text(
            objects@[i].device->0.adapter,
        ) == Some(adapter) implies exists|k: int|
        0 <= k < r.devices@.len() && tells_device(objects@[i], adapter, (#[trigger] r.devices@[k])@) by {
        told_devices_are_listed(objects@, adapter, i);
        let n = choose|n: int|
            0 <= n < all.len() && tells_device(objects@[i], adapter, #[trigger] all[n]);
        assert(device_models(listed)[n] == listed[n]@);
        assert(listed.contains(listed[n]));
        sorted_has_the_same_members(listed, r.devices@, listed[n]);
        let k = choose|k: int| 0 <= k < r.devices@.len() && r.devices@[k] == listed[n];
        assert(tells_device(objects@[i], adapter, r.devices@[k]@));
    }
}

/// Whether an object tells of an adapter, and this is what it tells.
pub open spec fn tells_adapter(object: BluezObject, adapter: AdapterModel) -> bool {
    &&& object.adapter matches Some(properties) && adapter.powered == (properties.powered == Some(
        true,
    )) && adapter.discovering == (properties.discovering == Some(true)) && (
    properties.alias is Some && !is_blank(properties.alias->0@) ==> adapter.alias
        == properties.alias->0@)
    &&& adapter.path == object.path@
}

proof fn listed_adapters_are_told(objects: Seq<BluezObject>, k: int)
    requires
        0 <= k < adapters_of(objects).len(),
    ensures
        exists|i: int|
            0 <= i < objects.len() && tells_adapter(#[trigger] objects[i], adapters_of(objects)[k]),
    decreases objects.len(),
{
    if objects.len() > 0 {
        let before = adapters_of(objects.drop_last());
        if k < before.len() {
            listed_adapters_are_told(objects.drop_last(), k);
            let i = choose|i: int|
                0 <= i < objects.len() - 1 && tells_adapter(
                    #[trigger] objects.drop_last()[i],
                    before[k],
                );
            assert(objects.drop_last()[i] == objects[i]);
        } else {
            solid_is_not_blank(objects.last().adapter->0.alias);
            assert(objects[objects.len() - 1] == objects.last());
        }
    }
}

proof fn told_adapters_are_listed(objects: Seq<BluezObject>, i: int)
    requires
        0 <= i < objects.len(),
        objects[i].adapter is Some,
    ensures
        exists|k: int|
            0 <= k < adapters_of(objects).len() && tells_adapter(
                objects[i],
                #[trigger] adapters_of(objects)[k],
            ),
    decreases objects.len(),
{
    let all = adapters_of(objects);
    let before = adapters_of(objects.drop_last());
    if i == objects.len() - 1 {
        solid_is_not_blank(objects.last().adapter->0.alias);
        assert(tells_adapter(objects[i], all[all.len() - 1]));
    } else {
        assert(objects.drop_last()[i] == objects[i]);
        told_adapters_are_listed(objects.drop_last(), i);
        let k = choose|k: int|
            0 <= k < before.len() && tells_adapter(objects.drop_last()[i], #[trigger] before[k]);
        assert(all[k] == before[k]);
    }
}

/// A snapshot has an adapter exactly where some object tells of one, as that object tells it; a
/// powered one wherever there is a powered one, and the preferred one where none is powered or it
/// is powered itself.
pub proof fn snapshots_tell_the_adapter(
    objects: Vec<BluezObject>,
    preferred: Option<&str>,
    r: BluetoothSnapshot,
)
    requires
        call_ensures(snapshot_from_objects, (&objects, preferred), r),
    ensures
        (r.adapter is Some) == (exists|i: int|
            0 <= i < objects@.len() && (#[trigger] objects@[i]).adapter is Some),
        r.adapter is None ==> r.devices@.len() == 0,
        r.adapter matches Some(adapter) ==> exists|i: int|
            0 <= i < objects@.len() && tells_adapter(#[trigger] objects@[i], adapter@),
        forall|i: int|
            0 <= i < objects@.len() && (#[trigger] objects@[i]).adapter is Some
                && objects@[i].adapter->0.powered == Some(true) ==> r.adapter is Some
                && r.adapter->0.powered,
        forall|i: int|
            0 <= i < objects@.len() && (#[trigger] objects@[i]).adapter is Some && opt_str(
                preferred,
            ) == Some(objects@[i].path@) && objects@[i].adapter->0.powered == Some(true)
                ==> r.adapter is Some && r.adapter->0.path@ == objects@[i].path@,
{
    let all = adapters_of(objects@);
    assert forall|i: int| 0 <= i < objects@.len() && (#[trigger] objects@[i]).adapter is Some implies all.len() > 0 by {
        told_adapters_are_listed(objects@, i);
    }
    if r.adapter is Some {
        let (adapters, n) = choose|adapters: Seq<BluetoothAdapter>, n: int|
            adapter_models(adapters) == all && #[trigger] best_adapter(
                adapters,
                opt_str(preferred),
                n,
            ) && r.adapter->0 == adapters[n];
        assert(adapters.len() == all.len());
        assert(all[n] == adapters[n]@);
        listed_adapters_are_told(objects@, n);
        assert forall|i: int|
            0 <= i < objects@.len() && (#[trigger] objects@[i]).adapter is Some
                && objects@[i].adapter->0.powered == Some(true) implies r.adapter->0.powered && (
        opt_str(preferred) == Some(objects@[i].path@) ==> r.adapter->0.path@ == objects@[i].path@) by {
            told_adapters_are_listed(objects@, i);
            let k = choose|k: int|
                0 <= k < all.len() && tells_adapter(objects@[i], #[trigger] all[k]);
            assert(all[k] == adapters[k]@);
            assert(adapter_le(adapters[n], adapters[k], opt_str(preferred)));
        }
    } else if exists|i: int| 0 <= i < objects@.len() && (#[trigger] objects@[i]).adapter is Some {
    }
}

/// In a snapshot connected devices come first, then those that were used before, and within each
/// the names stand in the order of their letters, case aside.
pub proof fn snapshots_are_in_order(
    objects: Vec<BluezObject>,
    preferred: Option<&str>,
    r: BluetoothSnapshot,
    i: int,
    j: int,
)
    requires
        call_ensures(snapshot_from_objects, (&objects, preferred), r),
        0 <= i < j < r.devices@.len(),
    ensures
        r.devices@[j].connected ==> r.devices@[i].connected,
        (r.devices@[j].paired || r.devices@[j].trusted) ==> r.devices@[i].paired
            || r.devices@[i].trusted || r.devices@[i].connected,
        r.devices@[i].connected == r.devices@[j].connected && (r.devices@[i].paired
            || r.devices@[i].trusted) == (r.devices@[j].paired || r.devices@[j].trusted)
            ==> text_le(lower_text(r.devices@[i].name@), lower_text(r.devices@[j].name@)),
{
    assert(r.devices@[i].le(&r.devices@[j]));
    text_le_reflexive(lower_text(r.devices@[i].name@));
}

/// Where BlueZ does not run there is no adapter; every other failure is told with its message.
pub proof fn missing_services_are_no_failure(
    reply: ObjectsReply,
    preferred: Option<&str>,
    r: Result<BluetoothSnapshot, String>,
    error_gone: bool,
)
    requires
        call_ensures(read_snapshot, (&reply, preferred), r),
        reply is Failed,
        call_ensures(is_bluez_unavailable, (&reply->Failed_0,), error_gone),
    ensures
        error_gone == (opt_text(reply->Failed_0.remote_name) == Some(
            "org.freedesktop.DBus.Error.ServiceUnknown"@,
        ) || opt_text(reply->Failed_0.remote_name) == Some(
            "org.freedesktop.DBus.Error.NameHasNoOwner"@,
        )),
        (r is Ok) == error_gone,
        r matches Ok(snapshot) ==> snapshot.adapter is None && snapshot.devices@.len() == 0,
        r matches Err(message) ==> ends_with(message@, reply->Failed_0.message@),
{
    parts_show("failed to read BlueZ objects: "@, reply->Failed_0.message@, Seq::empty());
}

/// A snapshot is used again for five seconds and no longer, and not after a change; then the
/// adapter that was in use is preferred.
pub proof fn snapshots_are_used_for_five_seconds(
    stored: &mut BluetoothBackend,
    loaded_at: u64,
    snapshot: BluetoothSnapshot,
    changed: &mut BluetoothBackend,
    now: u64,
    step: SnapshotStep<'_>,
    later: SnapshotStep<'_>,
)
    requires
        loaded_at <= now,
        call_ensures(BluetoothBackend::store, (stored, loaded_at, snapshot), ()),
        *old(changed) == *final(stored),
        call_ensures(BluetoothBackend::invalidate, (changed,), ()),
        call_ensures(BluetoothBackend::snapshot, (final(stored), now), step),
        call_ensures(BluetoothBackend::snapshot, (final(changed), now), later),
    ensures
        (step is Cached) == (now - loaded_at < 5_000),
        step matches SnapshotStep::Cached(kept) ==> *kept == snapshot,
        later matches SnapshotStep::Read { revision, preferred } && revision == final(changed).revision && opt_text(preferred) == (match snapshot.adapter {
            Some(adapter) => Some(adapter.path@),
            None => None,
        }),
{
}

/// A snapshot is kept only where nothing changed while it was read; the second time it is used
/// though something did.
pub proof fn changed_reads_are_repeated_once(
    backend: &BluetoothBackend,
    revision: u64,
    first: ReadStep,
    second: ReadStep,
)
    requires
        call_ensures(BluetoothBackend::judge_read, (backend, revision, false), first),
        call_ensures(BluetoothBackend::judge_read, (backend, revision, true), second),
    ensures
        (first is Store) == (revision == backend.revision),
        (second is Store) == (revision == backend.revision),
        (first is Again) == (revision != backend.revision),
        (second is UseOnce) == (revision != backend.revision),
{
}

/// Actions run one at a time, each makes the cached snapshot stale, and it succeeds exactly where
/// BlueZ said so; the message on a failure tells what was tried and ends in that of BlueZ.
pub proof fn power_replies_are_told(
    begun: &mut BluetoothBackend,
    started: Result<(), String>,
    second: &mut BluetoothBackend,
    refused: Result<(), String>,
    ended: &mut BluetoothBackend,
    powered: bool,
    reply: Result<(), DbusCallError>,
    r: Result<(), String>,
)
    requires
        !old(begun).writing.held,
        call_ensures(BluetoothBackend::begin_action, (begun,), started),
        *old(second) == *final(begun),
        call_ensures(BluetoothBackend::begin_action, (second,), refused),
        *old(ended) == *final(second),
        call_ensures(BluetoothBackend::set_powered, (ended, powered, reply), r),
    ensures
        started is Ok && refused is Err,
        !final(ended).writing.held,
        final(begun).revision != old(begun).revision,
        (r is Ok) == (reply is Ok),
        reply matches Err(error) ==> (r matches Err(message) && ends_with(message@, error.message@)
            && begins_with(
            message@,
            if powered {
                "failed to enable"@
            } else {
                "failed to disable"@
            },
        )),
{
    if reply is Err {
        let verb = if powered {
            "enable"@
        } else {
            "disable"@
        };
        let error = reply->Err_0.message@;
        reveal_strlit("failed to ");
        reveal_strlit("enable");
        reveal_strlit("disable");
        reveal_strlit("failed to enable");
        reveal_strlit("failed to disable");
        let head = "failed to "@ + verb;
        assert(powered ==> head =~= "failed to enable"@);
        assert(!powered ==> head =~= "failed to disable"@);
        parts_show(head, " Bluetooth: "@ + error, Seq::empty());
        parts_show(head + " Bluetooth: "@, error, Seq::empty());
        assert(head + " Bluetooth: "@ + error =~= head + (" Bluetooth: "@ + error));
    }
}

/// Some errors say that what was asked for is so already: these are no failures. Every other one is,
/// and its message is told.
pub proof fn needless_requests_are_no_failure(
    a: &mut BluetoothBackend,
    b: &mut BluetoothBackend,
    c: &mut BluetoothBackend,
    d: &mut BluetoothBackend,
    reply: Result<(), DbusCallError>,
    started: Result<(), String>,
    stopped: Result<(), String>,
    cancelled: Result<(), String>,
    removed: Result<(), String>,
)
    requires
        call_ensures(BluetoothBackend::start_discovery, (a, reply), started),
        call_ensures(BluetoothBackend::stop_discovery, (b, reply), stopped),
        call_ensures(BluetoothBackend::cancel_pairing, (c, reply), cancelled),
        call_ensures(BluetoothBackend::remove_device, (d, reply), removed),
    ensures
        ({
            let name = if reply is Err {
                opt_text(reply->Err_0.remote_name)
            } else {
                None
            };
            &&& (started is Ok) == (reply is Ok || name == Some("org.bluez.Error.InProgress"@))
            &&& (stopped is Ok) == (reply is Ok || name == Some("org.bluez.Error.NotReady"@))
            &&& (cancelled is Ok) == (reply is Ok || name == Some("org.bluez.Error.DoesNotExist"@))
            &&& (removed is Ok) == (reply is Ok)
        }),
        started matches Err(message) ==> ends_with(message@, reply->Err_0.message@),
        stopped matches Err(message) ==> ends_with(message@, reply->Err_0.message@),
        cancelled matches Err(message) ==> ends_with(message@, reply->Err_0.message@),
        removed matches Err(message) ==> ends_with(message@, reply->Err_0.message@),
        !final(a).writing.held && !final(b).writing.held && !final(d).writing.held,
        final(c).writing == old(c).writing,
        final(a).revision != old(a).revision && final(b).revision != old(b).revision && final(c).revision != old(c).revision && final(d).revision != old(d).revision,
{
    if reply is Err {
        let error = reply->Err_0.message@;
        parts_show("failed to start Bluetooth scan: "@, error, Seq::empty());
        parts_show("failed to stop Bluetooth scan: "@, error, Seq::empty());
        parts_show("failed to cancel Bluetooth pairing: "@, error, Seq::empty());
        parts_show("failed to remove Bluetooth device: "@, error, Seq::empty());
    }
}

/// A change of what a snapshot tells matters: the power and the search of an adapter, the
/// connection, the pairing, the trust and the name of a device, and the level of a battery. Other
/// interfaces and other signals do not.
pub proof fn changes_of_what_is_shown_matter(
    interface: &str,
    signal: &str,
    parameters: SignalParameters,
    object: String,
    changed: Vec<String>,
    invalidated: Vec<String>,
    k: int,
    r: bool,
)
    requires
        parameters == (SignalParameters::Properties { interface: object, changed, invalidated }),
        call_ensures(bluez_signal_affects_snapshot, (interface, signal, &parameters), r),
        0 <= k < changed@.len(),
    ensures
        interface@ == "org.freedesktop.DBus.Properties"@ && signal@ == "PropertiesChanged"@ ==> {
            let name = changed@[k]@;
            &&& object@ == "org.bluez.Adapter1"@ && (name == "Powered"@ || name == "Discovering"@
                || name == "Alias"@) ==> r
            &&& object@ == "org.bluez.Device1"@ && (name == "Connected"@ || name == "Paired"@ || name
                == "Trusted"@ || name == "Alias"@ || name == "Name"@ || name == "Icon"@ || name
                == "Adapter"@ || name == "Address"@) ==> r
            &&& object@ == "org.bluez.Battery1"@ && name == "Percentage"@ ==> r
            &&& object@ != "org.bluez.Adapter1"@ && object@ != "org.bluez.Device1"@ && object@
                != "org.bluez.Battery1"@ ==> !r
        },
        interface@ != "org.freedesktop.DBus.Properties"@ && interface@
            != "org.freedesktop.DBus.ObjectManager"@ ==> !r,
        signal@ != "PropertiesChanged"@ && signal@ != "InterfacesAdded"@ && signal@
            != "InterfacesRemoved"@ ==> !r,
{
    reveal_strlit("org.bluez.Adapter1");
    reveal_strlit("org.bluez.Device1");
    reveal_strlit("org.bluez.Battery1");
    reveal_strlit("org.freedesktop.DBus.Properties");
    reveal_strlit("org.freedesktop.DBus.ObjectManager");
    assert("org.bluez.Adapter1"@.len() == 18 && "org.bluez.Device1"@.len() == 17
        && "org.bluez.Battery1"@.len() == 18 && "org.bluez.Adapter1"@[10] == 'A'
        && "org.bluez.Battery1"@[10] == 'B');
    assert("org.freedesktop.DBus.Properties"@.len() == 31
        && "org.freedesktop.DBus.ObjectManager"@.len() == 34);
    assert(r == affects_snapshot(interface@, signal@, parameters));
    assert(DBUS_PROPERTIES_INTERFACE@ != BLUEZ_OBJECT_MANAGER_INTERFACE@);
    assert(tracks_property(object@, changed@[k]@) && interface@ == "org.freedesktop.DBus.Properties"@
        && signal@ == "PropertiesChanged"@ ==> r);
}

/// An object that comes or goes matters exactly where it is an adapter, a device or a battery.
pub proof fn objects_that_come_or_go_matter(
    interface: &str,
    signal: &str,
    parameters: SignalParameters,
    names: Vec<String>,
    r: bool,
)
    requires
        interface@ == "org.freedesktop.DBus.ObjectManager"@,
        signal@ == "InterfacesAdded"@ || signal@ == "InterfacesRemoved"@,
        parameters == SignalParameters::Interfaces(names),
        call_ensures(bluez_signal_affects_snapshot, (interface, signal, &parameters), r),
    ensures
        r == (texts(names@).contains("org.bluez.Adapter1"@) || texts(names@).contains(
            "org.bluez.Device1"@,
        ) || texts(names@).contains("org.bluez.Battery1"@)),
{
    let list = texts(names@);
    assert(r == affects_snapshot(interface@, signal@, parameters));
    assert("org.freedesktop.DBus.ObjectManager"@ == BLUEZ_OBJECT_MANAGER_INTERFACE@);
    assert(list.len() == names@.len());
    assert forall|i: int| 0 <= i < names@.len() implies #[trigger] list[i] == names@[i]@ by {}
    if list.contains("org.bluez.Adapter1"@) {
        let i = choose|i: int| 0 <= i < list.len() && list[i] == "org.bluez.Adapter1"@;
        assert(tracks_interface(names@[i]@));
    }
    if list.contains("org.bluez.Device1"@) {
        let i = choose|i: int| 0 <= i < list.len() && list[i] == "org.bluez.Device1"@;
        assert(tracks_interface(names@[i]@));
    }
    if list.contains("org.bluez.Battery1"@) {
        let i = choose|i: int| 0 <= i < list.len() && list[i] == "org.bluez.Battery1"@;
        assert(tracks_interface(names@[i]@));
    }
    if r {
        let i = choose|i: int| 0 <= i < names@.len() && tracks_interface((#[trigger] names@[i])@);
        assert(list[i] == names@[i]@);
    }
}

/// A plan that fails tells at which step it did, and names the device.
pub proof fn failed_steps_are_told(
    plan: &ConnectPlan,
    step: ConnectStep,
    error: DbusCallError,
    message: String,
)
    requires
        call_ensures(
            ConnectPlan::advance,
            (plan, step, Err::<(), DbusCallError>(error)),
            ConnectStep::Failed(message),
        ),
        !(step is Failed),
    ensures
        ends_with(message@, error.message@),
        step is Disconnect ==> begins_with(message@, "failed to disconnect "@) && has_text(
            message@,
            plan.device_name@,
        ),
        step is Pair ==> begins_with(message@, "failed to pair "@) && has_text(
            message@,
            plan.device_name@,
        ),
        step is Trust ==> begins_with(message@, "failed to trust "@) && has_text(
            message@,
            plan.device_name@,
        ),
        step is Connect ==> begins_with(message@, "failed to connect "@) && has_text(
            message@,
            plan.device_name@,
        ),
        step is RegisterAgent ==> begins_with(message@, "failed to register Bluetooth agent"@),
{
    let e = error.message@;
    let next = ConnectStep::Failed(message);
    assert(next@ == plan.next(step@, Err::<(), DbusCallError>(error)));
    if step is RegisterAgent {
        reveal_strlit("failed to register Bluetooth agent: ");
        reveal_strlit("failed to register Bluetooth agent");
        parts_show("failed to register Bluetooth agent: "@, e, Seq::empty());
        assert(message@.subrange(0, 34) =~= "failed to register Bluetooth agent"@);
    } else {
        let start = match step {
            ConnectStep::Disconnect => "failed to disconnect "@,
            ConnectStep::Pair => "failed to pair "@,
            ConnectStep::Trust => "failed to trust "@,
            _ => "failed to connect "@,
        };
        words_of_a_failure(start, plan.device_name@, e);
    }
}

proof fn words_of_a_failure(start: Seq<char>, name: Seq<char>, error: Seq<char>)
    ensures
        begins_with(start + name + ": "@ + error, start),
        has_text(start + name + ": "@ + error, name),
        ends_with(start + name + ": "@ + error, error),
{
    parts_show(start, name, ": "@ + error);
    parts_show(start + name, ": "@, error);
    assert(start + name + ": "@ + error =~= start + name + (": "@ + error));
}

/// An answer that has not the form of an object tree is told as such.
pub proof fn malformed_answers_are_told(
    reply: ObjectsReply,
    preferred: Option<&str>,
    r: Result<BluetoothSnapshot, String>,
    backend: &mut BluetoothBackend,
    refused: Result<(), String>,
)
    requires
        call_ensures(read_snapshot, (&reply, preferred), r),
        old(backend).writing.held,
        call_ensures(BluetoothBackend::begin_action, (backend,), refused),
    ensures
        reply is Malformed ==> (r matches Err(message) && message@
            == "BlueZ returned an invalid object tree"@),
        reply is Objects ==> r is Ok,
        refused matches Err(message) && message@
            == "another Bluetooth action is already in progress"@,
{
}

/// How BlueZ is reached, and how long it is waited for.
pub proof fn bluez_is_reached_by_these_names()
    ensures
        BLUEZ_SERVICE@ == "org.bluez"@,
        AGENT_PATH@ == "/dev/obsidian_bar/BluetoothAgent"@,
        BLUEZ_ADAPTER_INTERFACE@ == "org.bluez.Adapter1"@,
        BLUEZ_DEVICE_INTERFACE@ == "org.bluez.Device1"@,
        DBUS_TIMEOUT_MS == 8_000,
        PAIR_TIMEOUT_MS == 120_000,
        CONNECT_RETRY_DELAY_MS == 700,
        CONNECT_ATTEMPTS == 3,
{
}

/// A plan begins with what is missing: a device that is not paired is paired first, one that is not
/// trusted is trusted next; and what came of it is what is told.
pub proof fn plans_begin_with_what_is_missing(
    plan: &ConnectPlan,
    first: ConnectStep,
    backend: &mut BluetoothBackend,
    outcome: Result<(), String>,
    told: Result<(), String>,
)
    requires
        call_ensures(ConnectPlan::start, (plan,), first),
        call_ensures(BluetoothBackend::set_connected, (backend, outcome), told),
    ensures
        (first is Disconnect) == !plan.connect,
        (first is RegisterAgent) == (plan.connect && !plan.paired),
        (first is Trust) == (plan.connect && plan.paired && !plan.trusted),
        (first == ConnectStep::Connect(0)) == (plan.connect && plan.paired && plan.trusted),
        told == outcome,
        !final(backend).writing.held,
        final(backend).revision != old(backend).revision,
{
    assert(ConnectStep::Connect(0)@ == StepModel::Connect(0));
}

/// Of the adapters a powered one is chosen wherever there is one, else the preferred one.
pub proof fn powered_adapters_are_chosen(
    adapters: Vec<BluetoothAdapter>,
    preferred: Option<&str>,
    r: Option<BluetoothAdapter>,
    i: int,
)
    requires
        call_ensures(select_adapter, (adapters, preferred), r),
        0 <= i < adapters@.len(),
    ensures
        r is Some,
        adapters@.contains(r->0),
        adapters@[i].powered ==> r->0.powered,
        opt_str(preferred) == Some(adapters@[i].path@) && (adapters@[i].powered || !r->0.powered)
            ==> r->0.path@ == adapters@[i].path@,
{
    let n = choose|n: int|
        #[trigger] best_adapter(adapters@, opt_str(preferred), n) && r->0 == adapters@[n];
    assert(adapter_le(adapters@[n], adapters@[i], opt_str(preferred)));
    assert(adapters@[n] == r->0);
}

/// What a snapshot says of itself is what its adapter and its devices say.
pub proof fn snapshots_say_what_they_hold(
    snapshot: &BluetoothSnapshot,
    available: bool,
    powered: bool,
    discovering: bool,
    connected: bool,
    device: &BluetoothDevice,
    known: bool,
)
    requires
        call_ensures(BluetoothSnapshot::available, (snapshot,), available),
        call_ensures(BluetoothSnapshot::powered, (snapshot,), powered),
        call_ensures(BluetoothSnapshot::discovering, (snapshot,), discovering),
        call_ensures(BluetoothSnapshot::connected, (snapshot,), connected),
        call_ensures(BluetoothDevice::known, (device,), known),
    ensures
        available == (snapshot.adapter is Some),
        powered == (snapshot.adapter is Some && snapshot.adapter->0.powered),
        discovering == (snapshot.adapter is Some && snapshot.adapter->0.discovering),
        connected == exists|i: int|
            0 <= i < snapshot.devices@.len() && (#[trigger] snapshot.devices@[i]).connected,
        known == (device.paired || device.trusted || device.connected),
{
}

} // verus!
