//! The tray: which status items are there, their icons and their menus.
use crate::pending::{following_request, later_request, request_for, PendingRequests};
use crate::text::{
    blank_texts_trim_to_nothing, chars_of, concat2, find_char, is_blank, is_space, list_has, opt_is,
    opt_str, opt_text, same, string_of, texts, trim, trimmed, trimmed_has_no_outer_space,
    trimmed_is_idempotent,
};
use vstd::prelude::*;

verus! {

/// The object of the watcher.
pub const WATCHER_PATH: &'static str = "/StatusNotifierWatcher";

/// The interface of a status item.
pub const ITEM_INTERFACE: &'static str = "org.kde.StatusNotifierItem";

/// The watcher's interface as D-Bus describes interfaces.
pub const WATCHER_XML: &'static str = r#"
<node>
  <interface name="org.kde.StatusNotifierWatcher">
    <method name="RegisterStatusNotifierItem">
      <arg type="s" name="service" direction="in"/>
    </method>
    <method name="RegisterStatusNotifierHost">
      <arg type="s" name="service" direction="in"/>
    </method>
    <property name="RegisteredStatusNotifierItems" type="as" access="read"/>
    <property name="IsStatusNotifierHostRegistered" type="b" access="read"/>
    <property name="ProtocolVersion" type="i" access="read"/>
    <signal name="StatusNotifierItemRegistered">
      <arg type="s" name="service"/>
    </signal>
    <signal name="StatusNotifierItemUnregistered">
      <arg type="s" name="service"/>
    </signal>
    <signal name="StatusNotifierHostRegistered"/>
  </interface>
</node>
"#;

pub const WATCHER_SERVICE: &'static str = "org.kde.StatusNotifierWatcher";

pub const ITEM_DEFAULT_PATH: &'static str = "/StatusNotifierItem";

pub const INVALID_ARGS: &'static str = "org.freedesktop.DBus.Error.InvalidArgs";

pub const UNKNOWN_METHOD: &'static str = "org.freedesktop.DBus.Error.UnknownMethod";

/// The edge of an icon, in pixels.
pub const ICON_SIZE: i32 = 18;

/// How deep directories are searched for an icon.
pub const ICON_SCAN_MAX_DEPTH: usize = 3;

/// How many entries are looked at in the search for an icon.
pub const ICON_SCAN_MAX_ENTRIES: usize = 512;

/// How long it is remembered that an icon was not found, in milliseconds.
pub const ICON_NEGATIVE_CACHE_TTL_MS: u64 = 30_000;

/// How deep a menu is read.
pub const MENU_MAX_DEPTH: usize = 8;

/// How many entries of a menu are read.
pub const MENU_MAX_NODES: usize = 256;

/// How many entries are read under one entry of a menu.
pub const MENU_MAX_CHILDREN: usize = 64;

/// The position, from `i` on, of the first slash.
pub open spec fn slash_from(s: Seq<char>, i: int) -> Option<int>
    decreases s.len() - i,
{
    if i < 0 || i >= s.len() {
        None
    } else if s[i] == '/' {
        Some(i)
    } else {
        slash_from(s, i + 1)
    }
}

proof fn slash_is_first(s: Seq<char>, i: int, k: int)
    requires
        0 <= i <= k < s.len(),
        s[k] == '/',
        forall|j: int| i <= j < k ==> s[j] != '/',
    ensures
        slash_from(s, i) == Some(k),
    decreases k - i,
{
    if i < k {
        slash_is_first(s, i + 1, k);
    }
}

proof fn no_slash(s: Seq<char>, i: int)
    requires
        0 <= i <= s.len(),
        !s.contains('/'),
    ensures
        slash_from(s, i) is None,
    decreases s.len() - i,
{
    if i < s.len() {
        assert(s.contains(s[i]));
        no_slash(s, i + 1);
    }
}

/// The service and the object path of an item's name, where it has both.
pub open spec fn item_parts(item: Seq<char>) -> Option<(Seq<char>, Seq<char>)> {
    match slash_from(item, 0) {
        Some(i) => if i == 0 {
            None
        } else {
            Some((item.take(i), item.skip(i)))
        },
        None => None,
    }
}

pub fn split_item_id(item: &str) -> (r: Option<(String, String)>)
    ensures
        match r {
            Some((service, path)) => item_parts(item@) == Some((service@, path@)) && service@.len()
                > 0 && path@.len() > 0 && service@ + path@ == item@,
            None => item_parts(item@) is None,
        },
{
    let chars = chars_of(item);
    match find_char(&chars, '/') {
        Some(i) => {
            proof {
                slash_is_first(item@, 0, i as int);
            }
            if i == 0 {
                None
            } else {
                let service = string_of(&chars, 0, i);
                let path = string_of(&chars, i, chars.len());
                assert(service@ =~= item@.take(i as int));
                assert(path@ =~= item@.skip(i as int));
                assert(service@ + path@ =~= item@);
                Some((service, path))
            }
        },
        None => {
            proof {
                no_slash(item@, 0);
            }
            None
        },
    }
}

/// The full name of an item: its service and its object path.
pub open spec fn canonical_id(raw: Seq<char>, sender: Option<Seq<char>>) -> Option<Seq<char>> {
    let raw = trimmed(raw);
    if raw.len() == 0 {
        None
    } else {
        match slash_from(raw, 0) {
            Some(i) => if i == 0 {
                match sender {
                    Some(sender) => Some(sender + raw),
                    None => None,
                }
            } else {
                Some(raw)
            },
            None => Some(raw + ITEM_DEFAULT_PATH@),
        }
    }
}

/// The full name of the item that `raw` means, said by `sender`.
pub fn normalize_item_id(raw: &str, sender: Option<&str>) -> (r: Option<String>)
    ensures
        opt_text(r) == canonical_id(raw@, opt_str(sender)),
{
    let raw = trim(raw);
    if raw.as_str().is_empty() {
        return None;
    }
    let chars = chars_of(&raw);
    match find_char(&chars, '/') {
        Some(i) => {
            proof {
                slash_is_first(raw@, 0, i as int);
            }
            if i == 0 {
                match sender {
                    Some(sender) => Some(concat2(sender, &raw)),
                    None => None,
                }
            } else {
                Some(raw)
            }
        },
        None => {
            proof {
                no_slash(raw@, 0);
            }
            Some(concat2(&raw, ITEM_DEFAULT_PATH))
        },
    }
}

/// A full name without white space around it is its own full name.
pub proof fn canonical_ids_are_stable(id: Seq<char>, sender: Option<Seq<char>>)
    requires
        item_parts(id) is Some,
        trimmed(id) == id,
    ensures
        canonical_id(id, sender) == Some(id),
{
}

/// The items that the watcher announces.
pub struct WatcherMirror {
    pub items: Vec<String>,
    pub host_registered: bool,
}

/// Whether no item is listed twice.
pub open spec fn no_twins(items: Seq<String>) -> bool {
    texts(items).no_duplicates()
}

/// The items whose service is not `service`, in order.
pub open spec fn items_not_of(items: Seq<Seq<char>>, service: Seq<char>) -> Seq<Seq<char>>
    decreases items.len(),
{
    if items.len() == 0 {
        Seq::empty()
    } else {
        let before = items_not_of(items.drop_last(), service);
        if is_item_of(items.last(), service) {
            before
        } else {
            before.push(items.last())
        }
    }
}

/// The items whose service is `service`, in order.
pub open spec fn items_of_service(items: Seq<Seq<char>>, service: Seq<char>) -> Seq<Seq<char>>
    decreases items.len(),
{
    if items.len() == 0 {
        Seq::empty()
    } else {
        let before = items_of_service(items.drop_last(), service);
        if is_item_of(items.last(), service) {
            before.push(items.last())
        } else {
            before
        }
    }
}

pub open spec fn is_item_of(item: Seq<char>, service: Seq<char>) -> bool {
    item_parts(item) matches Some((own, _)) && own == service
}

fn item_is_of(item: &str, service: &str) -> (r: bool)
    ensures
        r == is_item_of(item@, service@),
{
    match split_item_id(item) {
        Some((own, _)) => same(&own, service),
        None => false,
    }
}

/// The texts other than `item`, in order.
pub open spec fn without(items: Seq<Seq<char>>, item: Seq<char>) -> Seq<Seq<char>>
    decreases items.len(),
{
    if items.len() == 0 {
        Seq::empty()
    } else {
        let before = without(items.drop_last(), item);
        if items.last() == item {
            before
        } else {
            before.push(items.last())
        }
    }
}

proof fn without_members(items: Seq<Seq<char>>, item: Seq<char>)
    ensures
        forall|t: Seq<char>| #[trigger]
            without(items, item).contains(t) == (items.contains(t) && t != item),
        items.no_duplicates() ==> without(items, item).no_duplicates(),
        !items.contains(item) ==> without(items, item) == items,
        items.contains(item) ==> without(items, item).len() < items.len(),
        without(items, item).len() <= items.len(),
    decreases items.len(),
{
    if items.len() > 0 {
        let front = items.drop_last();
        without_members(front, item);
        let before = without(front, item);
        assert forall|t: Seq<char>| #[trigger]
            without(items, item).contains(t) == (items.contains(t) && t != item) by {
            assert(items.contains(t) == (front.contains(t) || t == items.last())) by {
                if items.contains(t) && t != items.last() {
                    let i = choose|i: int| 0 <= i < items.len() && items[i] == t;
                    assert(front[i] == t);
                }
                if front.contains(t) {
                    let i = choose|i: int| 0 <= i < front.len() && front[i] == t;
                    assert(items[i] == t);
                }
                assert(items[items.len() - 1] == items.last());
            }
            assert(before.contains(t) == (front.contains(t) && t != item));
            if items.last() != item {
                push_members(before, items.last(), t);
            }
        }
        if items.no_duplicates() {
            assert(front.no_duplicates()) by {
                assert forall|i: int, j: int|
                    0 <= i < front.len() && 0 <= j < front.len() && i != j implies front[i]
                    != front[j] by {
                    assert(items[i] != items[j]);
                }
            }
            if items.last() != item {
                assert(!front.contains(items.last())) by {
                    if front.contains(items.last()) {
                        let i = choose|i: int| 0 <= i < front.len() && front[i] == items.last();
                        assert(items[i] == items[items.len() - 1]);
                    }
                }
                assert(!before.contains(items.last()));
                push_keeps_distinct(before, items.last());
            }
        }
        if !items.contains(item) {
            assert(items[items.len() - 1] != item) by {
                assert(items.contains(items[items.len() - 1]));
            }
            assert(!front.contains(item)) by {
                if front.contains(item) {
                    let i = choose|i: int| 0 <= i < front.len() && front[i] == item;
                    assert(items[i] == item);
                }
            }
            assert(without(items, item) =~= items);
        } else if items.last() != item {
            let i = choose|i: int| 0 <= i < items.len() && items[i] == item;
            assert(front[i] == item);
        }
    } else {
        assert(without(items, item) =~= items);
    }
}

/// The texts of a list that are not known, each once, in the order of the list.
pub open spec fn newcomers(list: Seq<Seq<char>>, known: spec_fn(Seq<char>) -> bool) -> Seq<Seq<char>>
    decreases list.len(),
{
    if list.len() == 0 {
        Seq::empty()
    } else {
        let before = newcomers(list.drop_last(), known);
        if known(list.last()) || before.contains(list.last()) {
            before
        } else {
            before.push(list.last())
        }
    }
}

proof fn newcomers_members(list: Seq<Seq<char>>, known: spec_fn(Seq<char>) -> bool)
    ensures
        forall|t: Seq<char>| #[trigger]
            newcomers(list, known).contains(t) == (list.contains(t) && !known(t)),
    decreases list.len(),
{
    if list.len() > 0 {
        let front = list.drop_last();
        newcomers_members(front, known);
        let before = newcomers(front, known);
        assert forall|t: Seq<char>| #[trigger]
            newcomers(list, known).contains(t) == (list.contains(t) && !known(t)) by {
            assert(front.push(list.last()) =~= list);
            push_members(front, list.last(), t);
            push_members(before, list.last(), t);
            assert(before.contains(t) == (front.contains(t) && !known(t)));
        }
    }
}

proof fn push_members(list: Seq<Seq<char>>, x: Seq<char>, t: Seq<char>)
    ensures
        list.push(x).contains(t) == (list.contains(t) || t == x),
{
    if list.contains(t) {
        let i = choose|i: int| 0 <= i < list.len() && list[i] == t;
        assert(list.push(x)[i] == t);
    }
    assert(list.push(x)[list.len() as int] == x);
    if list.push(x).contains(t) && t != x {
        let i = choose|i: int| 0 <= i < list.push(x).len() && list.push(x)[i] == t;
        assert(list[i] == t);
    }
}

proof fn sum_members(a: Seq<Seq<char>>, b: Seq<Seq<char>>, t: Seq<char>)
    ensures
        (a + b).contains(t) == (a.contains(t) || b.contains(t)),
{
    if a.contains(t) {
        let i = choose|i: int| 0 <= i < a.len() && a[i] == t;
        assert((a + b)[i] == t);
    }
    if b.contains(t) {
        let i = choose|i: int| 0 <= i < b.len() && b[i] == t;
        assert((a + b)[a.len() + i] == t);
    }
}

proof fn push_keeps_distinct(list: Seq<Seq<char>>, x: Seq<char>)
    requires
        list.no_duplicates(),
        !list.contains(x),
    ensures
        list.push(x).no_duplicates(),
{
    let grown = list.push(x);
    assert forall|i: int, j: int|
        0 <= i < grown.len() && 0 <= j < grown.len() && i != j implies grown[i] != grown[j] by {
        if i < list.len() && j < list.len() {
            assert(list[i] != list[j]);
        } else if i < list.len() {
            assert(list.contains(list[i]));
        } else {
            assert(list.contains(list[j]));
        }
    }
}

proof fn items_not_of_members(items: Seq<Seq<char>>, service: Seq<char>)
    ensures
        forall|t: Seq<char>| #[trigger]
            items_not_of(items, service).contains(t) == (items.contains(t) && !is_item_of(
                t,
                service,
            )),
        items.no_duplicates() ==> items_not_of(items, service).no_duplicates(),
    decreases items.len(),
{
    if items.len() > 0 {
        let front = items.drop_last();
        items_not_of_members(front, service);
        let before = items_not_of(front, service);
        assert forall|t: Seq<char>| #[trigger]
            items_not_of(items, service).contains(t) == (items.contains(t) && !is_item_of(
                t,
                service,
            )) by {
            assert(front.push(items.last()) =~= items);
            push_members(front, items.last(), t);
            assert(before.contains(t) == (front.contains(t) && !is_item_of(t, service)));
            if !is_item_of(items.last(), service) {
                push_members(before, items.last(), t);
            }
        }
        if items.no_duplicates() {
            assert forall|i: int, j: int|
                0 <= i < front.len() && 0 <= j < front.len() && i != j implies front[i]
                != front[j] by {
                assert(items[i] != items[j]);
            }
            assert(front.no_duplicates());
            if !is_item_of(items.last(), service) {
                assert(!front.contains(items.last())) by {
                    if front.contains(items.last()) {
                        let i = choose|i: int| 0 <= i < front.len() && front[i] == items.last();
                        assert(items[i] == items[items.len() - 1]);
                    }
                }
                assert(!before.contains(items.last()));
                push_keeps_distinct(before, items.last());
            }
        }
    }
}

fn list_without(items: &Vec<String>, item: &str) -> (r: Vec<String>)
    ensures
        texts(r@) == without(texts(items@), item@),
{
    let ghost all = texts(items@);
    let mut out: Vec<String> = Vec::new();
    let mut i: usize = 0;
    assert(all.take(0) =~= Seq::<Seq<char>>::empty());
    while i < items.len()
        invariant
            all == texts(items@),
            i <= items@.len(),
            texts(out@) =~= without(all.take(i as int), item@),
        decreases items@.len() - i,
    {
        assert(all.take(i as int + 1).drop_last() =~= all.take(i as int));
        assert(all.take(i as int + 1).last() == items@[i as int]@);
        if !same(&items[i], item) {
            out.push(items[i].clone());
        }
        i = i + 1;
    }
    assert(all.take(all.len() as int) =~= all);
    out
}

impl WatcherMirror {
    pub open spec fn wf(&self) -> bool {
        no_twins(self.items@)
    }

    pub fn new() -> (r: Self)
        ensures
            r.wf(),
            r.items@.len() == 0,
            !r.host_registered,
    {
        WatcherMirror { items: Vec::new(), host_registered: false }
    }

    /// Adds an item; the answer says whether it is new.
    pub fn insert(&mut self, item: String) -> (r: bool)
        requires
            old(self).wf(),
        ensures
            final(self).wf(),
            final(self).host_registered == old(self).host_registered,
            r == !texts(old(self).items@).contains(item@),
            texts(final(self).items@) == (if r {
                texts(old(self).items@).push(item@)
            } else {
                texts(old(self).items@)
            }),
    {
        if list_has(&self.items, &item) {
            return false;
        }
        let ghost before = texts(self.items@);
        let ghost text = item@;
        self.items.push(item);
        proof {
            assert(texts(self.items@) =~= before.push(text));
            push_keeps_distinct(before, text);
        }
        true
    }

    /// Takes out the items of a service and returns them.
    pub fn remove_service(&mut self, service: &str) -> (r: Vec<String>)
        requires
            old(self).wf(),
        ensures
            final(self).wf(),
            final(self).host_registered == old(self).host_registered,
            texts(final(self).items@) == items_not_of(texts(old(self).items@), service@),
            texts(r@) == items_of_service(texts(old(self).items@), service@),
    {
        let ghost all = texts(self.items@);
        let mut kept: Vec<String> = Vec::new();
        let mut removed: Vec<String> = Vec::new();
        let mut i: usize = 0;
        assert(all.take(0) =~= Seq::<Seq<char>>::empty());
        while i < self.items.len()
            invariant
                all == texts(self.items@),
                self.host_registered == old(self).host_registered,
                i <= self.items@.len(),
                texts(kept@) =~= items_not_of(all.take(i as int), service@),
                texts(removed@) =~= items_of_service(all.take(i as int), service@),
            decreases self.items@.len() - i,
        {
            assert(all.take(i as int + 1).drop_last() =~= all.take(i as int));
            assert(all.take(i as int + 1).last() == self.items@[i as int]@);
            if item_is_of(&self.items[i], service) {
                removed.push(self.items[i].clone());
            } else {
                kept.push(self.items[i].clone());
            }
            i = i + 1;
        }
        assert(all.take(all.len() as int) =~= all);
        proof {
            items_not_of_members(all, service@);
        }
        self.items = kept;
        removed
    }

    /// Takes out an item; the answer says whether it was there.
    pub fn remove_item(&mut self, item: &str) -> (r: bool)
        requires
            old(self).wf(),
        ensures
            final(self).wf(),
            final(self).host_registered == old(self).host_registered,
            texts(final(self).items@) == without(texts(old(self).items@), item@),
            r == texts(old(self).items@).contains(item@),
    {
        let before: usize = self.items.len();
        let kept = list_without(&self.items, item);
        proof {
            without_members(texts(self.items@), item@);
            assert(texts(kept@).len() == kept@.len());
            assert(texts(self.items@).len() == self.items@.len());
        }
        self.items = kept;
        before != self.items.len()
    }
}

/// A status item whose proxy is there.
#[derive(Clone, Debug, PartialEq, Eq)]
pub struct TrayItem {
    pub id: String,
    pub service: String,
}

pub open spec fn item_ids(items: Seq<TrayItem>) -> Seq<Seq<char>> {
    items.map_values(|item: TrayItem| item.id@)
}

/// Whether an item has another name.
pub open spec fn not_named(id: Seq<char>) -> spec_fn(TrayItem) -> bool {
    |item: TrayItem| item.id@ != id
}

/// The items but for the one with the name.
pub open spec fn other_items(items: Seq<TrayItem>, id: Seq<char>) -> Seq<TrayItem> {
    items.filter(not_named(id))
}

proof fn other_items_push(items: Seq<TrayItem>, item: TrayItem, id: Seq<char>)
    ensures
        other_items(items.push(item), id) == (if item.id@ != id {
            other_items(items, id).push(item)
        } else {
            other_items(items, id)
        }),
{
    items.lemma_filter_push(item, not_named(id));
}

/// Whether a text is in the list.
pub open spec fn member_of(list: Seq<Seq<char>>) -> spec_fn(Seq<char>) -> bool {
    |text: Seq<char>| list.contains(text)
}

/// A status item to connect to.
#[derive(Clone, Debug, PartialEq, Eq)]
pub struct ItemRequest {
    pub request_id: u64,
    pub canonical: String,
    pub service: String,
    pub path: String,
}

/// What became of a connection to a status item.
#[derive(Clone, Copy, Debug, PartialEq, Eq, Structural)]
pub enum ItemOutcome {
    /// It was not asked for, or no longer.
    Stale,
    Failed,
    /// The item is there already.
    Duplicate,
    Added,
}

/// What to do about the watcher's name.
#[derive(Clone, Copy, Debug, PartialEq, Eq, Structural)]
pub enum WatcherStep {
    Nothing,
    /// Ask for the name.
    RequestName,
    /// Use the watcher of another program.
    AttachExternal,
}

/// What a change of an owner on the bus leads to.
pub struct OwnerOutcome {
    /// The items to announce as gone.
    pub gone: Vec<String>,
    pub sync_views: bool,
    /// Whether the watcher of another program is dropped.
    pub drop_external: bool,
    pub step: WatcherStep,
}

/// The state of the tray.
pub struct TrayState {
    pub owns_watcher: bool,
    pub mirror: WatcherMirror,
    pub items: Vec<TrayItem>,
    pub pending: PendingRequests,
}

impl TrayState {
    /// No item is listed twice.
    pub open spec fn wf(&self) -> bool {
        self.mirror.wf() && item_ids(self.items@).no_duplicates()
    }

    pub fn new() -> (r: Self)
        ensures
            r.wf(),
            !r.owns_watcher,
            r.mirror.items@.len() == 0,
            !r.mirror.host_registered,
            r.items@.len() == 0,
            r.pending.last_id == 0,
            forall|name: Seq<char>| #[trigger] r.pending.request(name) is None,
    {
        TrayState {
            owns_watcher: false,
            mirror: WatcherMirror::new(),
            items: Vec::new(),
            pending: PendingRequests::new(),
        }
    }

    fn has_item(&self, id: &str) -> (r: bool)
        ensures
            r == item_ids(self.items@).contains(id@),
    {
        let mut i: usize = 0;
        while i < self.items.len()
            invariant
                i <= self.items@.len(),
                forall|k: int| 0 <= k < i ==> item_ids(self.items@)[k] != id@,
            decreases self.items@.len() - i,
        {
            if same(&self.items[i].id, id) {
                assert(item_ids(self.items@)[i as int] == id@);
                return true;
            }
            i = i + 1;
        }
        false
    }

    /// Whether an item that was announced is to be connected to.
    pub open spec fn wants(&self, item_id: Seq<char>) -> bool {
        canonical_id(item_id, None) matches Some(canonical) && item_parts(canonical) is Some
            && !item_ids(self.items@).contains(canonical) && self.pending.request(
            canonical,
        ) is None
    }

    /// Takes an item that was announced; the answer says what to connect to.
    pub fn insert_item(&mut self, item_id: &str) -> (r: Option<ItemRequest>)
        requires
            old(self).wf(),
        ensures
            final(self).wf(),
            final(self).owns_watcher == old(self).owns_watcher,
            final(self).items@ == old(self).items@,
            final(self).mirror.host_registered == old(self).mirror.host_registered,
            if old(self).wants(item_id@) {
                let canonical = canonical_id(item_id@, None)->0;
                let known = texts(old(self).mirror.items@);
                &&& r matches Some(request) && request.canonical@ == canonical && item_parts(
                    canonical,
                ) == Some((request.service@, request.path@)) && request.request_id
                    == following_request(old(self).pending.last_id)
                &&& final(self).pending.last_id == following_request(old(self).pending.last_id)
                &&& forall|n: Seq<char>|
                    #[trigger] final(self).pending.request(n) == (if n == canonical {
                        Some(following_request(old(self).pending.last_id))
                    } else {
                        old(self).pending.request(n)
                    })
                &&& texts(final(self).mirror.items@) == (if old(self).owns_watcher
                    && !known.contains(canonical) {
                    known.push(canonical)
                } else {
                    known
                })
            } else {
                r is None && *final(self) == *old(self)
            },
    {
        let canonical = match normalize_item_id(item_id, None) {
            Some(canonical) => canonical,
            None => return None,
        };
        let (service, path) = match split_item_id(&canonical) {
            Some(parts) => parts,
            None => return None,
        };
        if self.has_item(&canonical) || self.pending.get(&canonical).is_some() {
            return None;
        }
        let request_id: u64 = self.pending.start(&canonical);
        if self.owns_watcher {
            self.mirror.insert(canonical.clone());
        }
        Some(ItemRequest { request_id, canonical, service, path })
    }

    /// Takes what became of a connection to an item.
    pub fn finish_item_registration(
        &mut self,
        request_id: u64,
        canonical: String,
        service: String,
        connected: bool,
    ) -> (r: ItemOutcome)
        requires
            old(self).wf(),
        ensures
            final(self).wf(),
            final(self).owns_watcher == old(self).owns_watcher,
            final(self).mirror.host_registered == old(self).mirror.host_registered,
            final(self).pending.last_id == old(self).pending.last_id,
            r == (if old(self).pending.request(canonical@) != Some(request_id) {
                ItemOutcome::Stale
            } else if !connected {
                ItemOutcome::Failed
            } else if item_ids(old(self).items@).contains(canonical@) {
                ItemOutcome::Duplicate
            } else {
                ItemOutcome::Added
            }),
            forall|n: Seq<char>|
                #[trigger] final(self).pending.request(n) == (if r != ItemOutcome::Stale && n
                    == canonical@ {
                    None
                } else {
                    old(self).pending.request(n)
                }),
            final(self).items@ == (if r == ItemOutcome::Added {
                old(self).items@.push(TrayItem { id: canonical, service })
            } else {
                old(self).items@
            }),
            texts(final(self).mirror.items@) == (if r == ItemOutcome::Failed {
                without(texts(old(self).mirror.items@), canonical@)
            } else {
                texts(old(self).mirror.items@)
            }),
    {
        if !self.pending.finish(&canonical, request_id) {
            return ItemOutcome::Stale;
        }
        if !connected {
            self.mirror.remove_item(&canonical);
            return ItemOutcome::Failed;
        }
        if self.has_item(&canonical) {
            return ItemOutcome::Duplicate;
        }
        let ghost before = item_ids(self.items@);
        let ghost id = canonical@;
        self.items.push(TrayItem { id: canonical, service });
        proof {
            assert(item_ids(self.items@) =~= before.push(id));
            push_keeps_distinct(before, id);
        }
        ItemOutcome::Added
    }

    /// Drops an item that was announced as gone; the answer says whether it was shown.
    pub fn unregister_item(&mut self, item_id: &str) -> (r: bool)
        requires
            old(self).wf(),
        ensures
            final(self).wf(),
            final(self).owns_watcher == old(self).owns_watcher,
            final(self).mirror.host_registered == old(self).mirror.host_registered,
            match canonical_id(item_id@, None) {
                Some(canonical) => {
                    &&& r == item_ids(old(self).items@).contains(canonical)
                    &&& final(self).items@ == other_items(old(self).items@, canonical)
                    &&& final(self).pending.last_id == old(self).pending.last_id
                    &&& texts(final(self).mirror.items@) == without(
                        texts(old(self).mirror.items@),
                        canonical,
                    )
                    &&& forall|n: Seq<char>|
                        #[trigger] final(self).pending.request(n) == (if n == canonical {
                            None
                        } else {
                            old(self).pending.request(n)
                        })
                },
                None => !r && *final(self) == *old(self),
            },
    {
        let canonical = match normalize_item_id(item_id, None) {
            Some(canonical) => canonical,
            None => return false,
        };
        let before: usize = self.items.len();
        self.pending.remove(&canonical);
        self.retain_items_not(&canonical);
        self.mirror.remove_item(&canonical);
        before != self.items.len()
    }

    fn retain_items_not(&mut self, id: &str)
        requires
            old(self).wf(),
        ensures
            final(self).wf(),
            final(self).owns_watcher == old(self).owns_watcher,
            final(self).mirror == old(self).mirror,
            final(self).pending == old(self).pending,
            final(self).items@ == other_items(old(self).items@, id@),
            (final(self).items@.len() != old(self).items@.len()) == item_ids(
                old(self).items@,
            ).contains(id@),
    {
        let ghost all = self.items@;
        let mut rest: Vec<TrayItem> = Vec::new();
        rest.append(&mut self.items);
        assert(rest@ =~= all);
        let mut kept: Vec<TrayItem> = Vec::new();
        let ghost mut done: int = 0;
        assert(all.take(0) =~= Seq::<TrayItem>::empty());
        assert(item_ids(all).take(0) =~= Seq::<Seq<char>>::empty());
        while rest.len() > 0
            invariant
                0 <= done <= all.len(),
                rest@ =~= all.skip(done),
                kept@ =~= other_items(all.take(done), id@),
                item_ids(kept@) =~= without(item_ids(all).take(done), id@),
            decreases rest@.len(),
        {
            let item = rest.remove(0);
            assert(item == all[done]);
            proof {
                other_items_push(all.take(done), item, id@);
                assert(all.take(done + 1) =~= all.take(done).push(item));
                assert(item_ids(all).take(done + 1).drop_last() =~= item_ids(all).take(done));
                assert(item_ids(all).take(done + 1).last() == item.id@);
                done = done + 1;
            }
            if !same(&item.id, id) {
                kept.push(item);
            }
        }
        proof {
            assert(all.take(all.len() as int) =~= all);
            assert(item_ids(all).take(all.len() as int) =~= item_ids(all));
            without_members(item_ids(all), id@);
            assert(item_ids(kept@).len() == kept@.len());
            assert(item_ids(all).len() == all.len());
        }
        self.items = kept;
    }

    /// Drops the items of a service that left the bus: those shown, those awaited and those
    /// announced. The answer holds the announced ones, and whether any was shown.
    pub fn remove_service(&mut self, service: &str) -> (r: (Vec<String>, bool))
        requires
            old(self).wf(),
        ensures
            final(self).wf(),
            final(self).owns_watcher == old(self).owns_watcher,
            final(self).mirror.host_registered == old(self).mirror.host_registered,
            texts(r.0@) == items_of_service(texts(old(self).mirror.items@), service@),
            texts(final(self).mirror.items@) == items_not_of(
                texts(old(self).mirror.items@),
                service@,
            ),
            final(self).items@ == old(self).items@.filter(
                |item: TrayItem| item.service@ != service@,
            ),
            r.1 == (final(self).items@.len() != old(self).items@.len()),
            final(self).pending.last_id == old(self).pending.last_id,
            forall|n: Seq<char>|
                #[trigger] final(self).pending.request(n) == (if is_item_of(n, service@) {
                    None
                } else {
                    old(self).pending.request(n)
                }),
    {
        let before: usize = self.items.len();
        self.drop_pending_of(service);
        let ghost keep = |item: TrayItem| item.service@ != service@;
        let ghost all = self.items@;
        let mut rest: Vec<TrayItem> = Vec::new();
        rest.append(&mut self.items);
        assert(rest@ =~= all);
        let mut kept: Vec<TrayItem> = Vec::new();
        let ghost mut done: int = 0;
        assert(all.take(0) =~= Seq::<TrayItem>::empty());
        while rest.len() > 0
            invariant
                keep == (|item: TrayItem| item.service@ != service@),
                0 <= done <= all.len(),
                rest@ =~= all.skip(done),
                kept@ =~= all.take(done).filter(keep),
            decreases rest@.len(),
        {
            let item = rest.remove(0);
            assert(item == all[done]);
            proof {
                all.take(done).lemma_filter_push(item, keep);
                assert(all.take(done + 1) =~= all.take(done).push(item));
                done = done + 1;
            }
            if !same(&item.service, service) {
                kept.push(item);
            }
        }
        assert(all.take(all.len() as int) =~= all);
        self.items = kept;
        proof {
            filter_keeps_distinct(all, keep);
        }
        let gone = self.mirror.remove_service(service);
        (gone, before != self.items.len())
    }

    fn drop_pending_of(&mut self, service: &str)
        ensures
            final(self).owns_watcher == old(self).owns_watcher,
            final(self).mirror == old(self).mirror,
            final(self).items == old(self).items,
            final(self).pending.last_id == old(self).pending.last_id,
            forall|n: Seq<char>|
                #[trigger] final(self).pending.request(n) == (if is_item_of(n, service@) {
                    None
                } else {
                    old(self).pending.request(n)
                }),
    {
        let ghost all = self.pending.entries@;
        let mut kept: Vec<(String, u64)> = Vec::new();
        let mut i: usize = 0;
        assert(all.take(0) =~= Seq::<(String, u64)>::empty());
        while i < self.pending.entries.len()
            invariant
                *self == *old(self),
                self.pending.entries@ == all,
                i <= all.len(),
                forall|n: Seq<char>| #[trigger]
                    request_for(kept@, n) == (if is_item_of(n, service@) {
                        None
                    } else {
                        request_for(all.take(i as int), n)
                    }),
            decreases all.len() - i,
        {
            let ghost before = kept@;
            assert(all.take(i as int + 1).drop_last() =~= all.take(i as int));
            if !item_is_of(&self.pending.entries[i].0, service) {
                kept.push((self.pending.entries[i].0.clone(), self.pending.entries[i].1));
                assert(kept@.drop_last() =~= before);
            }
            assert forall|n: Seq<char>| #[trigger] request_for(kept@, n) == (if is_item_of(
                n,
                service@,
            ) {
                None
            } else {
                request_for(all.take(i as int + 1), n)
            }) by {
                assert(request_for(before, n) == (if is_item_of(n, service@) {
                    None
                } else {
                    request_for(all.take(i as int), n)
                }));
            }
            i = i + 1;
        }
        assert(all.take(all.len() as int) =~= all);
        let last_id: u64 = self.pending.last_id;
        self.pending = PendingRequests { entries: kept, last_id };
    }

    /// The name of the watcher was given to this program or not.
    pub fn watcher_name_result(&mut self, owns_watcher: bool) -> (r: WatcherStep)
        requires
            old(self).wf(),
        ensures
            final(self).wf(),
            final(self).owns_watcher == owns_watcher,
            final(self).items@ == old(self).items@,
            final(self).pending == old(self).pending,
            r == (if owns_watcher {
                WatcherStep::Nothing
            } else {
                WatcherStep::AttachExternal
            }),
            if owns_watcher {
                let announced = texts(old(self).mirror.items@);
                &&& final(self).mirror.host_registered
                &&& texts(final(self).mirror.items@) == announced + newcomers(
                    item_ids(old(self).items@),
                    member_of(announced),
                )
            } else {
                final(self).mirror == old(self).mirror
            },
    {
        self.owns_watcher = owns_watcher;
        if !owns_watcher {
            return WatcherStep::AttachExternal;
        }
        self.mirror.host_registered = true;
        let ghost known = texts(self.mirror.items@);
        let ghost ids = item_ids(self.items@);
        let mut i: usize = 0;
        assert(ids.take(0) =~= Seq::<Seq<char>>::empty());
        assert(known + newcomers(ids.take(0), member_of(known)) =~= known);
        while i < self.items.len()
            invariant
                self.wf(),
                self.owns_watcher == owns_watcher,
                self.items@ == old(self).items@,
                self.pending == old(self).pending,
                self.mirror.host_registered,
                known == texts(old(self).mirror.items@),
                ids == item_ids(self.items@),
                i <= self.items@.len(),
                texts(self.mirror.items@) == known + newcomers(
                    ids.take(i as int),
                    member_of(known),
                ),
            decreases self.items@.len() - i,
        {
            let ghost before = newcomers(ids.take(i as int), member_of(known));
            let id = self.items[i].id.clone();
            let ghost text = id@;
            self.mirror.insert(id);
            proof {
                assert(ids.take(i as int + 1).drop_last() =~= ids.take(i as int));
                assert(ids.take(i as int + 1).last() == text);
                sum_members(known, before, text);
                assert((known + before).push(text) =~= known + before.push(text));
            }
            i = i + 1;
        }
        assert(ids.take(ids.len() as int) =~= ids);
        WatcherStep::Nothing
    }

    /// The owner of a name on the bus changed. `our_name` is this program's own name there.
    pub fn name_owner_changed(&mut self, name: &str, new_owner: &str, our_name: Option<&str>) -> (r:
        OwnerOutcome)
        requires
            old(self).wf(),
        ensures
            final(self).wf(),
            ({
                let left = new_owner@.len() == 0;
                let is_watcher = name@ == WATCHER_SERVICE@;
                let ours = opt_str(our_name) == Some(new_owner@);
                &&& final(self).owns_watcher == (old(self).owns_watcher && (!is_watcher || ours))
                &&& texts(final(self).mirror.items@) == (if left {
                    items_not_of(texts(old(self).mirror.items@), name@)
                } else {
                    texts(old(self).mirror.items@)
                })
                &&& final(self).items@ == (if left {
                    old(self).items@.filter(|item: TrayItem| item.service@ != name@)
                } else {
                    old(self).items@
                })
                &&& final(self).mirror.host_registered == old(self).mirror.host_registered
                &&& final(self).pending.last_id == old(self).pending.last_id
                &&& forall|n: Seq<char>|
                    #[trigger] final(self).pending.request(n) == (if left && is_item_of(n, name@) {
                        None
                    } else {
                        old(self).pending.request(n)
                    })
                &&& r.sync_views == (final(self).items@.len() != old(self).items@.len())
                &&& texts(r.gone@) == (if left && old(self).owns_watcher {
                    items_of_service(texts(old(self).mirror.items@), name@)
                } else {
                    Seq::empty()
                })
                &&& r.drop_external == (is_watcher && !final(self).owns_watcher)
                &&& r.step == (if !r.drop_external {
                    WatcherStep::Nothing
                } else if left {
                    WatcherStep::RequestName
                } else if !ours {
                    WatcherStep::AttachExternal
                } else {
                    WatcherStep::Nothing
                })
            }),
    {
        let left = new_owner.is_empty();
        let mut gone: Vec<String> = Vec::new();
        let mut sync_views = false;
        assert(texts(gone@) =~= Seq::<Seq<char>>::empty());
        if left {
            let (removed, changed) = self.remove_service(name);
            sync_views = changed;
            if self.owns_watcher {
                gone = removed;
            }
        }
        let ours = opt_is(our_name, new_owner);
        let mut drop_external = false;
        let mut step = WatcherStep::Nothing;
        if same(name, WATCHER_SERVICE) {
            if self.owns_watcher && !ours {
                self.owns_watcher = false;
            }
            if !self.owns_watcher {
                drop_external = true;
                if left {
                    step = WatcherStep::RequestName;
                } else if !ours {
                    step = WatcherStep::AttachExternal;
                }
            }
        }
        OwnerOutcome { gone, sync_views, drop_external, step }
    }

    /// Whether an announcement of another program's watcher counts: it comes from the owner of
    /// the watcher in use, and that is not this program.
    pub fn has_external_owner(&self, owner: &str, watcher_owner: Option<&str>) -> (r: bool)
        ensures
            r == (!self.owns_watcher && opt_str(watcher_owner) == Some(owner@)),
    {
        !self.owns_watcher && opt_is(watcher_owner, owner)
    }

    /// Takes the full list of another program's watcher. Items that are not in it are dropped, new
    /// ones are connected to. The answer holds these, and whether any shown item was dropped.
    pub fn apply_external_snapshot(&mut self, items: &Vec<String>) -> (r: (Vec<ItemRequest>, bool))
        requires
            old(self).wf(),
            !old(self).owns_watcher,
        ensures
            final(self).wf(),
            !final(self).owns_watcher,
            final(self).mirror.host_registered == old(self).mirror.host_registered,
            texts(final(self).mirror.items@) == texts(old(self).mirror.items@),
            final(self).items@ == old(self).items@.filter(
                |item: TrayItem| announced(items@, item.id@),
            ),
            r.1 == (final(self).items@.len() != old(self).items@.len()),
            forall|n: Seq<char>|
                #[trigger] final(self).pending.request(n) is Some == (announced(items@, n) && (old(
                    self).pending.request(n) is Some || !item_ids(final(self).items@).contains(n))),
            forall|n: Seq<char>|
                old(self).pending.request(n) is Some && announced(items@, n)
                    ==> #[trigger] final(self).pending.request(n) == old(self).pending.request(n),
            request_names(r.0@) == newcomers(
                full_names(items@),
                met(item_ids(final(self).items@), old(self).pending),
            ),
            forall|i: int|
                0 <= i < r.0@.len() ==> {
                    let request = #[trigger] r.0@[i];
                    &&& request.request_id == later_request(
                        old(self).pending.last_id,
                        (i + 1) as nat,
                    )
                    &&& final(self).pending.request(request.canonical@) == Some(
                        request.request_id,
                    )
                    &&& item_parts(request.canonical@) == Some((request.service@, request.path@))
                },
            final(self).pending.last_id == later_request(old(self).pending.last_id, r.0@.len()),
    {
        let mut canonical: Vec<String> = Vec::new();
        let mut i: usize = 0;
        assert(items@.take(0) =~= Seq::<String>::empty());
        while i < items.len()
            invariant
                i <= items@.len(),
                texts(canonical@) =~= full_names(items@.take(i as int)),
                forall|t: Seq<char>| #[trigger]
                    texts(canonical@).contains(t) == announced(items@.take(i as int), t),
            decreases items@.len() - i,
        {
            let ghost before = texts(canonical@);
            let ghost now = items@.take(i as int);
            let ghost next = items@.take(i as int + 1);
            assert(next.drop_last() =~= now);
            let id = normalize_item_id(&items[i], None);
            let ghost found = opt_text(id);
            if let Some(id) = id {
                let ghost text = id@;
                canonical.push(id);
                assert(texts(canonical@) =~= before.push(text));
            }
            proof {
                assert forall|t: Seq<char>| #[trigger]
                    texts(canonical@).contains(t) == announced(next, t) by {
                    announced_step(items@, i as int, t);
                    if let Some(text) = found {
                        push_members(before, text, t);
                    }
                    assert(before.contains(t) == announced(now, t));
                }
            }
            i = i + 1;
        }
        assert(items@.take(items@.len() as int) =~= items@);
        let before: usize = self.items.len();
        let ghost all = self.items@;
        let ghost keep = |item: TrayItem| announced(items@, item.id@);
        let mut rest: Vec<TrayItem> = Vec::new();
        rest.append(&mut self.items);
        assert(rest@ =~= all);
        let mut kept: Vec<TrayItem> = Vec::new();
        let ghost mut done: int = 0;
        assert(all.take(0) =~= Seq::<TrayItem>::empty());
        while rest.len() > 0
            invariant
                keep == (|item: TrayItem| announced(items@, item.id@)),
                forall|t: Seq<char>| #[trigger]
                    texts(canonical@).contains(t) == announced(items@, t),
                0 <= done <= all.len(),
                rest@ =~= all.skip(done),
                kept@ =~= all.take(done).filter(keep),
            decreases rest@.len(),
        {
            let item = rest.remove(0);
            assert(item == all[done]);
            proof {
                all.take(done).lemma_filter_push(item, keep);
                assert(all.take(done + 1) =~= all.take(done).push(item));
                done = done + 1;
            }
            if list_has(&canonical, &item.id) {
                kept.push(item);
            }
        }
        assert(all.take(all.len() as int) =~= all);
        self.items = kept;
        proof {
            filter_keeps_distinct(all, keep);
        }
        self.pending.retain_listed(&canonical);
        let changed = before != self.items.len();
        proof {
            assert forall|t: Seq<char>| #[trigger] texts(canonical@).contains(t) implies canonical_id(
                t,
                None,
            ) == Some(t) && item_parts(t) is Some by {
                announced_is_canonical(items@, t);
            }
        }
        let ghost middle = *self;
        let requests = self.connect_listed(&canonical);
        proof {
            let shown = item_ids(self.items@);
            assert forall|n: Seq<char>| texts(canonical@).contains(n) implies (#[trigger] met(
                shown,
                middle.pending,
            )(n)) == met(shown, old(self).pending)(n) by {
                assert(middle.pending.request(n) == old(self).pending.request(n));
            }
            newcomers_agree(
                texts(canonical@),
                met(shown, middle.pending),
                met(shown, old(self).pending),
            );
            assert forall|n: Seq<char>| #[trigger]
                self.pending.request(n) is Some == (announced(items@, n) && (old(
                    self).pending.request(n) is Some || !item_ids(self.items@).contains(n))) by {
                if announced(items@, n) {
                    announced_is_canonical(items@, n);
                }
                assert(texts(canonical@).contains(n) == announced(items@, n));
            }
        }
        (requests, changed)
    }

    /// Connects to the items of the list that are neither shown nor awaited.
    fn connect_listed(&mut self, list: &Vec<String>) -> (r: Vec<ItemRequest>)
        requires
            old(self).wf(),
            !old(self).owns_watcher,
            forall|t: Seq<char>| #[trigger]
                texts(list@).contains(t) ==> canonical_id(t, None) == Some(t) && item_parts(
                    t,
                ) is Some,
        ensures
            final(self).wf(),
            !final(self).owns_watcher,
            final(self).items@ == old(self).items@,
            final(self).mirror.host_registered == old(self).mirror.host_registered,
            texts(final(self).mirror.items@) == texts(old(self).mirror.items@),
            forall|n: Seq<char>|
                #[trigger] final(self).pending.request(n) is Some == (old(self).pending.request(
                    n,
                ) is Some || (texts(list@).contains(n) && !item_ids(old(self).items@).contains(n))),
            forall|n: Seq<char>|
                old(self).pending.request(n) is Some ==> #[trigger] final(self).pending.request(n)
                    == old(self).pending.request(n),
            request_names(r@) == newcomers(
                texts(list@),
                met(item_ids(old(self).items@), old(self).pending),
            ),
            forall|i: int|
                0 <= i < r@.len() ==> {
                    let request = #[trigger] r@[i];
                    &&& request.request_id == later_request(
                        old(self).pending.last_id,
                        (i + 1) as nat,
                    )
                    &&& final(self).pending.request(request.canonical@) == Some(
                        request.request_id,
                    )
                    &&& item_parts(request.canonical@) == Some((request.service@, request.path@))
                },
            final(self).pending.last_id == later_request(old(self).pending.last_id, r@.len()),
    {
        let ghost shown = item_ids(self.items@);
        let ghost known = met(shown, self.pending);
        let ghost all = texts(list@);
        let mut requests: Vec<ItemRequest> = Vec::new();
        let mut i: usize = 0;
        assert(all.take(0) =~= Seq::<Seq<char>>::empty());
        assert(request_names(requests@) =~= newcomers(all.take(0), known));
        while i < list.len()
            invariant
                self.wf(),
                !self.owns_watcher,
                self.items@ == old(self).items@,
                shown == item_ids(self.items@),
                known == met(shown, old(self).pending),
                self.mirror.host_registered == old(self).mirror.host_registered,
                texts(self.mirror.items@) == texts(old(self).mirror.items@),
                all == texts(list@),
                forall|t: Seq<char>| #[trigger]
                    all.contains(t) ==> canonical_id(t, None) == Some(t) && item_parts(t) is Some,
                i <= list@.len(),
                request_names(requests@) == newcomers(all.take(i as int), known),
                forall|n: Seq<char>| #[trigger]
                    self.pending.request(n) is Some == (old(self).pending.request(n) is Some
                        || request_names(requests@).contains(n)),
                forall|n: Seq<char>|
                    old(self).pending.request(n) is Some ==> #[trigger] self.pending.request(n)
                        == old(self).pending.request(n),
                forall|k: int|
                    0 <= k < requests@.len() ==> {
                        let request = #[trigger] requests@[k];
                        &&& request.request_id == later_request(
                            old(self).pending.last_id,
                            (k + 1) as nat,
                        )
                        &&& self.pending.request(request.canonical@) == Some(request.request_id)
                        &&& item_parts(request.canonical@) == Some(
                            (request.service@, request.path@),
                        )
                    },
                self.pending.last_id == later_request(
                    old(self).pending.last_id,
                    requests@.len(),
                ),
            decreases list@.len() - i,
        {
            let ghost id = list@[i as int]@;
            assert(all[i as int] == id);
            assert(all.contains(id));
            let ghost prior = *self;
            let ghost before = request_names(requests@);
            let ghost prior_requests = requests@;
            let request = self.insert_item(&list[i]);
            proof {
                assert(all.take(i as int + 1).drop_last() =~= all.take(i as int));
                assert(all.take(i as int + 1).last() == id);
                assert(prior.pending.request(id) is Some == (old(self).pending.request(
                    id,
                ) is Some || before.contains(id)));
            }
            if let Some(request) = request {
                requests.push(request);
                assert(request_names(requests@) =~= before.push(id));
            }
            proof {
                let after = request_names(requests@);
                assert forall|n: Seq<char>| #[trigger]
                    self.pending.request(n) is Some == (old(self).pending.request(n) is Some
                        || after.contains(n)) by {
                    assert(prior.pending.request(n) is Some == (old(self).pending.request(
                        n,
                    ) is Some || before.contains(n)));
                    push_members(before, id, n);
                }
                assert forall|n: Seq<char>| old(self).pending.request(n) is Some implies (
                #[trigger] self.pending.request(n)) == old(self).pending.request(n) by {
                    assert(prior.pending.request(n) == old(self).pending.request(n));
                }
                assert forall|k: int| 0 <= k < prior_requests.len() implies self.pending.request(
                    (#[trigger] prior_requests[k]).canonical@,
                ) == Some(prior_requests[k].request_id) by {
                    assert(before[k] == prior_requests[k].canonical@);
                    assert(before.contains(before[k]));
                    assert(prior.pending.request(prior_requests[k].canonical@) == Some(
                        prior_requests[k].request_id,
                    ));
                }
            }
            i = i + 1;
        }
        proof {
            assert(all.take(all.len() as int) =~= all);
            newcomers_members(all, known);
        }
        requests
    }
}

/// Whether an item of the list has this full name.
pub open spec fn announced(items: Seq<String>, id: Seq<char>) -> bool {
    exists|k: int|
        0 <= k < items.len() && canonical_id((#[trigger] items[k])@, None) == Some(id)
}

/// The full names of the items of a list that have one, in order.
pub open spec fn full_names(items: Seq<String>) -> Seq<Seq<char>>
    decreases items.len(),
{
    if items.len() == 0 {
        Seq::empty()
    } else {
        let before = full_names(items.drop_last());
        match canonical_id(items.last()@, None) {
            Some(id) => before.push(id),
            None => before,
        }
    }
}

/// Whether an item is shown or awaited.
pub open spec fn met(shown: Seq<Seq<char>>, pending: PendingRequests) -> spec_fn(Seq<char>) -> bool {
    |id: Seq<char>| shown.contains(id) || pending.request(id) is Some
}

/// The full names of the items to connect to.
pub open spec fn request_names(requests: Seq<ItemRequest>) -> Seq<Seq<char>> {
    requests.map_values(|request: ItemRequest| request.canonical@)
}

proof fn newcomers_agree(
    list: Seq<Seq<char>>,
    known: spec_fn(Seq<char>) -> bool,
    also_known: spec_fn(Seq<char>) -> bool,
)
    requires
        forall|t: Seq<char>| list.contains(t) ==> (#[trigger] known(t)) == also_known(t),
    ensures
        newcomers(list, known) == newcomers(list, also_known),
    decreases list.len(),
{
    if list.len() > 0 {
        let front = list.drop_last();
        assert(list.contains(list.last()));
        assert(known(list.last()) == also_known(list.last()));
        assert forall|t: Seq<char>| front.contains(t) implies (#[trigger] known(t)) == also_known(
            t,
        ) by {
            let i = choose|i: int| 0 <= i < front.len() && front[i] == t;
            assert(list[i] == t);
        }
        newcomers_agree(front, known, also_known);
    }
}

proof fn announced_step(items: Seq<String>, i: int, id: Seq<char>)
    requires
        0 <= i < items.len(),
    ensures
        announced(items.take(i + 1), id) == (announced(items.take(i), id) || canonical_id(
            items[i]@,
            None,
        ) == Some(id)),
{
    let now = items.take(i);
    let next = items.take(i + 1);
    assert(next[i] == items[i]);
    if announced(now, id) {
        let k = choose|k: int|
            0 <= k < now.len() && canonical_id((#[trigger] now[k])@, None) == Some(id);
        assert(next[k] == now[k]);
    }
    if announced(next, id) {
        let k = choose|k: int|
            0 <= k < next.len() && canonical_id((#[trigger] next[k])@, None) == Some(id);
        if k < i {
            assert(now[k] == next[k]);
        }
    }
}

proof fn solid_ends_stay(s: Seq<char>)
    requires
        s.len() > 0,
        !is_space(s[0]),
        !is_space(s.last()),
    ensures
        trimmed(s) == s,
{
}

/// The full name of an item is its own full name, and has a service and an object path.
pub proof fn canonical_names_are_final(raw: Seq<char>)
    ensures
        canonical_id(raw, None) matches Some(id) ==> item_parts(id) is Some && trimmed(id) == id
            && canonical_id(id, None) == Some(id),
{
    let t = trimmed(raw);
    if t.len() > 0 {
        trimmed_has_no_outer_space(raw);
        match slash_from(t, 0) {
            Some(i) => {
                if i != 0 {
                    trimmed_is_idempotent(raw);
                }
            },
            None => {
                let id = t + ITEM_DEFAULT_PATH@;
                reveal_strlit("/StatusNotifierItem");
                slash_absent(t, 0);
                assert(id[t.len() as int] == '/');
                assert forall|j: int| 0 <= j < t.len() implies id[j] != '/' by {
                    assert(id[j] == t[j]);
                }
                slash_is_first(id, 0, t.len() as int);
                assert(id[0] == t[0]);
                assert(id.last() == 'm');
                solid_ends_stay(id);
            },
        }
    }
}

proof fn slash_absent(s: Seq<char>, i: int)
    requires
        0 <= i <= s.len(),
        slash_from(s, i) is None,
    ensures
        forall|j: int| i <= j < s.len() ==> s[j] != '/',
    decreases s.len() - i,
{
    if i < s.len() {
        slash_absent(s, i + 1);
    }
}

proof fn announced_is_canonical(items: Seq<String>, id: Seq<char>)
    requires
        announced(items, id),
    ensures
        canonical_id(id, None) == Some(id),
        item_parts(id) is Some,
{
    let k = choose|k: int|
        0 <= k < items.len() && canonical_id((#[trigger] items[k])@, None) == Some(id);
    canonical_names_are_final(items[k]@);
}

proof fn filter_keeps_distinct(items: Seq<TrayItem>, keep: spec_fn(TrayItem) -> bool)
    requires
        item_ids(items).no_duplicates(),
    ensures
        item_ids(items.filter(keep)).no_duplicates(),
        forall|t: Seq<char>| #[trigger]
            item_ids(items.filter(keep)).contains(t) ==> item_ids(items).contains(t),
    decreases items.len(),
{
    if items.len() > 0 {
        let front = items.drop_last();
        let last = items.last();
        assert(items =~= front.push(last));
        front.lemma_filter_push(last, keep);
        assert(item_ids(items) =~= item_ids(front).push(last.id@));
        assert(item_ids(front).no_duplicates()) by {
            assert forall|i: int, j: int|
                0 <= i < item_ids(front).len() && 0 <= j < item_ids(front).len() && i
                    != j implies item_ids(front)[i] != item_ids(front)[j] by {
                assert(item_ids(items)[i] != item_ids(items)[j]);
            }
        }
        filter_keeps_distinct(front, keep);
        let before = item_ids(front.filter(keep));
        assert(!item_ids(front).contains(last.id@)) by {
            if item_ids(front).contains(last.id@) {
                let i = choose|i: int|
                    0 <= i < item_ids(front).len() && item_ids(front)[i] == last.id@;
                assert(item_ids(items)[i] == item_ids(items)[items.len() - 1]);
            }
        }
        if keep(last) {
            assert(item_ids(items.filter(keep)) =~= before.push(last.id@));
            push_keeps_distinct(before, last.id@);
        }
        assert forall|t: Seq<char>| #[trigger]
            item_ids(items.filter(keep)).contains(t) implies item_ids(items).contains(t) by {
            push_members(item_ids(front), last.id@, t);
            if keep(last) {
                push_members(before, last.id@, t);
            }
        }
    } else {
        items.lemma_filter_len(keep);
        assert(item_ids(items.filter(keep)) =~= Seq::<Seq<char>>::empty());
    }
}

pub(crate) proof fn first_slash(s: Seq<char>, from: int)
    requires
        0 <= from,
    ensures
        match slash_from(s, from) {
            Some(i) => from <= i < s.len() && s[i] == '/' && forall|j: int|
                from <= j < i ==> #[trigger] s[j] != '/',
            None => forall|j: int| from <= j < s.len() ==> #[trigger] s[j] != '/',
        },
    decreases s.len() - from,
{
    if from < s.len() {
        first_slash(s, from + 1);
    }
}

/// An item's name splits into a service without a slash and an object path that begins with one,
/// and nothing is lost; a name without one of the two does not split.
pub proof fn names_split_at_the_first_slash(item: &str, r: Option<(String, String)>)
    requires
        call_ensures(split_item_id, (item,), r),
    ensures
        r matches Some(parts) ==> parts.0@ + parts.1@ == item@ && parts.0@.len() > 0
            && !parts.0@.contains('/') && parts.1@[0] == '/',
        (r is None) == (!item@.contains('/') || item@[0] == '/'),
{
    first_slash(item@, 0);
    match slash_from(item@, 0) {
        Some(i) => {
            assert(item@[i] == '/');
            let front = item@.take(i);
            if front.contains('/') {
                let k = choose|k: int| 0 <= k < front.len() && front[k] == '/';
                assert(item@[k] == '/');
            }
        },
        None => {},
    }
}

/// The full name of an item says its service and its object path: what it says itself, the sender
/// where it says a path alone, and the usual path where it says a service alone.
pub proof fn full_names_are_completed(raw: &str, sender: Option<&str>, r: Option<String>)
    requires
        call_ensures(normalize_item_id, (raw, sender), r),
    ensures
        is_blank(raw@) ==> r is None,
        ({
            let name = trimmed(raw@);
            &&& name.len() > 0 && !name.contains('/') ==> opt_text(r) == Some(
                name + "/StatusNotifierItem"@,
            )
            &&& name.len() > 0 && name.contains('/') && name[0] != '/' ==> opt_text(r) == Some(name)
            &&& name.len() > 0 && name[0] == '/' ==> opt_text(r) == (match sender {
                Some(owner) => Some(owner@ + name),
                None => None,
            })
        }),
{
    let name = trimmed(raw@);
    first_slash(name, 0);
    if is_blank(raw@) {
        blank_texts_trim_to_nothing(raw@);
    }
    assert(ITEM_DEFAULT_PATH@ == "/StatusNotifierItem"@);
    if slash_from(name, 0) is Some {
        assert(name[slash_from(name, 0)->0] == '/');
    }
}

/// An item that was announced is announced once, and is gone once it was taken out.
pub proof fn announced_items_are_listed_once(
    first: &mut WatcherMirror,
    item: String,
    new: bool,
    second: &mut WatcherMirror,
    again: bool,
    gone: &mut WatcherMirror,
    id: &str,
    was_there: bool,
    other: Seq<char>,
)
    requires
        id@ == item@,
        call_ensures(WatcherMirror::insert, (first, item), new),
        *old(second) == *final(first),
        call_ensures(WatcherMirror::insert, (second, item), again),
        *old(gone) == *final(second),
        call_ensures(WatcherMirror::remove_item, (gone, id), was_there),
        other != item@,
    ensures
        new == !texts(old(first).items@).contains(item@),
        texts(final(first).items@).contains(item@),
        !again && was_there,
        !texts(final(gone).items@).contains(item@),
        texts(final(gone).items@).contains(other) == texts(old(first).items@).contains(other),
{
    let (a, b) = (texts(old(first).items@), texts(final(first).items@));
    if new {
        assert(b[b.len() - 1] == item@);
        push_members(a, item@, other);
    }
    without_members(texts(final(second).items@), item@);
}

proof fn service_items(items: Seq<Seq<char>>, service: Seq<char>, item: Seq<char>)
    ensures
        items_of_service(items, service).contains(item) == (items.contains(item) && is_item_of(
            item,
            service,
        )),
        items_not_of(items, service).contains(item) == (items.contains(item) && !is_item_of(
            item,
            service,
        )),
    decreases items.len(),
{
    if items.len() > 0 {
        let rest = items.drop_last();
        service_items(rest, service, item);
        assert(items =~= rest.push(items.last()));
        push_members(rest, items.last(), item);
        push_members(items_of_service(rest, service), items.last(), item);
        push_members(items_not_of(rest, service), items.last(), item);
    }
}

/// When a service leaves the bus its items are gone, those and no others, and are told as gone.
pub proof fn services_take_their_items_along(
    state: &mut TrayState,
    service: &str,
    r: (Vec<String>, bool),
    item: Seq<char>,
    i: int,
)
    requires
        call_ensures(TrayState::remove_service, (state, service), r),
        0 <= i < old(state).items@.len(),
    ensures
        texts(r.0@).contains(item) == (texts(old(state).mirror.items@).contains(item) && is_item_of(
            item,
            service@,
        )),
        texts(final(state).mirror.items@).contains(item) == (texts(
            old(state).mirror.items@,
        ).contains(item) && !is_item_of(item, service@)),
        final(state).items@.contains(old(state).items@[i]) == (old(state).items@[i].service@
            != service@),
        is_item_of(item, service@) ==> final(state).pending.request(item) is None,
{
    service_items(texts(old(state).mirror.items@), service@, item);
    let keep = |item: TrayItem| item.service@ != service@;
    let all = old(state).items@;
    let kept = all.filter(keep);
    all.filter_lemma(keep);
    if keep(all[i]) {
        all.lemma_filter_contains(keep, i);
    } else if kept.contains(all[i]) {
        let k = choose|k: int| 0 <= k < kept.len() && kept[k] == all[i];
        assert(keep(kept[k]));
    }
    assert(final(state).pending.request(item) == final(state).pending.request(item));
}

/// An item that was announced is connected to once; a connection that came is shown, one that
/// failed is not, and an answer that is not the newest is dropped.
pub proof fn announced_items_are_shown(
    asked: &mut TrayState,
    item_id: &str,
    request: ItemRequest,
    again: &mut TrayState,
    second: Option<ItemRequest>,
    done: &mut TrayState,
    connected: bool,
    outcome: ItemOutcome,
)
    requires
        call_ensures(TrayState::insert_item, (asked, item_id), Some(request)),
        *old(again) == *final(asked),
        call_ensures(TrayState::insert_item, (again, item_id), second),
        *old(done) == *final(again),
        call_ensures(
            TrayState::finish_item_registration,
            (done, request.request_id, request.canonical, request.service, connected),
            outcome,
        ),
    ensures
        request.service@ + request.path@ == request.canonical@,
        second is None,
        (outcome is Added) == connected,
        (outcome is Failed) == !connected,
        connected ==> final(done).items@ == old(asked).items@.push(
            TrayItem { id: request.canonical, service: request.service },
        ),
        !connected ==> final(done).items@ == old(asked).items@,
        final(done).pending.request(request.canonical@) is None,
{
    let canonical = request.canonical@;
    assert(final(asked).pending.request(canonical) == Some(request.request_id));
    first_slash(canonical, 0);
    let i = slash_from(canonical, 0)->0;
    assert(canonical.take(i) + canonical.skip(i) =~= canonical);
    assert(final(done).pending.request(canonical) is None);
}

/// An item that was announced as gone is not shown any more, and the others stay.
pub proof fn gone_items_are_not_shown(
    state: &mut TrayState,
    item_id: &str,
    r: bool,
    id: Seq<char>,
    i: int,
)
    requires
        call_ensures(TrayState::unregister_item, (state, item_id), r),
        canonical_id(item_id@, None) == Some(id),
        0 <= i < old(state).items@.len(),
    ensures
        final(state).items@.contains(old(state).items@[i]) == (old(state).items@[i].id@ != id),
        old(state).items@[i].id@ == id ==> r,
        final(state).pending.request(id) is None,
{
    let keep = not_named(id);
    let all = old(state).items@;
    let kept = all.filter(keep);
    all.filter_lemma(keep);
    assert(item_ids(all)[i] == all[i].id@);
    if keep(all[i]) {
        all.lemma_filter_contains(keep, i);
    } else if kept.contains(all[i]) {
        let k = choose|k: int| 0 <= k < kept.len() && kept[k] == all[i];
        assert(keep(kept[k]));
    }
    assert(final(state).pending.request(id) is None);
}

/// The tray uses its own watcher where it has the watcher's name, and that of another program where
/// it has not; it asks for the name when the other program leaves.
pub proof fn watchers_are_replaced(
    named: &mut TrayState,
    owns: bool,
    step: WatcherStep,
    changed: &mut TrayState,
    name: &str,
    new_owner: &str,
    our_name: Option<&str>,
    r: OwnerOutcome,
    owner: &str,
    counts: bool,
)
    requires
        call_ensures(TrayState::watcher_name_result, (named, owns), step),
        *old(changed) == *final(named),
        call_ensures(TrayState::name_owner_changed, (changed, name, new_owner, our_name), r),
        call_ensures(
            TrayState::has_external_owner,
            (final(changed), owner, Some(new_owner)),
            counts,
        ),
    ensures
        (step is AttachExternal) == !owns,
        owns ==> final(named).mirror.host_registered,
        name@ == "org.kde.StatusNotifierWatcher"@ && new_owner@.len() == 0 && our_name is None
            ==> r.step is RequestName && !final(changed).owns_watcher,
        name@ == "org.kde.StatusNotifierWatcher"@ && new_owner@.len() > 0 && (our_name is None
            || our_name->0@ != new_owner@) ==> r.step is AttachExternal && !final(
            changed).owns_watcher,
        name@ != "org.kde.StatusNotifierWatcher"@ ==> r.step is Nothing && !r.drop_external && final(
            changed).owns_watcher == owns,
        our_name matches Some(ours) ==> (ours@ == new_owner@ && owns ==> final(changed).owns_watcher),
        counts == (!final(changed).owns_watcher && owner@ == new_owner@),
        new_owner@.len() > 0 ==> !r.sync_views && r.gone@.len() == 0,
{
    assert(WATCHER_SERVICE@ == "org.kde.StatusNotifierWatcher"@);
    if new_owner@.len() > 0 {
        assert(texts(r.gone@).len() == r.gone@.len());
    }
}

/// The list of another program's watcher is followed: items that are not in it go, items that are
/// new are connected to, and the others stay.
pub proof fn foreign_lists_are_followed(
    state: &mut TrayState,
    items: Vec<String>,
    r: (Vec<ItemRequest>, bool),
    i: int,
    k: int,
    id: Seq<char>,
)
    requires
        call_ensures(TrayState::apply_external_snapshot, (state, &items), r),
        0 <= i < old(state).items@.len(),
        0 <= k < items@.len(),
        canonical_id(items@[k]@, None) == Some(id),
    ensures
        old(state).items@[i].id@ == id ==> final(state).items@.contains(old(state).items@[i]),
        final(state).items@.contains(old(state).items@[i]) == announced(
            items@,
            old(state).items@[i].id@,
        ),
        !item_ids(final(state).items@).contains(id) ==> final(state).pending.request(id) is Some,
        (forall|n: int|
            0 <= n < old(state).items@.len() ==> announced(
                items@,
                (#[trigger] old(state).items@[n]).id@,
            )) ==> !r.1,
{
    let keep = |item: TrayItem| announced(items@, item.id@);
    let all = old(state).items@;
    let kept = all.filter(keep);
    all.filter_lemma(keep);
    assert(announced(items@, id));
    if keep(all[i]) {
        all.lemma_filter_contains(keep, i);
    } else if kept.contains(all[i]) {
        let n = choose|n: int| 0 <= n < kept.len() && kept[n] == all[i];
        assert(keep(kept[n]));
    }
    assert(final(state).pending.request(id) is Some == (announced(items@, id) && (old(
        state,
    ).pending.request(id) is Some || !item_ids(final(state).items@).contains(id))));
    if forall|n: int|
        0 <= n < all.len() ==> announced(items@, (#[trigger] all[n]).id@) {
        all_are_kept(all, keep);
    }
}

proof fn all_are_kept(all: Seq<TrayItem>, keep: spec_fn(TrayItem) -> bool)
    requires
        forall|n: int| 0 <= n < all.len() ==> keep(#[trigger] all[n]),
    ensures
        all.filter(keep) == all,
    decreases all.len(),
{
    reveal(Seq::filter);
    if all.len() > 0 {
        let front = all.drop_last();
        assert forall|n: int| 0 <= n < front.len() implies keep(#[trigger] front[n]) by {
            assert(front[n] == all[n]);
        }
        all_are_kept(front, keep);
        assert(keep(all[all.len() - 1]));
        assert(front.push(all.last()) =~= all);
    }
}

} // verus!
