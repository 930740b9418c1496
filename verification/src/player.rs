//! Media players: which one the bar controls, and what it shows of it.
use crate::pending::{following_request, later_request, PendingRequests};
use crate::sort::{sorted_has_the_same_members, stable_sort, stably_sorted, Ranked};
use crate::text::{
    begins_with, chars_of, concat3, ends_with, has_text, join, joined, joined_holds, non_empty,
    not_after, occurs_at, opt_is, opt_str, opt_text, parts_show, same, starts_with, string_of,
    strip_prefix, text_le, text_le_total, text_le_transitive, texts, trimmed,
};
use crate::text_set::{ascending, TextSet};
use vstd::prelude::*;

verus! {

/// The object of a player.
pub const MPRIS_PATH: &'static str = "/org/mpris/MediaPlayer2";

/// The interface of a player's window.
pub const MPRIS_ROOT: &'static str = "org.mpris.MediaPlayer2";

/// The interface that plays.
pub const MPRIS_PLAYER: &'static str = "org.mpris.MediaPlayer2.Player";

pub const ICON_PLAY: &'static str = "\u{f040a}";

pub const ICON_PAUSE: &'static str = "\u{f03e4}";

pub const MPRIS_PREFIX: &'static str = "org.mpris.MediaPlayer2.";

/// How many characters of a track's description are shown.
pub const META_CHAR_LIMIT: usize = 80;

#[derive(Clone, Copy, Debug, PartialEq, Eq, Structural)]
pub enum PlaybackStatus {
    Playing,
    Paused,
    Stopped,
    Unknown,
}

/// The status that a word means.
pub open spec fn status_named(text: Option<Seq<char>>) -> PlaybackStatus {
    if text == Some("Playing"@) {
        PlaybackStatus::Playing
    } else if text == Some("Paused"@) {
        PlaybackStatus::Paused
    } else if text == Some("Stopped"@) {
        PlaybackStatus::Stopped
    } else {
        PlaybackStatus::Unknown
    }
}

pub fn playback_status(text: Option<&str>) -> (r: PlaybackStatus)
    ensures
        r == status_named(opt_str(text)),
{
    if opt_is(text, "Playing") {
        PlaybackStatus::Playing
    } else if opt_is(text, "Paused") {
        PlaybackStatus::Paused
    } else if opt_is(text, "Stopped") {
        PlaybackStatus::Stopped
    } else {
        PlaybackStatus::Unknown
    }
}

/// What a player says of itself.
#[derive(Clone, Debug, PartialEq, Eq)]
pub struct PlayerFacts {
    /// Whether the player is still on the bus.
    pub has_owner: bool,
    pub status: PlaybackStatus,
    pub can_control: bool,
    pub can_play: bool,
    pub can_pause: bool,
    pub can_go_previous: bool,
    pub can_go_next: bool,
    pub can_raise: bool,
    pub identity: Option<String>,
    pub title: Option<String>,
    pub artists: Option<Vec<String>>,
}

/// What can be done with a player.
#[derive(Clone, Copy, Debug, PartialEq, Eq, Structural)]
pub struct PlayerCapabilities {
    pub previous: bool,
    pub play_pause: bool,
    pub next: bool,
    pub raise: bool,
}

#[derive(Clone, Copy, Debug, PartialEq, Eq, Structural)]
pub struct PlayerSourceState {
    pub status: PlaybackStatus,
    pub selectable: bool,
}

impl PlayerSourceState {
    pub open spec fn plays(self) -> bool {
        self.selectable && self.status == PlaybackStatus::Playing
    }

    pub fn is_playing(&self) -> (r: bool)
        ensures
            r == self.plays(),
    {
        self.selectable && self.status == PlaybackStatus::Playing
    }
}

/// Whether a player has started to play.
pub open spec fn starts_playing(
    previous: Option<PlayerSourceState>,
    current: PlayerSourceState,
) -> bool {
    current.plays() && !(previous matches Some(state) && state.plays())
}

pub fn became_playing(previous: Option<PlayerSourceState>, current: PlayerSourceState) -> (r: bool)
    ensures
        r == starts_playing(previous, current),
{
    let was = match previous {
        Some(state) => state.is_playing(),
        None => false,
    };
    current.is_playing() && !was
}

/// The trimmed texts of a list that are not blank.
pub open spec fn solid_texts(list: Seq<Seq<char>>) -> Seq<Seq<char>>
    decreases list.len(),
{
    if list.len() == 0 {
        Seq::empty()
    } else {
        let before = solid_texts(list.drop_last());
        if trimmed(list.last()).len() > 0 {
            before.push(trimmed(list.last()))
        } else {
            before
        }
    }
}

/// A text without the white space around it, where anything is left.
pub open spec fn solid_text(text: Option<String>) -> Option<Seq<char>> {
    match text {
        Some(t) => if trimmed(t@).len() > 0 {
            Some(trimmed(t@))
        } else {
            None
        },
        None => None,
    }
}

fn solid(text: &Option<String>) -> (r: Option<String>)
    ensures
        opt_text(r) == solid_text(*text),
{
    match text {
        Some(t) => non_empty(t),
        None => None,
    }
}

impl PlayerFacts {
    pub open spec fn abilities(&self) -> PlayerCapabilities {
        PlayerCapabilities {
            previous: self.can_control && self.can_go_previous,
            play_pause: self.can_control && (if self.status == PlaybackStatus::Playing {
                self.can_pause
            } else {
                self.can_play
            }),
            next: self.can_control && self.can_go_next,
            raise: self.can_raise,
        }
    }

    pub fn capabilities(&self) -> (r: PlayerCapabilities)
        ensures
            r == self.abilities(),
    {
        PlayerCapabilities {
            previous: self.can_control && self.can_go_previous,
            play_pause: self.can_control && (if self.status == PlaybackStatus::Playing {
                self.can_pause
            } else {
                self.can_play
            }),
            next: self.can_control && self.can_go_next,
            raise: self.can_raise,
        }
    }

    /// Whether the bar can control the player.
    pub open spec fn selectable(&self) -> bool {
        self.has_owner && self.can_control && (self.abilities().previous
            || self.abilities().play_pause || self.abilities().next)
    }

    pub fn is_selectable(&self) -> (r: bool)
        ensures
            r == self.selectable(),
    {
        let abilities = self.capabilities();
        self.has_owner && self.can_control && (abilities.previous || abilities.play_pause
            || abilities.next)
    }

    pub open spec fn source(&self) -> PlayerSourceState {
        PlayerSourceState { status: self.status, selectable: self.selectable() }
    }

    pub fn source_state(&self) -> (r: PlayerSourceState)
        ensures
            r == self.source(),
    {
        PlayerSourceState { status: self.status, selectable: self.is_selectable() }
    }

    /// The artists of the track.
    pub open spec fn artist_text(&self) -> Option<Seq<char>> {
        match self.artists {
            Some(artists) => {
                let text = joined(solid_texts(texts(artists@)), ", "@);
                if text.len() > 0 {
                    Some(text)
                } else {
                    None
                }
            },
            None => None,
        }
    }

    /// What is played: the artists and the title, as far as they are known.
    pub open spec fn track_text(&self) -> Seq<char> {
        match (self.artist_text(), solid_text(self.title)) {
            (Some(artist), Some(title)) => artist + " — "@ + title,
            (None, Some(title)) => title,
            (Some(artist), None) => artist,
            (None, None) => match solid_text(self.identity) {
                Some(identity) => identity,
                None => "Now playing"@,
            },
        }
    }

    fn artist(&self) -> (r: Option<String>)
        ensures
            opt_text(r) == self.artist_text(),
    {
        let artists = match &self.artists {
            Some(artists) => artists,
            None => return None,
        };
        let ghost all = texts(artists@);
        let mut names: Vec<String> = Vec::new();
        let mut i: usize = 0;
        assert(all.take(0) =~= Seq::<Seq<char>>::empty());
        while i < artists.len()
            invariant
                all == texts(artists@),
                i <= artists@.len(),
                texts(names@) =~= solid_texts(all.take(i as int)),
            decreases artists@.len() - i,
        {
            assert(all.take(i as int + 1).drop_last() =~= all.take(i as int));
            assert(all.take(i as int + 1).last() == artists@[i as int]@);
            if let Some(name) = non_empty(&artists[i]) {
                names.push(name);
            }
            i = i + 1;
        }
        assert(all.take(all.len() as int) =~= all);
        let text = join(&names, ", ");
        if text.as_str().is_empty() {
            None
        } else {
            Some(text)
        }
    }

    /// What is played.
    pub fn metadata_text(&self) -> (r: String)
        ensures
            r@ == self.track_text(),
    {
        match (self.artist(), solid(&self.title)) {
            (Some(artist), Some(title)) => concat3(&artist, " — ", &title),
            (None, Some(title)) => title,
            (Some(artist), None) => artist,
            (None, None) => match solid(&self.identity) {
                Some(identity) => identity,
                None => "Now playing".to_owned(),
            },
        }
    }
}

/// A text cut to a number of characters, an ellipsis for the rest.
pub open spec fn truncated(value: Seq<char>, limit: nat) -> Seq<char> {
    if value.len() <= limit {
        value
    } else if limit == 0 {
        Seq::empty()
    } else {
        value.take(limit - 1).push('…')
    }
}

pub fn truncate_text(value: &str, limit: usize) -> (r: String)
    ensures
        r@ == truncated(value@, limit as nat),
{
    let chars = chars_of(value);
    if chars.len() <= limit {
        return value.to_owned();
    }
    if limit == 0 {
        let out = String::new();
        assert(out@ =~= Seq::<char>::empty());
        return out;
    }
    let mut out = string_of(&chars, 0, limit - 1);
    assert(out@ =~= value@.take(limit - 1));
    out.push('…');
    out
}

/// A cut text is never longer than the limit, and a text within the limit is not cut.
pub proof fn truncation_respects_the_limit(value: Seq<char>, limit: nat)
    ensures
        truncated(value, limit).len() <= limit,
        value.len() <= limit ==> truncated(value, limit) == value,
        value.len() > limit && limit > 0 ==> truncated(value, limit).len() == limit,
{
}

/// A player on the bus, and how it was when last heard of.
pub struct PlayerEntry {
    pub bus_name: String,
    pub facts: PlayerFacts,
    pub known: PlayerSourceState,
}

/// Players go by their names on the bus.
impl Ranked for PlayerEntry {
    open spec fn le(&self, other: &Self) -> bool {
        text_le(self.bus_name@, other.bus_name@)
    }

    proof fn le_total(a: &Self, b: &Self) {
        text_le_total(a.bus_name@, b.bus_name@);
    }

    proof fn le_transitive(a: &Self, b: &Self, c: &Self) {
        text_le_transitive(a.bus_name@, b.bus_name@, c.bus_name@);
    }

    fn ranks_le(&self, other: &Self) -> (r: bool) {
        not_after(&self.bus_name, &other.bus_name)
    }
}

impl PlayerEntry {
    /// The name of the player: what it calls itself, else its name on the bus.
    pub open spec fn identity_text(&self) -> Seq<char> {
        match solid_text(self.facts.identity) {
            Some(identity) => identity,
            None => if begins_with(self.bus_name@, MPRIS_PREFIX@) {
                self.bus_name@.skip(MPRIS_PREFIX@.len() as int)
            } else {
                self.bus_name@
            },
        }
    }

    pub fn identity(&self) -> (r: String)
        ensures
            r@ == self.identity_text(),
    {
        match solid(&self.facts.identity) {
            Some(identity) => identity,
            None => match strip_prefix(&self.bus_name, MPRIS_PREFIX) {
                Some(rest) => rest,
                None => self.bus_name.clone(),
            },
        }
    }
}

/// Whether a player of the name is there and can be controlled.
pub open spec fn can_select(players: Seq<PlayerEntry>, name: Seq<char>) -> bool {
    exists|i: int|
        0 <= i < players.len() && (#[trigger] players[i]).bus_name@ == name
            && players[i].facts.selectable()
}

/// The first player, from `i` on, that can be controlled and has the status, any where it is
/// nothing.
pub open spec fn first_selectable(
    players: Seq<PlayerEntry>,
    status: Option<PlaybackStatus>,
    i: int,
) -> Option<int>
    decreases players.len() - i,
{
    if i < 0 || i >= players.len() {
        None
    } else if players[i].facts.selectable() && (status is None || status == Some(
        players[i].facts.status,
    )) {
        Some(i)
    } else {
        first_selectable(players, status, i + 1)
    }
}

/// The player to control where none was chosen: one that plays, else one that pauses, else any.
pub open spec fn initial_choice(players: Seq<PlayerEntry>) -> Option<Seq<char>> {
    let playing = first_selectable(players, Some(PlaybackStatus::Playing), 0);
    let paused = first_selectable(players, Some(PlaybackStatus::Paused), 0);
    let any = first_selectable(players, None, 0);
    if playing is Some {
        Some(players[playing->0].bus_name@)
    } else if paused is Some {
        Some(players[paused->0].bus_name@)
    } else if any is Some {
        Some(players[any->0].bus_name@)
    } else {
        None
    }
}

/// The player to control: the one chosen as long as it can be.
pub open spec fn choice(players: Seq<PlayerEntry>, active: Option<Seq<char>>) -> Option<Seq<char>> {
    if active matches Some(name) && can_select(players, name) {
        active
    } else {
        initial_choice(players)
    }
}

/// The players that are still on the bus.
pub open spec fn present(players: Seq<PlayerEntry>) -> Seq<PlayerEntry> {
    players.filter(|entry: PlayerEntry| entry.facts.has_owner)
}

/// The names of those of the first `n` players that can be controlled, in order.
pub open spec fn selectable_names(players: Seq<PlayerEntry>, n: nat) -> Seq<Seq<char>>
    decreases n,
{
    if n == 0 {
        Seq::empty()
    } else {
        let before = selectable_names(players, (n - 1) as nat);
        if players[n - 1].facts.selectable() {
            before.push(players[n - 1].bus_name@)
        } else {
            before
        }
    }
}

/// The position, from `i` on, of the player with the name.
pub open spec fn find_player(players: Seq<PlayerEntry>, name: Seq<char>, i: int) -> Option<int>
    decreases players.len() - i,
{
    if i < 0 || i >= players.len() {
        None
    } else if players[i].bus_name@ == name {
        Some(i)
    } else {
        find_player(players, name, i + 1)
    }
}

/// The position, from `i` on, of the name in a list.
pub open spec fn place_of(names: Seq<Seq<char>>, name: Seq<char>, i: int) -> Option<int>
    decreases names.len() - i,
{
    if i < 0 || i >= names.len() {
        None
    } else if names[i] == name {
        Some(i)
    } else {
        place_of(names, name, i + 1)
    }
}

/// A connection to a player that is to be made.
#[derive(Clone, Debug, PartialEq, Eq)]
pub struct PlayerRequest {
    pub bus_name: String,
    pub request_id: u64,
}

/// What the bar shows of the player.
#[derive(Clone, Debug, PartialEq, Eq)]
pub struct PlayerView {
    pub status: PlaybackStatus,
    pub source_count: usize,
    pub source_identity: String,
    pub capabilities: PlayerCapabilities,
    pub metadata: String,
    pub display_metadata: String,
}

/// What the user can do with the player.
#[derive(Clone, Copy, Debug, PartialEq, Eq, Structural)]
pub enum PlayerAction {
    Previous,
    PlayPause,
    Next,
    Raise,
}

impl PlayerAction {
    pub open spec fn method_name(self) -> Seq<char> {
        match self {
            PlayerAction::Previous => "Previous"@,
            PlayerAction::PlayPause => "PlayPause"@,
            PlayerAction::Next => "Next"@,
            PlayerAction::Raise => "Raise"@,
        }
    }

    pub fn method(self) -> (r: &'static str)
        ensures
            r@ == self.method_name(),
    {
        match self {
            PlayerAction::Previous => "Previous",
            PlayerAction::PlayPause => "PlayPause",
            PlayerAction::Next => "Next",
            PlayerAction::Raise => "Raise",
        }
    }

    pub open spec fn allowed(self, abilities: PlayerCapabilities) -> bool {
        match self {
            PlayerAction::Previous => abilities.previous,
            PlayerAction::PlayPause => abilities.play_pause,
            PlayerAction::Next => abilities.next,
            PlayerAction::Raise => abilities.raise,
        }
    }
}

/// A call to make; `on_root` tells the interface that raises the player's window from the one
/// that plays.
#[derive(Clone, Debug, PartialEq, Eq)]
pub struct PlayerCall {
    pub bus_name: String,
    pub method: &'static str,
    pub on_root: bool,
}

/// The players that are known and the one that is controlled.
pub struct PlayerState {
    pub players: Vec<PlayerEntry>,
    pub pending: PendingRequests,
    pub active_bus: Option<String>,
}

impl PlayerState {
    /// A player is there or is being connected to, not both.
    pub open spec fn wf(&self) -> bool {
        forall|i: int|
            0 <= i < self.players@.len() ==> self.pending.request(
                (#[trigger] self.players@[i]).bus_name@,
            ) is None
    }

    pub fn new() -> (r: Self)
        ensures
            r.wf(),
            r.players@.len() == 0,
            r.pending.last_id == 0,
            forall|name: Seq<char>| #[trigger] r.pending.request(name) is None,
            r.active_bus is None,
    {
        PlayerState { players: Vec::new(), pending: PendingRequests::new(), active_bus: None }
    }

    fn position(&self, bus_name: &str) -> (r: Option<usize>)
        ensures
            match r {
                Some(i) => i < self.players@.len() && find_player(self.players@, bus_name@, 0)
                    == Some(i as int) && self.players@[i as int].bus_name@ == bus_name@,
                None => find_player(self.players@, bus_name@, 0) is None,
            },
    {
        let mut i: usize = 0;
        while i < self.players.len()
            invariant
                i <= self.players@.len(),
                find_player(self.players@, bus_name@, 0) == find_player(
                    self.players@,
                    bus_name@,
                    i as int,
                ),
            decreases self.players@.len() - i,
        {
            if same(&self.players[i].bus_name, bus_name) {
                return Some(i);
            }
            i = i + 1;
        }
        None
    }

    /// Starts to connect to a player, unless it is there or being connected to.
    pub fn connect_player(&mut self, bus_name: &str) -> (r: Option<u64>)
        requires
            old(self).wf(),
        ensures
            final(self).wf(),
            final(self).players == old(self).players,
            final(self).active_bus == old(self).active_bus,
            if find_player(old(self).players@, bus_name@, 0) is Some || old(self).pending.request(
                bus_name@,
            ) is Some {
                r is None && *final(self) == *old(self)
            } else {
                &&& r == Some(following_request(old(self).pending.last_id))
                &&& final(self).pending.last_id == following_request(old(self).pending.last_id)
                &&& forall|n: Seq<char>|
                    #[trigger] final(self).pending.request(n) == (if n == bus_name@ {
                        r
                    } else {
                        old(self).pending.request(n)
                    })
            },
    {
        if self.position(bus_name).is_some() || self.pending.get(bus_name).is_some() {
            return None;
        }
        let id: u64 = self.pending.start(bus_name);
        proof {
            assert forall|i: int| 0 <= i < self.players@.len() implies self.pending.request(
                (#[trigger] self.players@[i]).bus_name@,
            ) is None by {
                not_found(self.players@, bus_name@, 0, i);
            }
        }
        Some(id)
    }

    /// Takes the names on the bus: starts to connect to each player that is new, in order.
    pub fn add_discovered_players(&mut self, names: &Vec<String>) -> (r: Vec<PlayerRequest>)
        requires
            old(self).wf(),
        ensures
            final(self).wf(),
            final(self).players == old(self).players,
            final(self).active_bus == old(self).active_bus,
            ascending(request_names(r@)),
            forall|n: Seq<char>| #[trigger]
                request_names(r@).contains(n) == is_new_player(*old(self), texts(names@), n),
            forall|n: Seq<char>|
                #[trigger] final(self).pending.request(n) is Some == (old(self).pending.request(
                    n,
                ) is Some || is_new_player(*old(self), texts(names@), n)),
            forall|i: int|
                0 <= i < r@.len() ==> final(self).pending.request(
                    (#[trigger] r@[i]).bus_name@,
                ) == Some(r@[i].request_id) && r@[i].request_id == later_request(
                    old(self).pending.last_id,
                    (i + 1) as nat,
                ),
            final(self).pending.last_id == later_request(old(self).pending.last_id, r@.len()),
            forall|n: Seq<char>|
                old(self).pending.request(n) is Some ==> #[trigger] final(self).pending.request(n)
                    == old(self).pending.request(n),
    {
        let mut wanted = TextSet::new();
        let mut i: usize = 0;
        while i < names.len()
            invariant
                i <= names@.len(),
                wanted.wf(),
                forall|n: Seq<char>| #[trigger]
                    wanted@.contains(n) == (begins_with(n, MPRIS_PREFIX@) && exists|k: int|
                        0 <= k < i && #[trigger] texts(names@)[k] == n),
            decreases names@.len() - i,
        {
            assert(texts(names@)[i as int] == names@[i as int]@);
            if starts_with(&names[i], MPRIS_PREFIX) {
                wanted.insert(names[i].clone());
            }
            i = i + 1;
        }
        let ghost list = texts(wanted.items@);
        assert forall|n: Seq<char>| #[trigger] list.contains(n) == (begins_with(n, MPRIS_PREFIX@)
            && texts(names@).contains(n)) by {
            assert(wanted@.contains(n) == list.contains(n));
        }
        let mut requests: Vec<PlayerRequest> = Vec::new();
        let mut i: usize = 0;
        while i < wanted.items.len()
            invariant
                self.wf(),
                wanted.wf(),
                list == texts(wanted.items@),
                self.players == old(self).players,
                self.active_bus == old(self).active_bus,
                i <= list.len(),
                ascending(request_names(requests@)),
                forall|n: Seq<char>| #[trigger]
                    request_names(requests@).contains(n) == (old(self).pending.request(n) is None
                        && find_player(old(self).players@, n, 0) is None && in_front(list, n, i as int)),
                forall|n: Seq<char>| #[trigger]
                    self.pending.request(n) is Some == (old(self).pending.request(n) is Some
                        || request_names(requests@).contains(n)),
                forall|k: int|
                    0 <= k < requests@.len() ==> self.pending.request(
                        (#[trigger] requests@[k]).bus_name@,
                    ) == Some(requests@[k].request_id) && requests@[k].request_id == later_request(
                        old(self).pending.last_id,
                        (k + 1) as nat,
                    ),
                self.pending.last_id == later_request(
                    old(self).pending.last_id,
                    requests@.len(),
                ),
                forall|n: Seq<char>|
                    old(self).pending.request(n) is Some ==> #[trigger] self.pending.request(n)
                        == old(self).pending.request(n),
            decreases list.len() - i,
        {
            let ghost before = request_names(requests@);
            let ghost prior = *self;
            let ghost prior_requests = requests@;
            let ghost name = list[i as int];
            assert(name == wanted.items@[i as int]@);
            let started = self.connect_player(&wanted.items[i]);
            assert(!before.contains(name)) by {
                if before.contains(name) {
                    assert(in_front(list, name, i as int));
                    let k = choose|k: int| 0 <= k < i && #[trigger] list[k] == name;
                    assert(list[k] != list[i as int]);
                }
            }
            if let Some(request_id) = started {
                requests.push(PlayerRequest { bus_name: wanted.items[i].clone(), request_id });
                assert(request_names(requests@) =~= before.push(name));
            }
            proof {
                let after = request_names(requests@);
                assert forall|n: Seq<char>| #[trigger]
                    after.contains(n) == (old(self).pending.request(n) is None && find_player(
                        old(self).players@,
                        n,
                        0,
                    ) is None && in_front(list, n, i as int + 1)) by {
                    in_front_step(list, n, i as int);
                    assert(before.contains(n) == (old(self).pending.request(n) is None
                        && find_player(old(self).players@, n, 0) is None && in_front(
                        list,
                        n,
                        i as int,
                    )));
                    assert(prior.pending.request(n) is Some == (old(self).pending.request(
                        n,
                    ) is Some || before.contains(n)));
                    if started is Some {
                        push_member(before, name, n);
                    }
                }
                assert forall|n: Seq<char>| #[trigger]
                    self.pending.request(n) is Some == (old(self).pending.request(n) is Some
                        || after.contains(n)) by {
                    assert(prior.pending.request(n) is Some == (old(self).pending.request(
                        n,
                    ) is Some || before.contains(n)));
                    if started is Some {
                        push_member(before, name, n);
                    }
                }
                assert(ascending(after)) by {
                    assert forall|a: int, b: int|
                        #![trigger after[a], after[b]]
                        0 <= a < b < after.len() implies after[a] != after[b] && text_le(
                        after[a],
                        after[b],
                    ) by {
                        if b < before.len() {
                            assert(before[a] != before[b] && text_le(before[a], before[b]));
                        } else {
                            assert(before.contains(before[a]));
                            assert(in_front(list, before[a], i as int));
                            let k = choose|k: int| 0 <= k < i && #[trigger] list[k] == before[a];
                            assert(list[k] != list[i as int] && text_le(list[k], list[i as int]));
                        }
                    }
                }
                assert forall|k: int| 0 <= k < requests@.len() implies self.pending.request(
                    (#[trigger] requests@[k]).bus_name@,
                ) == Some(requests@[k].request_id) && requests@[k].request_id == later_request(
                    old(self).pending.last_id,
                    (k + 1) as nat,
                ) by {
                    if k < prior_requests.len() {
                        assert(requests@[k] == prior_requests[k]);
                        assert(before[k] == prior_requests[k].bus_name@);
                        assert(before.contains(before[k]));
                    }
                }
                assert forall|n: Seq<char>| old(self).pending.request(n) is Some implies (
                #[trigger] self.pending.request(n)) == old(self).pending.request(n) by {
                    assert(prior.pending.request(n) == old(self).pending.request(n));
                }
            }
            i = i + 1;
        }
        proof {
            assert forall|n: Seq<char>| #[trigger]
                request_names(requests@).contains(n) == is_new_player(
                    *old(self),
                    texts(names@),
                    n,
                ) by {
                assert(in_front(list, n, list.len() as int) == list.contains(n)) by {
                    if list.contains(n) {
                        let k = choose|k: int| 0 <= k < list.len() && list[k] == n;
                        assert(list[k] == n);
                    }
                }
            }
        }
        requests
    }

    /// A player came to the bus or left it. One that came, or came back, is connected to.
    pub fn owner_changed(&mut self, bus_name: &str, has_owner: bool) -> (r: Option<u64>)
        requires
            old(self).wf(),
        ensures
            final(self).wf(),
            final(self).players@ == old(self).players@.filter(
                |entry: PlayerEntry| entry.bus_name@ != bus_name@,
            ),
            final(self).active_bus == old(self).active_bus,
            final(self).pending.last_id == (match r {
                Some(id) => id,
                None => old(self).pending.last_id,
            }),
            r == (if has_owner && old(self).pending.request(bus_name@) is None {
                Some(following_request(old(self).pending.last_id))
            } else {
                None
            }),
            forall|n: Seq<char>|
                #[trigger] final(self).pending.request(n) == (if n != bus_name@ {
                    old(self).pending.request(n)
                } else if !has_owner {
                    None
                } else if r is Some {
                    r
                } else {
                    old(self).pending.request(n)
                }),
    {
        let ghost keep = |entry: PlayerEntry| entry.bus_name@ != bus_name@;
        let ghost all = self.players@;
        let mut rest: Vec<PlayerEntry> = Vec::new();
        rest.append(&mut self.players);
        assert(rest@ =~= all);
        let mut kept: Vec<PlayerEntry> = Vec::new();
        let ghost mut done: int = 0;
        assert(all.take(0) =~= Seq::<PlayerEntry>::empty());
        while rest.len() > 0
            invariant
                keep == (|entry: PlayerEntry| entry.bus_name@ != bus_name@),
                0 <= done <= all.len(),
                rest@ =~= all.skip(done),
                kept@ =~= all.take(done).filter(keep),
                forall|i: int|
                    0 <= i < kept@.len() ==> (#[trigger] kept@[i]).bus_name@ != bus_name@
                        && all.contains(kept@[i]),
            decreases rest@.len(),
        {
            let entry = rest.remove(0);
            assert(entry == all[done]);
            assert(all.contains(entry));
            proof {
                all.take(done).lemma_filter_push(entry, keep);
                assert(all.take(done + 1) =~= all.take(done).push(entry));
                done = done + 1;
            }
            if !same(&entry.bus_name, bus_name) {
                kept.push(entry);
            }
        }
        assert(all.take(all.len() as int) =~= all);
        self.players = kept;
        proof {
            assert forall|i: int| 0 <= i < self.players@.len() implies self.pending.request(
                (#[trigger] self.players@[i]).bus_name@,
            ) is None by {
                assert(all.contains(self.players@[i]));
                let k = choose|k: int| 0 <= k < all.len() && all[k] == self.players@[i];
                assert(old(self).players@[k] == self.players@[i]);
            }
            found_nowhere(self.players@, bus_name@, 0);
        }
        if has_owner {
            self.connect_player(bus_name)
        } else {
            self.pending.remove(bus_name);
            None
        }
    }

    /// Takes what became of a connection: the facts of the player, where it is there. The answer
    /// says whether the player was added; one that plays is controlled from then on.
    pub fn finish_player_connection(
        &mut self,
        bus_name: String,
        request_id: u64,
        facts: Option<PlayerFacts>,
    ) -> (r: bool)
        requires
            old(self).wf(),
        ensures
            final(self).wf(),
            r == (old(self).pending.request(bus_name@) == Some(request_id) && (facts matches Some(f)
                && f.has_owner)),
            final(self).pending.last_id == old(self).pending.last_id,
            forall|n: Seq<char>|
                #[trigger] final(self).pending.request(n) == (if n == bus_name@ && old(
                    self).pending.request(n) == Some(request_id) {
                    None
                } else {
                    old(self).pending.request(n)
                }),
            if r {
                let entry = PlayerEntry { bus_name, facts: facts->0, known: facts->0.source() };
                &&& stably_sorted(old(self).players@.push(entry), final(self).players@)
                &&& opt_text(final(self).active_bus) == (if facts->0.source().plays() {
                    Some(bus_name@)
                } else {
                    opt_text(old(self).active_bus)
                })
            } else {
                final(self).players == old(self).players && final(self).active_bus == old(
                    self).active_bus
            },
    {
        if !self.pending.finish(&bus_name, request_id) {
            return false;
        }
        let facts = match facts {
            Some(facts) => facts,
            None => return false,
        };
        if !facts.has_owner {
            return false;
        }
        let state = facts.source_state();
        if became_playing(None, state) {
            self.active_bus = Some(bus_name.clone());
        }
        let ghost before = self.players@;
        let entry = PlayerEntry { bus_name, facts, known: state };
        let mut players: Vec<PlayerEntry> = Vec::new();
        players.append(&mut self.players);
        assert(players@ =~= before);
        players.push(entry);
        let ghost all = players@;
        self.players = stable_sort(players);
        proof {
            assert forall|i: int| 0 <= i < self.players@.len() implies self.pending.request(
                (#[trigger] self.players@[i]).bus_name@,
            ) is None by {
                let x = self.players@[i];
                assert(self.players@.contains(x));
                sorted_has_the_same_members(all, self.players@, x);
                let k = choose|k: int| 0 <= k < all.len() && all[k] == x;
                if k < before.len() {
                    assert(old(self).players@[k] == x);
                }
            }
        }
        true
    }

    /// Takes what a player says of itself now; one that started to play is controlled from then
    /// on. The answer says whether the player is known.
    pub fn player_properties_changed(&mut self, bus_name: &str, facts: PlayerFacts) -> (r: bool)
        requires
            old(self).wf(),
        ensures
            final(self).wf(),
            final(self).pending == old(self).pending,
            match find_player(old(self).players@, bus_name@, 0) {
                Some(i) => {
                    let before = old(self).players@[i];
                    &&& r
                    &&& final(self).players@ == old(self).players@.update(
                        i,
                        PlayerEntry { bus_name: before.bus_name, facts, known: facts.source() },
                    )
                    &&& opt_text(final(self).active_bus) == (if starts_playing(
                        Some(before.known),
                        facts.source(),
                    ) {
                        Some(bus_name@)
                    } else {
                        opt_text(old(self).active_bus)
                    })
                },
                None => !r && *final(self) == *old(self),
            },
    {
        let i: usize = match self.position(bus_name) {
            Some(i) => i,
            None => return false,
        };
        let ghost all = self.players@;
        let current = facts.source_state();
        let entry = self.players.remove(i);
        let started = became_playing(Some(entry.known), current);
        self.players.insert(i, PlayerEntry { bus_name: entry.bus_name, facts, known: current });
        if started {
            self.active_bus = Some(bus_name.to_owned());
        }
        proof {
            assert(self.players@ =~= all.update(
                i as int,
                PlayerEntry { bus_name: all[i as int].bus_name, facts, known: current },
            ));
            assert forall|k: int| 0 <= k < self.players@.len() implies self.pending.request(
                (#[trigger] self.players@[k]).bus_name@,
            ) is None by {
                assert(old(self).pending.request(old(self).players@[k].bus_name@) is None);
            }
        }
        true
    }

    /// Whether a change of the player's own properties is to be drawn: it is the one controlled.
    pub fn root_properties_changed(&self, bus_name: &str) -> (r: bool)
        ensures
            r == (opt_text(self.active_bus) == Some(bus_name@)),
    {
        match &self.active_bus {
            Some(active) => same(active, bus_name),
            None => false,
        }
    }

    /// Drops players that left the bus, and chooses another player where the one controlled
    /// cannot be any more.
    pub fn refresh(&mut self)
        requires
            old(self).wf(),
        ensures
            final(self).wf(),
            final(self).pending == old(self).pending,
            final(self).players@ == present(old(self).players@),
            opt_text(final(self).active_bus) == choice(
                present(old(self).players@),
                opt_text(old(self).active_bus),
            ),
    {
        self.prune_ownerless_players();
        self.ensure_active_bus();
    }

    fn prune_ownerless_players(&mut self)
        requires
            old(self).wf(),
        ensures
            final(self).wf(),
            final(self).pending == old(self).pending,
            final(self).active_bus == old(self).active_bus,
            final(self).players@ == present(old(self).players@),
    {
        let ghost keep = |entry: PlayerEntry| entry.facts.has_owner;
        let ghost all = self.players@;
        let mut rest: Vec<PlayerEntry> = Vec::new();
        rest.append(&mut self.players);
        assert(rest@ =~= all);
        let mut kept: Vec<PlayerEntry> = Vec::new();
        let ghost mut done: int = 0;
        assert(all.take(0) =~= Seq::<PlayerEntry>::empty());
        while rest.len() > 0
            invariant
                keep == (|entry: PlayerEntry| entry.facts.has_owner),
                0 <= done <= all.len(),
                rest@ =~= all.skip(done),
                kept@ =~= all.take(done).filter(keep),
                forall|i: int| 0 <= i < kept@.len() ==> all.contains(#[trigger] kept@[i]),
            decreases rest@.len(),
        {
            let entry = rest.remove(0);
            assert(entry == all[done]);
            assert(all.contains(entry));
            proof {
                all.take(done).lemma_filter_push(entry, keep);
                assert(all.take(done + 1) =~= all.take(done).push(entry));
                done = done + 1;
            }
            if entry.facts.has_owner {
                kept.push(entry);
            }
        }
        assert(all.take(all.len() as int) =~= all);
        self.players = kept;
        proof {
            assert forall|i: int| 0 <= i < self.players@.len() implies self.pending.request(
                (#[trigger] self.players@[i]).bus_name@,
            ) is None by {
                assert(all.contains(self.players@[i]));
                let k = choose|k: int| 0 <= k < all.len() && all[k] == self.players@[i];
                assert(old(self).players@[k] == self.players@[i]);
            }
        }
    }

    fn ensure_active_bus(&mut self)
        requires
            old(self).wf(),
        ensures
            final(self).wf(),
            final(self).pending == old(self).pending,
            final(self).players == old(self).players,
            opt_text(final(self).active_bus) == choice(
                old(self).players@,
                opt_text(old(self).active_bus),
            ),
    {
        let usable = match &self.active_bus {
            Some(active) => self.is_choosable(active),
            None => false,
        };
        if !usable {
            self.active_bus = self.pick_initial_bus();
        }
    }

    fn is_choosable(&self, name: &str) -> (r: bool)
        ensures
            r == can_select(self.players@, name@),
    {
        let mut i: usize = 0;
        while i < self.players.len()
            invariant
                i <= self.players@.len(),
                forall|k: int|
                    0 <= k < i ==> !((#[trigger] self.players@[k]).bus_name@ == name@
                        && self.players@[k].facts.selectable()),
            decreases self.players@.len() - i,
        {
            if same(&self.players[i].bus_name, name) && self.players[i].facts.is_selectable() {
                return true;
            }
            i = i + 1;
        }
        false
    }

    fn first_with(&self, status: Option<PlaybackStatus>) -> (r: Option<usize>)
        ensures
            match r {
                Some(i) => i < self.players@.len() && first_selectable(self.players@, status, 0)
                    == Some(i as int),
                None => first_selectable(self.players@, status, 0) is None,
            },
    {
        let mut i: usize = 0;
        while i < self.players.len()
            invariant
                i <= self.players@.len(),
                first_selectable(self.players@, status, 0) == first_selectable(
                    self.players@,
                    status,
                    i as int,
                ),
            decreases self.players@.len() - i,
        {
            let fits = match status {
                Some(status) => self.players[i].facts.status == status,
                None => true,
            };
            if self.players[i].facts.is_selectable() && fits {
                return Some(i);
            }
            i = i + 1;
        }
        None
    }

    fn pick_initial_bus(&self) -> (r: Option<String>)
        ensures
            opt_text(r) == initial_choice(self.players@),
    {
        if let Some(i) = self.first_with(Some(PlaybackStatus::Playing)) {
            return Some(self.players[i].bus_name.clone());
        }
        if let Some(i) = self.first_with(Some(PlaybackStatus::Paused)) {
            return Some(self.players[i].bus_name.clone());
        }
        if let Some(i) = self.first_with(None) {
            return Some(self.players[i].bus_name.clone());
        }
        None
    }

    fn selectable(&self) -> (r: Vec<String>)
        ensures
            texts(r@) == selectable_names(self.players@, self.players@.len()),
    {
        let mut out: Vec<String> = Vec::new();
        let mut i: usize = 0;
        assert(texts(out@) =~= Seq::<Seq<char>>::empty());
        while i < self.players.len()
            invariant
                i <= self.players@.len(),
                texts(out@) =~= selectable_names(self.players@, i as nat),
            decreases self.players@.len() - i,
        {
            if self.players[i].facts.is_selectable() {
                out.push(self.players[i].bus_name.clone());
            }
            i = i + 1;
        }
        out
    }

    /// The position of the player that is shown: the first of the name that can be controlled.
    pub open spec fn shown(players: Seq<PlayerEntry>, name: Seq<char>, i: int) -> Option<int>
        decreases players.len() - i,
    {
        if i < 0 || i >= players.len() {
            None
        } else if players[i].bus_name@ == name && players[i].facts.selectable() {
            Some(i)
        } else {
            Self::shown(players, name, i + 1)
        }
    }

    /// What the bar shows; nothing where no player can be controlled.
    pub fn current_view(&self) -> (r: Option<PlayerView>)
        ensures
            match self.active_bus {
                Some(active) => match Self::shown(self.players@, active@, 0) {
                    Some(i) => r matches Some(view) && {
                        let entry = self.players@[i];
                        &&& view.status == entry.facts.status
                        &&& view.source_count == selectable_names(
                            self.players@,
                            self.players@.len(),
                        ).len()
                        &&& view.source_identity@ == entry.identity_text()
                        &&& view.capabilities == entry.facts.abilities()
                        &&& view.metadata@ == entry.facts.track_text()
                        &&& view.display_metadata@ == truncated(
                            entry.facts.track_text(),
                            META_CHAR_LIMIT as nat,
                        )
                    },
                    None => r is None,
                },
                None => r is None,
            },
    {
        let active = match &self.active_bus {
            Some(active) => active,
            None => return None,
        };
        let names = self.selectable();
        assert(names@.len() == texts(names@).len());
        let mut i: usize = 0;
        while i < self.players.len()
            invariant
                self.active_bus matches Some(a) && a@ == active@,
                i <= self.players@.len(),
                texts(names@) == selectable_names(self.players@, self.players@.len()),
                names@.len() == texts(names@).len(),
                Self::shown(self.players@, active@, 0) == Self::shown(
                    self.players@,
                    active@,
                    i as int,
                ),
            decreases self.players@.len() - i,
        {
            let entry = &self.players[i];
            if same(&entry.bus_name, active) && entry.facts.is_selectable() {
                let metadata = entry.facts.metadata_text();
                let display_metadata = truncate_text(&metadata, META_CHAR_LIMIT);
                return Some(
                    PlayerView {
                        status: entry.facts.status,
                        source_count: names.len(),
                        source_identity: entry.identity(),
                        capabilities: entry.facts.capabilities(),
                        metadata,
                        display_metadata,
                    },
                );
            }
            i = i + 1;
        }
        None
    }

    /// Goes on by `offset` among the players that can be controlled, round the end.
    pub fn cycle_active(&mut self, offset: isize)
        requires
            old(self).wf(),
        ensures
            final(self).wf(),
            final(self).pending == old(self).pending,
            final(self).players == old(self).players,
            ({
                let names = selectable_names(old(self).players@, old(self).players@.len());
                if names.len() < 2 {
                    final(self).active_bus == old(self).active_bus
                } else {
                    let start = match choice(old(self).players@, opt_text(old(self).active_bus)) {
                        Some(name) => match place_of(names, name, 0) {
                            Some(i) => i,
                            None => 0,
                        },
                        None => 0,
                    };
                    opt_text(final(self).active_bus) == Some(
                        names[(start + offset) % (names.len() as int)],
                    )
                }
            }),
    {
        let names = self.selectable();
        let ghost list = texts(names@);
        assert(list.len() == names@.len());
        if names.len() < 2 {
            return ;
        }
        self.ensure_active_bus();
        let start: usize = match &self.active_bus {
            Some(active) => name_position(&names, active),
            None => 0,
        };
        let next: usize = turn(start, offset, names.len());
        self.active_bus = Some(names[next].clone());
        assert(list[next as int] == names@[next as int]@);
    }

    /// The call that an action makes on the player that is controlled, where it allows it.
    pub fn call_active(&self, action: PlayerAction) -> (r: Option<PlayerCall>)
        ensures
            match self.active_bus {
                Some(active) => match find_player(self.players@, active@, 0) {
                    Some(i) => if action.allowed(self.players@[i].facts.abilities()) {
                        r matches Some(call) && call.bus_name@ == active@ && call.method@
                            == action.method_name() && call.on_root == (action
                            == PlayerAction::Raise)
                    } else {
                        r is None
                    },
                    None => r is None,
                },
                None => r is None,
            },
    {
        let active = match &self.active_bus {
            Some(active) => active,
            None => return None,
        };
        let i: usize = match self.position(active) {
            Some(i) => i,
            None => return None,
        };
        let abilities = self.players[i].facts.capabilities();
        let allowed = match action {
            PlayerAction::Previous => abilities.previous,
            PlayerAction::PlayPause => abilities.play_pause,
            PlayerAction::Next => abilities.next,
            PlayerAction::Raise => abilities.raise,
        };
        if !allowed {
            return None;
        }
        Some(
            PlayerCall {
                bus_name: self.players[i].bus_name.clone(),
                method: action.method(),
                on_root: action == PlayerAction::Raise,
            },
        )
    }
}

/// The names of the players that are being connected to.
pub open spec fn request_names(requests: Seq<PlayerRequest>) -> Seq<Seq<char>> {
    requests.map_values(|request: PlayerRequest| request.bus_name@)
}

/// Whether a name on the bus is that of a player that is neither there nor being connected to.
pub open spec fn is_new_player(state: PlayerState, names: Seq<Seq<char>>, name: Seq<char>) -> bool {
    begins_with(name, MPRIS_PREFIX@) && names.contains(name) && find_player(
        state.players@,
        name,
        0,
    ) is None && state.pending.request(name) is None
}

spec fn in_front(list: Seq<Seq<char>>, name: Seq<char>, n: int) -> bool {
    exists|k: int| 0 <= k < n && #[trigger] list[k] == name
}

proof fn in_front_step(list: Seq<Seq<char>>, name: Seq<char>, i: int)
    requires
        0 <= i < list.len(),
    ensures
        in_front(list, name, i + 1) == (in_front(list, name, i) || list[i] == name),
{
    if in_front(list, name, i + 1) && list[i] != name {
        let k = choose|k: int| 0 <= k < i + 1 && #[trigger] list[k] == name;
        assert(k < i);
    }
}

proof fn push_member(list: Seq<Seq<char>>, x: Seq<char>, t: Seq<char>)
    ensures
        list.push(x).contains(t) == (list.contains(t) || t == x),
{
    if list.contains(t) {
        let i = choose|i: int| 0 <= i < list.len() && list[i] == t;
        assert(list.push(x)[i] == t);
    }
    assert(list.push(x)[list.len() as int] == x);
    if list.push(x).contains(t) && t != x {
        let i = choose|i: int| 0 <= i < list.push(x).len() && list.push(x)[i] == t;
        assert(list[i] == t);
    }
}

proof fn not_found(players: Seq<PlayerEntry>, name: Seq<char>, i: int, k: int)
    requires
        0 <= i <= k < players.len(),
        find_player(players, name, i) is None,
    ensures
        players[k].bus_name@ != name,
    decreases k - i,
{
    if i < k {
        not_found(players, name, i + 1, k);
    }
}

proof fn found_nowhere(players: Seq<PlayerEntry>, name: Seq<char>, i: int)
    requires
        0 <= i <= players.len(),
        forall|k: int| 0 <= k < players.len() ==> (#[trigger] players[k]).bus_name@ != name,
    ensures
        find_player(players, name, i) is None,
    decreases players.len() - i,
{
    if i < players.len() {
        found_nowhere(players, name, i + 1);
    }
}

fn name_position(names: &Vec<String>, name: &str) -> (r: usize)
    requires
        names@.len() > 0,
    ensures
        r < names@.len(),
        r == (match place_of(texts(names@), name@, 0) {
            Some(i) => i,
            None => 0,
        }),
{
    let mut i: usize = 0;
    while i < names.len()
        invariant
            names@.len() > 0,
            i <= names@.len(),
            place_of(texts(names@), name@, 0) == place_of(texts(names@), name@, i as int),
        decreases names@.len() - i,
    {
        if same(&names[i], name) {
            return i;
        }
        i = i + 1;
    }
    0
}

/// The place `offset` further on a round of `n`.
fn turn(start: usize, offset: isize, n: usize) -> (r: usize)
    requires
        start < n,
    ensures
        r == (start + offset) % (n as int),
        r < n,
{
    let size: u128 = n as u128;
    let forward: u128 = if offset >= 0 {
        (offset as u128) % size
    } else {
        let back: u128 = ((-(offset as i128)) as u128) % size;
        if back == 0 {
            0
        } else {
            size - back
        }
    };
    let sum: u128 = start as u128 + forward;
    let place: u128 = if sum >= size {
        sum - size
    } else {
        sum
    };
    proof {
        let m = n as int;
        let f = forward as int;
        vstd::arithmetic::div_mod::lemma_fundamental_div_mod(offset as int, m);
        if offset >= 0 {
            vstd::arithmetic::div_mod::lemma_fundamental_div_mod(offset as int, m);
            assert(f == offset as int % m);
            let q = offset as int / m;
            assert(start + offset == (q + (if sum >= size {
                1int
            } else {
                0int
            })) * m + (place as int)) by (nonlinear_arith)
                requires
                    offset as int == m * q + f,
                    sum as int == start + f,
                    m == size as int,
                    place as int == (if sum >= size {
                        sum - size
                    } else {
                        sum as int
                    }),
            ;
            vstd::arithmetic::div_mod::lemma_fundamental_div_mod_converse(
                (start + offset) as int,
                m,
                q + (if sum >= size {
                    1int
                } else {
                    0int
                }),
                place as int,
            );
        } else {
            let b = (-offset) as int;
            vstd::arithmetic::div_mod::lemma_fundamental_div_mod(b, m);
            let q = b / m;
            let k = if b % m == 0 {
                -q
            } else {
                -q - 1
            };
            let extra = if sum >= size {
                1int
            } else {
                0int
            };
            assert(start + offset == (k + extra) * m + (place as int)) by (nonlinear_arith)
                requires
                    offset as int == -b,
                    b == m * q + b % m,
                    k == (if b % m == 0 {
                        -q
                    } else {
                        -q - 1
                    }),
                    f == (if b % m == 0 {
                        0
                    } else {
                        m - b % m
                    }),
                    sum as int == start + f,
                    m == size as int,
                    extra == (if sum >= size {
                        1int
                    } else {
                        0int
                    }),
                    place as int == (if sum >= size {
                        sum - size
                    } else {
                        sum as int
                    }),
            ;
            vstd::arithmetic::div_mod::lemma_fundamental_div_mod_converse(
                (start + offset) as int,
                m,
                k + extra,
                place as int,
            );
        }
    }
    place as usize
}

/// One step on and one step back lead to the same player.
pub proof fn steps_can_be_undone(start: int, n: int)
    requires
        0 <= start < n,
    ensures
        ((start + 1) % n + (-1)) % n == start,
        ((start + (-1)) % n + 1) % n == start,
{
    if start + 1 < n {
        vstd::arithmetic::div_mod::lemma_small_mod((start + 1) as nat, n as nat);
        vstd::arithmetic::div_mod::lemma_small_mod(start as nat, n as nat);
    } else {
        vstd::arithmetic::div_mod::lemma_fundamental_div_mod_converse(n, n, 1, 0);
        vstd::arithmetic::div_mod::lemma_fundamental_div_mod_converse(-1, n, -1, n - 1);
    }
    if start > 0 {
        vstd::arithmetic::div_mod::lemma_small_mod((start - 1) as nat, n as nat);
        vstd::arithmetic::div_mod::lemma_small_mod(start as nat, n as nat);
    } else {
        vstd::arithmetic::div_mod::lemma_fundamental_div_mod_converse(-1, n, -1, n - 1);
        vstd::arithmetic::div_mod::lemma_fundamental_div_mod_converse(n, n, 1, 0);
    }
}

/// Whatever is chosen can be controlled, and nothing is chosen only where nothing can be.
pub proof fn choices_can_be_controlled(players: Seq<PlayerEntry>, active: Option<Seq<char>>)
    ensures
        choice(players, active) matches Some(name) ==> can_select(players, name),
        choice(players, active) is None ==> forall|i: int|
            0 <= i < players.len() ==> !(#[trigger] players[i]).facts.selectable(),
{
    first_is_selectable(players, Some(PlaybackStatus::Playing), 0);
    first_is_selectable(players, Some(PlaybackStatus::Paused), 0);
    first_is_selectable(players, None, 0);
}

proof fn first_is_selectable(players: Seq<PlayerEntry>, status: Option<PlaybackStatus>, i: int)
    requires
        0 <= i <= players.len(),
    ensures
        match first_selectable(players, status, i) {
            Some(k) => i <= k < players.len() && players[k].facts.selectable() && can_select(
                players,
                players[k].bus_name@,
            ),
            None => status is None ==> forall|k: int|
                i <= k < players.len() ==> !(#[trigger] players[k]).facts.selectable(),
        },
    decreases players.len() - i,
{
    if i < players.len() {
        first_is_selectable(players, status, i + 1);
    }
}

/// Each action sends the method of MPRIS that has its name, and no other action does.
pub proof fn actions_send_their_own_methods(action: PlayerAction, method: &'static str)
    requires
        call_ensures(PlayerAction::method, (action,), method),
    ensures
        (method@ == "Previous"@) == (action is Previous),
        (method@ == "PlayPause"@) == (action is PlayPause),
        (method@ == "Next"@) == (action is Next),
        (method@ == "Raise"@) == (action is Raise),
{
    reveal_strlit("Previous");
    reveal_strlit("PlayPause");
    reveal_strlit("Next");
    reveal_strlit("Raise");
    assert("Previous"@.len() == 8 && "PlayPause"@.len() == 9 && "Next"@.len() == 4);
    assert("Raise"@.len() == 5);
}

/// What is called is the method of the action asked for, on the player in front; raising a window
/// is asked of the player's own interface, the rest of the one that plays. A call is made exactly
/// where the player says that it can be.
pub proof fn calls_do_what_was_asked(
    state: PlayerState,
    action: PlayerAction,
    r: Option<PlayerCall>,
    i: int,
)
    requires
        call_ensures(PlayerState::call_active, (&state, action), r),
        state.active_bus is Some,
        find_player(state.players@, state.active_bus->0@, 0) == Some(i),
    ensures
        ({
            let facts = state.players@[i].facts;
            r is Some == match action {
                PlayerAction::Previous => facts.can_control && facts.can_go_previous,
                PlayerAction::Next => facts.can_control && facts.can_go_next,
                PlayerAction::PlayPause => facts.can_control && (if facts.status is Playing {
                    facts.can_pause
                } else {
                    facts.can_play
                }),
                PlayerAction::Raise => facts.can_raise,
            }
        }),
        r matches Some(call) ==> {
            &&& call.bus_name@ == state.active_bus->0@
            &&& (call.method@ == "Previous"@) == (action is Previous)
            &&& (call.method@ == "PlayPause"@) == (action is PlayPause)
            &&& (call.method@ == "Next"@) == (action is Next)
            &&& (call.method@ == "Raise"@) == (action is Raise)
            &&& call.on_root == (action is Raise)
        },
{
    reveal_strlit("Previous");
    reveal_strlit("PlayPause");
    reveal_strlit("Next");
    reveal_strlit("Raise");
    assert("Previous"@.len() == 8 && "PlayPause"@.len() == 9 && "Next"@.len() == 4);
    assert("Raise"@.len() == 5);
}

/// A player has the state that it names, and an unknown one where it names no other.
pub proof fn states_are_told_by_name(text: Option<&str>, r: PlaybackStatus)
    requires
        call_ensures(playback_status, (text,), r),
    ensures
        (r is Playing) == (opt_str(text) == Some("Playing"@)),
        (r is Paused) == (opt_str(text) == Some("Paused"@)),
        (r is Stopped) == (opt_str(text) == Some("Stopped"@)),
{
    reveal_strlit("Playing");
    reveal_strlit("Paused");
    reveal_strlit("Stopped");
    assert("Playing"@.len() == 7 && "Paused"@.len() == 6 && "Stopped"@.len() == 7);
    assert("Playing"@[0] != "Stopped"@[0]);
}

/// A player that cannot be controlled offers nothing but its window; each step is offered only
/// where the player says that it can be made.
pub proof fn offers_need_control(facts: PlayerFacts, r: PlayerCapabilities)
    requires
        call_ensures(PlayerFacts::capabilities, (&facts,), r),
    ensures
        !facts.can_control ==> !r.previous && !r.play_pause && !r.next,
        facts.can_control ==> r.previous == facts.can_go_previous && r.next == facts.can_go_next,
        facts.can_control && facts.status is Playing ==> r.play_pause == facts.can_pause,
        facts.can_control && !(facts.status is Playing) ==> r.play_pause == facts.can_play,
        r.raise == facts.can_raise,
{
}

/// A source starts to play where it plays and did not before; one that cannot be controlled never
/// does.
pub proof fn starts_are_told_from_going_on(
    previous: Option<PlayerSourceState>,
    current: PlayerSourceState,
    r: bool,
)
    requires
        call_ensures(became_playing, (previous, current), r),
    ensures
        r ==> current.selectable && current.status is Playing,
        previous == Some(current) ==> !r,
        previous is None ==> r == (current.selectable && current.status is Playing),
        previous matches Some(state) && (!state.selectable || !(state.status is Playing)) ==> r == (
        current.selectable && current.status is Playing),
{
}

proof fn solid_member(list: Seq<Seq<char>>, i: int)
    requires
        0 <= i < list.len(),
        trimmed(list[i]).len() > 0,
    ensures
        solid_texts(list).contains(trimmed(list[i])),
    decreases list.len(),
{
    let front = list.drop_last();
    let before = solid_texts(front);
    if i < list.len() - 1 {
        solid_member(front, i);
        assert(front[i] == list[i]);
        let k = choose|k: int| 0 <= k < before.len() && before[k] == trimmed(list[i]);
        assert(solid_texts(list)[k] == trimmed(list[i]));
    } else {
        assert(solid_texts(list).last() == trimmed(list[i]));
    }
}

/// The line of a player shows its title and each of its artists, the title last. Where it has
/// neither, it shows the player's name.
pub proof fn tracks_show_artists_and_title(facts: PlayerFacts, r: String, i: int)
    requires
        call_ensures(PlayerFacts::metadata_text, (&facts,), r),
    ensures
        facts.title matches Some(title) && trimmed(title@).len() > 0 ==> ends_with(
            r@,
            trimmed(facts.title->0@),
        ),
        facts.artists matches Some(artists) && 0 <= i < artists@.len() && trimmed(
            artists@[i]@,
        ).len() > 0 ==> has_text(r@, trimmed(facts.artists->0@[i]@)),
        facts.title is None && facts.artists is None && (facts.identity matches Some(name)
            && trimmed(name@).len() > 0) ==> r@ == trimmed(facts.identity->0@),
        r@.len() > 0,
{
    reveal_strlit("Now playing");
    if facts.title is Some && trimmed(facts.title->0@).len() > 0 {
        let title = trimmed(facts.title->0@);
        let at = r@.len() - title.len();
        assert(r@.subrange(at, at + title.len()) =~= title);
    }
    if facts.artists is Some && 0 <= i < facts.artists->0@.len() && trimmed(
        facts.artists->0@[i]@,
    ).len() > 0 {
        let list = texts(facts.artists->0@);
        let name = trimmed(list[i]);
        assert(list[i] == facts.artists->0@[i]@);
        solid_member(list, i);
        let solid = solid_texts(list);
        let k = choose|k: int| 0 <= k < solid.len() && solid[k] == name;
        joined_holds(solid, ", "@, k);
        let text = joined(solid, ", "@);
        let j = choose|j: int| occurs_at(text, name, j);
        assert(text.len() > 0);
        assert(facts.artist_text() == Some(text));
        assert(r@.subrange(j, j + name.len()) =~= text.subrange(j, j + name.len()));
        assert(occurs_at(r@, name, j));
    }
}

/// The player in front stays there as long as it can be controlled. Where it cannot be, one that
/// plays comes before one that pauses, and one that pauses before the rest.
pub proof fn playing_players_come_first(players: Seq<PlayerEntry>, active: Option<Seq<char>>, i: int)
    requires
        0 <= i < players.len(),
        players[i].facts.selectable(),
    ensures
        active matches Some(name) && can_select(players, name) ==> choice(players, active)
            == active,
        choice(players, active) is Some,
        !(active matches Some(name) && can_select(players, name)) && players[i].facts.status
            is Playing ==> exists|k: int|
            0 <= k < players.len() && (#[trigger] players[k]).facts.selectable()
                && players[k].facts.status is Playing && choice(players, active) == Some(
                players[k].bus_name@,
            ),
        !(active matches Some(name) && can_select(players, name)) && players[i].facts.status
            is Paused ==> exists|k: int|
            0 <= k < players.len() && (#[trigger] players[k]).facts.selectable() && (
            players[k].facts.status is Playing || players[k].facts.status is Paused) && choice(
                players,
                active,
            ) == Some(players[k].bus_name@),
{
    first_fits(players, Some(PlaybackStatus::Playing), 0, i);
    first_fits(players, Some(PlaybackStatus::Paused), 0, i);
    first_fits(players, None, 0, i);
}

proof fn first_fits(players: Seq<PlayerEntry>, status: Option<PlaybackStatus>, from: int, i: int)
    requires
        0 <= from <= i < players.len(),
    ensures
        match first_selectable(players, status, from) {
            Some(k) => from <= k < players.len() && players[k].facts.selectable() && (status is None
                || status == Some(players[k].facts.status)),
            None => !(players[i].facts.selectable() && (status is None || status == Some(
                players[i].facts.status,
            ))),
        },
    decreases players.len() - from,
{
    if from < i {
        first_fits(players, status, from + 1, i);
    } else if from + 1 < players.len() {
        first_fits(players, status, from + 1, from + 1);
    }
}

proof fn places_are_found(names: Seq<Seq<char>>, name: Seq<char>, from: int, k: int)
    requires
        0 <= from <= k < names.len(),
        names[k] == name,
        forall|j: int| from <= j < k ==> #[trigger] names[j] != name,
    ensures
        place_of(names, name, from) == Some(k),
    decreases k - from,
{
    if from < k {
        places_are_found(names, name, from + 1, k);
    }
}

/// Going on by a number of steps leads that many places further round the players that can be
/// controlled, and going back as many leads to the player where it began.
pub proof fn cycling_goes_round(
    state: &mut PlayerState,
    offset: isize,
    names: Seq<Seq<char>>,
    k: int,
    back: &mut PlayerState,
)
    requires
        names == selectable_names(old(state).players@, old(state).players@.len()),
        names.len() >= 2,
        0 <= k < names.len(),
        forall|i: int, j: int|
            #![trigger names[i], names[j]]
            0 <= i < j < names.len() ==> names[i] != names[j],
        opt_text(old(state).active_bus) == Some(names[k]),
        isize::MIN < offset,
        call_ensures(PlayerState::cycle_active, (state, offset), ()),
        *old(back) == *final(state),
        call_ensures(PlayerState::cycle_active, (back, (-offset) as isize), ()),
    ensures
        opt_text(final(state).active_bus) == Some(names[(k + offset) % (names.len() as int)]),
        opt_text(final(back).active_bus) == Some(names[k]),
        offset == 1 ==> opt_text(final(state).active_bus) != opt_text(old(state).active_bus),
{
    let n = names.len() as int;
    let players = old(state).players@;
    let place = (k + offset) % n;
    names_can_be_selected(players, players.len(), k);
    places_are_found(names, names[k], 0, k);
    assert(0 <= place < n);
    names_can_be_selected(players, players.len(), place);
    places_are_found(names, names[place], 0, place);
    vstd::arithmetic::div_mod::lemma_add_mod_noop(k + offset, -offset, n);
    vstd::arithmetic::div_mod::lemma_add_mod_noop(place, -offset, n);
    vstd::arithmetic::div_mod::lemma_mod_twice(k + offset, n);
    vstd::arithmetic::div_mod::lemma_small_mod(k as nat, n as nat);
    if offset == 1 {
        if k + 1 < n {
            vstd::arithmetic::div_mod::lemma_small_mod((k + 1) as nat, n as nat);
        } else {
            vstd::arithmetic::div_mod::lemma_mod_self_0(n);
        }
        assert(place != k);
    }
}

proof fn names_can_be_selected(players: Seq<PlayerEntry>, n: nat, k: int)
    requires
        n <= players.len(),
        0 <= k < selectable_names(players, n).len(),
    ensures
        can_select(players, selectable_names(players, n)[k]),
    decreases n,
{
    let before = selectable_names(players, (n - 1) as nat);
    if k < before.len() {
        names_can_be_selected(players, (n - 1) as nat, k);
    } else {
        assert(players[n - 1].bus_name@ == selectable_names(players, n)[k]);
    }
}

/// A player that was connected to and is there is added, in the order of the names, and is
/// controlled at once where it plays; an answer that is not the newest is dropped.
pub proof fn connected_players_are_added(
    state: &mut PlayerState,
    bus_name: String,
    request_id: u64,
    facts: Option<PlayerFacts>,
    r: bool,
)
    requires
        call_ensures(
            PlayerState::finish_player_connection,
            (state, bus_name, request_id, facts),
            r,
        ),
    ensures
        r ==> old(state).pending.request(bus_name@) == Some(request_id) && facts is Some
            && facts->0.has_owner,
        old(state).pending.request(bus_name@) == Some(request_id) && facts is Some
            && facts->0.has_owner ==> r,
        !r ==> final(state).players == old(state).players && final(state).active_bus == old(
            state,
        ).active_bus,
        r ==> final(state).players@.len() == old(state).players@.len() + 1,
        r ==> exists|i: int|
            0 <= i < final(state).players@.len() && (#[trigger] final(state).players@[i]).bus_name
                == bus_name && final(state).players@[i].facts == facts->0,
        r && facts->0.status is Playing && facts->0.can_control && facts->0.can_pause ==> opt_text(
            final(state).active_bus,
        ) == Some(bus_name@),
        r && !(facts->0.status is Playing) ==> opt_text(final(state).active_bus) == opt_text(
            old(state).active_bus,
        ),
{
    if r {
        let entry = PlayerEntry { bus_name, facts: facts->0, known: facts->0.source() };
        let all = old(state).players@.push(entry);
        assert(all[all.len() - 1] == entry);
        assert(all.contains(entry));
        sorted_has_the_same_members(all, final(state).players@, entry);
        let i = choose|i: int|
            0 <= i < final(state).players@.len() && final(state).players@[i] == entry;
        assert(final(state).players@[i].bus_name == bus_name);
        all.to_multiset_ensures();
        final(state).players@.to_multiset_ensures();
    }
}

/// A player that left the bus is gone, and one that came is connected to unless it is already; the
/// other players stay.
pub proof fn players_come_and_go(
    state: &mut PlayerState,
    bus_name: &str,
    has_owner: bool,
    r: Option<u64>,
    i: int,
)
    requires
        call_ensures(PlayerState::owner_changed, (state, bus_name, has_owner), r),
        0 <= i < old(state).players@.len(),
    ensures
        (r is Some) == (has_owner && old(state).pending.request(bus_name@) is None),
        r matches Some(id) ==> final(state).pending.request(bus_name@) == Some(id),
        !has_owner ==> final(state).pending.request(bus_name@) is None,
        final(state).players@.contains(old(state).players@[i]) == (old(state).players@[i].bus_name@
            != bus_name@),
{
    let keep = |entry: PlayerEntry| entry.bus_name@ != bus_name@;
    let all = old(state).players@;
    let kept = all.filter(keep);
    let entry = all[i];
    assert(all.contains(entry));
    all.filter_lemma(keep);
    if keep(entry) {
        all.lemma_filter_contains(keep, i);
    } else if kept.contains(entry) {
        let k = choose|k: int| 0 <= k < kept.len() && kept[k] == entry;
        assert(keep(kept[k]));
    }
    assert(final(state).pending.request(bus_name@) == final(state).pending.request(bus_name@));
}

/// A player that started to play is controlled from then on; one that did not changes nothing of
/// that.
pub proof fn starting_players_take_over(
    state: &mut PlayerState,
    bus_name: &str,
    facts: PlayerFacts,
    r: bool,
    i: int,
)
    requires
        call_ensures(PlayerState::player_properties_changed, (state, bus_name, facts), r),
        0 <= i < old(state).players@.len(),
        old(state).players@[i].bus_name@ == bus_name@,
        forall|j: int| 0 <= j < i ==> (#[trigger] old(state).players@[j]).bus_name@ != bus_name@,
    ensures
        r,
        final(state).players@[i].facts == facts,
        final(state).players@[i].bus_name@ == bus_name@,
        facts.status is Playing && facts.has_owner && facts.can_control && facts.can_pause && !(old(
            state,
        ).players@[i].known.status is Playing) ==> opt_text(final(state).active_bus) == Some(
            bus_name@,
        ),
        !(facts.status is Playing) ==> opt_text(final(state).active_bus) == opt_text(
            old(state).active_bus,
        ),
        old(state).players@[i].known.plays() ==> opt_text(final(state).active_bus) == opt_text(
            old(state).active_bus,
        ),
{
    players_are_found(old(state).players@, bus_name@, 0, i);
}

proof fn players_are_found(players: Seq<PlayerEntry>, name: Seq<char>, from: int, i: int)
    requires
        0 <= from <= i < players.len(),
        players[i].bus_name@ == name,
        forall|j: int| from <= j < i ==> (#[trigger] players[j]).bus_name@ != name,
    ensures
        find_player(players, name, from) == Some(i),
    decreases i - from,
{
    if from < i {
        players_are_found(players, name, from + 1, i);
    }
}

proof fn shown_is_active(players: Seq<PlayerEntry>, name: Seq<char>, from: int)
    requires
        0 <= from,
    ensures
        PlayerState::shown(players, name, from) matches Some(i) ==> from <= i < players.len()
            && players[i].bus_name@ == name && players[i].facts.selectable(),
    decreases players.len() - from,
{
    if from < players.len() {
        shown_is_active(players, name, from + 1);
    }
}

/// What the bar shows is a player of the name that is controlled: its status, its name, what it
/// plays, in no more than eighty characters, and only where it can be controlled.
pub proof fn bars_show_the_active_player(state: &PlayerState, r: Option<PlayerView>)
    requires
        call_ensures(PlayerState::current_view, (state,), r),
    ensures
        r matches Some(view) ==> state.active_bus is Some && exists|i: int|
            0 <= i < state.players@.len() && (#[trigger] state.players@[i]).bus_name@
                == state.active_bus->0@ && state.players@[i].facts.can_control
                && state.players@[i].facts.has_owner && view.status == state.players@[i].facts.status
                && view.capabilities.next == state.players@[i].facts.can_go_next
                && view.capabilities.previous == state.players@[i].facts.can_go_previous
                && view.source_identity@ == state.players@[i].identity_text() && view.metadata@
                == state.players@[i].facts.track_text(),
        r matches Some(view) ==> view.display_metadata@.len() <= 80 && (view.metadata@.len() <= 80
            ==> view.display_metadata@ == view.metadata@),
        r matches Some(view) ==> view.source_count >= 1,
        state.active_bus is None ==> r is None,
{
    if r is Some {
        let name = state.active_bus->0@;
        shown_is_active(state.players@, name, 0);
        let i = PlayerState::shown(state.players@, name, 0)->0;
        assert(state.players@[i].bus_name@ == name);
        some_names(state.players@, state.players@.len(), i);
    }
}

proof fn some_names(players: Seq<PlayerEntry>, n: nat, i: int)
    requires
        0 <= i < n <= players.len(),
        players[i].facts.selectable(),
    ensures
        selectable_names(players, n).len() >= 1,
    decreases n,
{
    if i < n - 1 {
        some_names(players, (n - 1) as nat, i);
    }
}

/// A player is called by what it calls itself, else by its name on the bus without the part that
/// all players share.
pub proof fn players_are_called_by_their_names(entry: PlayerEntry, r: String, rest: Seq<char>)
    requires
        call_ensures(PlayerEntry::identity, (&entry,), r),
    ensures
        entry.facts.identity matches Some(name) ==> (trimmed(name@).len() > 0 ==> r@ == trimmed(
            name@,
        )),
        entry.facts.identity is None && entry.bus_name@ == "org.mpris.MediaPlayer2."@ + rest ==> r@
            == rest,
{
    let prefix = "org.mpris.MediaPlayer2."@;
    assert(prefix == MPRIS_PREFIX@);
    parts_show(prefix, rest, Seq::empty());
    assert((prefix + rest).skip(prefix.len() as int) =~= rest);
}

/// A text that is too long keeps its beginning and ends in an ellipsis; another stays as it is.
pub proof fn long_texts_end_in_an_ellipsis(value: &str, limit: usize, r: String)
    requires
        call_ensures(truncate_text, (value, limit), r),
    ensures
        value@.len() <= limit ==> r@ == value@,
        value@.len() > limit ==> r@.len() == limit,
        value@.len() > limit && limit > 0 ==> r@.last() == '…' && begins_with(
            value@,
            r@.drop_last(),
        ),
{
    if value@.len() > limit && limit > 0 {
        let kept = value@.take(limit - 1);
        assert(r@.drop_last() =~= kept);
        assert(value@.subrange(0, limit - 1) =~= kept);
    }
}

/// After a refresh every player is on the bus, the one that is controlled can be, and it is the
/// same as before where that still can be.
pub proof fn refreshed_players_can_be_controlled(state: &mut PlayerState, i: int)
    requires
        call_ensures(PlayerState::refresh, (state,), ()),
        0 <= i < final(state).players@.len(),
    ensures
        final(state).players@[i].facts.has_owner,
        old(state).players@.contains(final(state).players@[i]),
        final(state).active_bus matches Some(name) ==> can_select(final(state).players@, name@),
        final(state).active_bus is None ==> !final(state).players@[i].facts.selectable(),
        old(state).active_bus matches Some(name) ==> (can_select(final(state).players@, name@)
            ==> opt_text(final(state).active_bus) == Some(name@)),
{
    let on_bus = |entry: PlayerEntry| entry.facts.has_owner;
    let all = old(state).players@;
    all.filter_lemma(on_bus);
    let kept = present(all);
    assert(on_bus(kept[i]));
    all.lemma_filter_contains_rev(on_bus, kept[i]);
    choices_can_be_controlled(kept, opt_text(old(state).active_bus));
}

/// A name on the bus is connected to exactly where it is that of a player and new.
pub proof fn new_players_are_connected_to(
    state: &mut PlayerState,
    names: Vec<String>,
    r: Vec<PlayerRequest>,
    name: Seq<char>,
)
    requires
        call_ensures(PlayerState::add_discovered_players, (state, &names), r),
        request_names(r@).contains(name),
    ensures
        begins_with(name, "org.mpris.MediaPlayer2."@),
        texts(names@).contains(name),
        old(state).pending.request(name) is None,
        final(state).pending.request(name) is Some,
        forall|i: int|
            0 <= i < old(state).players@.len() ==> (#[trigger] old(state).players@[i]).bus_name@
                != name,
{
    assert(is_new_player(*old(state), texts(names@), name));
    assert(MPRIS_PREFIX@ == "org.mpris.MediaPlayer2."@);
    assert forall|i: int| 0 <= i < old(state).players@.len() implies (#[trigger] old(
        state,
    ).players@[i]).bus_name@ != name by {
        not_found(old(state).players@, name, 0, i);
    }
    assert(final(state).pending.request(name) is Some);
}

/// Between the artists and the title stands a dash, and commas stand between the artists.
pub proof fn dashes_part_artists_from_titles(facts: PlayerFacts, r: String, artist: String, title: String)
    requires
        call_ensures(PlayerFacts::metadata_text, (&facts,), r),
        facts.artists is Some,
        facts.artists->0@.len() == 1,
        facts.artists->0@[0] == artist,
        facts.title == Some(title),
        trimmed(artist@).len() > 0,
        trimmed(title@).len() > 0,
    ensures
        r@ == trimmed(artist@) + " — "@ + trimmed(title@),
{
    let list = texts(facts.artists->0@);
    assert(list.len() == 1);
    assert(list[0] == artist@);
    assert(list.last() == artist@);
    assert(list.drop_last() =~= Seq::<Seq<char>>::empty());
    assert(solid_texts(Seq::<Seq<char>>::empty()) =~= Seq::<Seq<char>>::empty());
    assert(solid_texts(list) =~= seq![trimmed(artist@)]);
}

/// How players are reached on the bus.
pub proof fn players_are_reached_by_these_names()
    ensures
        MPRIS_PREFIX@ == "org.mpris.MediaPlayer2."@,
        META_CHAR_LIMIT == 80,
{
}

/// The order of the players is that of their names on the bus.
pub proof fn players_stand_in_the_order_of_their_names(
    state: &mut PlayerState,
    bus_name: String,
    request_id: u64,
    facts: Option<PlayerFacts>,
    i: int,
    j: int,
)
    requires
        call_ensures(
            PlayerState::finish_player_connection,
            (state, bus_name, request_id, facts),
            true,
        ),
        0 <= i < j < final(state).players@.len(),
    ensures
        text_le(final(state).players@[i].bus_name@, final(state).players@[j].bus_name@),
{
    assert(final(state).players@[i].le(&final(state).players@[j]));
}

/// A player is connected to where it is neither there nor being connected to; a change of its own
/// looks is drawn where it is the one controlled; and it can be controlled only on the bus.
pub proof fn known_players_are_not_connected_to_again(
    state: &mut PlayerState,
    bus_name: &str,
    r: Option<u64>,
    again: &mut PlayerState,
    second: Option<u64>,
    draws: bool,
    facts: PlayerFacts,
    selectable: bool,
    source: PlayerSourceState,
    plays: bool,
)
    requires
        call_ensures(PlayerState::connect_player, (state, bus_name), r),
        *old(again) == *final(state),
        call_ensures(PlayerState::connect_player, (again, bus_name), second),
        call_ensures(PlayerState::root_properties_changed, (final(state), bus_name), draws),
        call_ensures(PlayerFacts::is_selectable, (&facts,), selectable),
        call_ensures(PlayerFacts::source_state, (&facts,), source),
        call_ensures(PlayerSourceState::is_playing, (&source,), plays),
    ensures
        second is None,
        r matches Some(id) ==> final(state).pending.request(bus_name@) == Some(id),
        old(state).pending.request(bus_name@) is Some ==> r is None,
        draws == (old(state).active_bus is Some && old(state).active_bus->0@ == bus_name@),
        selectable ==> facts.has_owner && facts.can_control,
        facts.has_owner && facts.can_control && facts.can_go_next ==> selectable,
        source.status == facts.status && source.selectable == selectable,
        plays == (selectable && facts.status is Playing),
{
    if r is Some {
        assert(final(state).pending.request(bus_name@) == r);
    }
}

/// A change of a player that is not there changes nothing, and one of a player that is there is
/// drawn.
pub proof fn changes_of_unknown_players_do_not_matter(
    state: &mut PlayerState,
    bus_name: &str,
    facts: PlayerFacts,
    r: bool,
    i: int,
)
    requires
        call_ensures(PlayerState::player_properties_changed, (state, bus_name, facts), r),
        0 <= i < old(state).players@.len(),
    ensures
        !r ==> *final(state) == *old(state) && old(state).players@[i].bus_name@ != bus_name@,
        final(state).players@.len() == old(state).players@.len(),
        old(state).players@[i].bus_name@ != bus_name@ ==> final(state).players@[i] == old(
            state,
        ).players@[i],
{
    let before = old(state).players@;
    found_players_have_the_name(before, bus_name@, 0);
    if find_player(before, bus_name@, 0) is None {
        not_found(before, bus_name@, 0, i);
    }
}

proof fn found_players_have_the_name(players: Seq<PlayerEntry>, name: Seq<char>, i: int)
    requires
        0 <= i <= players.len(),
    ensures
        find_player(players, name, i) matches Some(k) ==> i <= k < players.len()
            && players[k].bus_name@ == name,
    decreases players.len() - i,
{
    if i < players.len() && players[i].bus_name@ != name {
        found_players_have_the_name(players, name, i + 1);
    }
}

} // verus!
