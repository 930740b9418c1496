//! The display that shows changes of the volume, and what makes it appear.
use crate::gate::{bumped, Generation};
use crate::text::{begins_with, concat2, opt_str, same, signed_decimal, signed_numeral, starts_with};
use vstd::prelude::*;

verus! {

/// How long the display is shown, in milliseconds.
pub const AUTO_HIDE_DELAY_MS: u64 = 1_200;

/// How long changes made by this program do not show the display, in milliseconds.
pub const LOCAL_CHANGE_SUPPRESS_MS: u64 = 900;

/// A volume as far as its display goes.
#[derive(Clone, Copy, Debug, PartialEq, Eq, Structural)]
pub struct VolumeKey {
    pub percent: i32,
    pub muted: bool,
}

/// What to do with a volume that was read.
#[derive(Clone, Copy, Debug, PartialEq, Eq, Structural)]
pub enum VolumeStep {
    /// Take the value over without showing the display.
    Keep,
    Present,
}

/// The state of the display.
#[derive(Clone, Copy, Debug, PartialEq, Eq, Structural)]
pub struct OsdState {
    pub last_volume: Option<VolumeKey>,
    pub suppress_until: Option<u64>,
    pub hide_generation: Generation,
    pub event_refresh_pending: bool,
    pub running: bool,
}

impl OsdState {
    pub fn new() -> (r: Self)
        ensures
            r.last_volume is None,
            r.suppress_until is None,
            r.running,
            !r.event_refresh_pending,
            r.hide_generation.value == 0,
    {
        OsdState {
            last_volume: None,
            suppress_until: None,
            hide_generation: Generation { value: 0 },
            event_refresh_pending: false,
            running: true,
        }
    }

    /// A change by this program is about to be made at `now`.
    pub fn suppress_local_audio_change(&mut self, now: u64)
        requires
            now <= u64::MAX - LOCAL_CHANGE_SUPPRESS_MS,
        ensures
            *final(self) == (OsdState {
                suppress_until: Some((now + LOCAL_CHANGE_SUPPRESS_MS) as u64),
                ..*old(self)
            }),
    {
        self.suppress_until = Some(now + LOCAL_CHANGE_SUPPRESS_MS);
    }

    /// Whether changes do not show the display at `now`.
    pub open spec fn suppressed(&self, now: u64) -> bool {
        self.suppress_until matches Some(until) && now < until
    }

    fn is_suppressed(&mut self, now: u64) -> (r: bool)
        ensures
            r == old(self).suppressed(now),
            *final(self) == (OsdState {
                suppress_until: if r {
                    old(self).suppress_until
                } else {
                    None
                },
                ..*old(self)
            }),
    {
        match self.suppress_until {
            Some(until) => if now < until {
                true
            } else {
                self.suppress_until = None;
                false
            },
            None => false,
        }
    }

    /// Whether a volume differs from the one known before.
    pub open spec fn changes(&self, key: VolumeKey) -> bool {
        self.last_volume matches Some(last) && last != key
    }

    /// Takes a volume that was read at `now`. The display appears for a change, where `notify`
    /// and where the change was not made by this program.
    pub fn apply_volume(&mut self, key: VolumeKey, notify: bool, now: u64) -> (r: VolumeStep)
        ensures
            r == (if old(self).changes(key) && notify && !old(self).suppressed(now) {
                VolumeStep::Present
            } else {
                VolumeStep::Keep
            }),
            *final(self) == (OsdState {
                last_volume: Some(key),
                suppress_until: if old(self).changes(key) && notify && !old(self).suppressed(now) {
                    None
                } else {
                    old(self).suppress_until
                },
                ..*old(self)
            }),
    {
        let previous = self.last_volume;
        self.last_volume = Some(key);
        let changed = match previous {
            Some(last) => last != key,
            None => false,
        };
        if changed && notify && !self.is_suppressed(now) {
            VolumeStep::Present
        } else {
            VolumeStep::Keep
        }
    }

    /// The display appears; the returned value marks the time it is shown.
    pub fn present(&mut self) -> (r: u64)
        ensures
            r == bumped(old(self).hide_generation.value, 1),
            *final(self) == (OsdState {
                hide_generation: Generation { value: r },
                ..*old(self)
            }),
    {
        self.hide_generation.bump()
    }

    /// Whether the display is to go when its time is over.
    pub fn hides(&self, token: u64) -> (r: bool)
        ensures
            r == (self.running && self.hide_generation.value == token),
    {
        self.running && self.hide_generation.value == token
    }

    /// Something happened to the audio devices; the answer says whether to read the volume when
    /// idle.
    pub fn schedule_event_refresh(&mut self) -> (r: bool)
        ensures
            r == !old(self).event_refresh_pending,
            *final(self) == (OsdState { event_refresh_pending: true, ..*old(self) }),
    {
        let first = !self.event_refresh_pending;
        self.event_refresh_pending = true;
        first
    }

    /// The program is idle; the answer says whether to read the volume.
    pub fn begin_event_refresh(&mut self) -> (r: bool)
        ensures
            r == old(self).running,
            *final(self) == (OsdState { event_refresh_pending: false, ..*old(self) }),
    {
        self.event_refresh_pending = false;
        self.running
    }

    /// Ends the display for good; the answer says whether it was running.
    pub fn shutdown(&mut self) -> (r: bool)
        ensures
            r == old(self).running,
            *final(self) == (if old(self).running {
                OsdState {
                    running: false,
                    event_refresh_pending: false,
                    hide_generation: Generation {
                        value: bumped(old(self).hide_generation.value, 1),
                    },
                    ..*old(self)
                }
            } else {
                *old(self)
            }),
    {
        if !self.running {
            return false;
        }
        self.running = false;
        self.event_refresh_pending = false;
        self.present();
        true
    }
}

/// The first volume that is read, and one that is read again, never show the display.
pub proof fn known_volumes_stay_silent(state: OsdState, key: VolumeKey)
    requires
        state.last_volume is None || state.last_volume == Some(key),
    ensures
        !state.changes(key),
{
}

pub fn osd_title(muted: bool) -> (r: &'static str)
    ensures
        r@ == (if muted {
            "Sound muted"@
        } else {
            "Volume"@
        }),
{
    if muted {
        "Sound muted"
    } else {
        "Volume"
    }
}

pub fn percent_text(percent: i32) -> (r: String)
    ensures
        r@ == signed_decimal(percent as int) + "%"@,
{
    let number = signed_numeral(percent as i64);
    concat2(&number, "%")
}

/// Whether a node of PipeWire is an audio sink.
pub fn is_audio_sink_class(media_class: Option<&str>) -> (r: bool)
    ensures
        r == (media_class matches Some(class) && begins_with(class@, "Audio/Sink"@)),
{
    match media_class {
        Some(class) => starts_with(class, "Audio/Sink"),
        None => false,
    }
}

/// Whether metadata of PipeWire can be that of the defaults.
pub fn is_default_metadata(metadata_name: Option<&str>) -> (r: bool)
    ensures
        r == (metadata_name is None || opt_str(metadata_name) == Some("default"@)),
{
    match metadata_name {
        Some(name) => same(name, "default"),
        None => true,
    }
}

/// Whether a key of metadata can be about the sink in use.
pub fn is_default_sink_key(key: Option<&str>) -> (r: bool)
    ensures
        r == (key is None || opt_str(key) == Some("default.audio.sink"@) || opt_str(key) == Some(
            "default.configured.audio.sink"@,
        )),
{
    match key {
        Some(key) => same(key, "default.audio.sink") || same(key, "default.configured.audio.sink"),
        None => true,
    }
}

/// The display appears exactly for a change that is to be told and that this program did not make
/// itself, and whatever was read is known from then on.
pub proof fn foreign_changes_are_shown(
    state: &mut OsdState,
    key: VolumeKey,
    notify: bool,
    now: u64,
    r: VolumeStep,
)
    requires
        call_ensures(OsdState::apply_volume, (state, key, notify, now), r),
    ensures
        final(state).last_volume == Some(key),
        final(state).running == old(state).running,
        !notify ==> r is Keep,
        old(state).last_volume is None ==> r is Keep,
        old(state).last_volume == Some(key) ==> r is Keep,
        old(state).suppress_until matches Some(until) && now < until ==> r is Keep,
        notify && (old(state).last_volume matches Some(last) && last != key) && (
        old(state).suppress_until matches Some(until) ==> now >= until) ==> r is Present,
{
}

/// A change that this program makes is not shown for a while, and is after it.
pub proof fn own_changes_are_not_shown(state: &mut OsdState, now: u64, later: u64)
    requires
        call_ensures(OsdState::suppress_local_audio_change, (state, now), ()),
        now <= u64::MAX - 900,
    ensures
        now <= later < now + 900 ==> final(state).suppressed(later),
        later >= now + 900 ==> !final(state).suppressed(later),
        final(state).last_volume == old(state).last_volume,
{
}

/// A display that appears again stays: only the newest time counts, and none once it has ended.
pub proof fn newest_appearance_counts(state: &mut OsdState, r: u64, token: u64, hides: bool)
    requires
        call_ensures(OsdState::present, (state,), r),
        call_ensures(OsdState::hides, (final(state), token), hides),
    ensures
        hides == (final(state).running && token == r),
        token == old(state).hide_generation.value ==> !hides,
{
}

/// What the display says: a title that tells whether the sound is muted, and the percentage.
pub proof fn display_tells_the_volume(muted: bool, title: &'static str, percent: i32, text: String)
    requires
        call_ensures(osd_title, (muted,), title),
        call_ensures(percent_text, (percent,), text),
    ensures
        (title@ == "Sound muted"@) == muted,
        (title@ == "Volume"@) == !muted,
        begins_with(text@, signed_decimal(percent as int)),
        text@.len() == signed_decimal(percent as int).len() + 1,
        text@.last() == '%',
{
    reveal_strlit("Sound muted");
    reveal_strlit("Volume");
    reveal_strlit("%");
    assert("Sound muted"@.len() == 11 && "Volume"@.len() == 6);
    let n = signed_decimal(percent as int);
    assert(text@.subrange(0, n.len() as int) =~= n);
}

/// Which events of PipeWire matter: those of nodes whose class begins as that of an audio sink,
/// those of the default metadata, and of these those about the sink in use.
pub proof fn sink_events_matter(
    class: Option<&str>,
    name: Option<&str>,
    key: Option<&str>,
    is_sink: bool,
    is_default: bool,
    is_key: bool,
)
    requires
        call_ensures(is_audio_sink_class, (class,), is_sink),
        call_ensures(is_default_metadata, (name,), is_default),
        call_ensures(is_default_sink_key, (key,), is_key),
    ensures
        is_sink == (class is Some && begins_with(class->0@, "Audio/Sink"@)),
        opt_str(class) == Some("Audio/Source"@) ==> !is_sink,
        is_default == (name is None || name->0@ == "default"@),
        is_key == (key is None || key->0@ == "default.audio.sink"@ || key->0@
            == "default.configured.audio.sink"@),
{
    reveal_strlit("Audio/Sink");
    reveal_strlit("Audio/Source");
    if opt_str(class) == Some("Audio/Source"@) {
        let s = class->0@;
        if begins_with(s, "Audio/Sink"@) {
            assert(s.subrange(0, 10)[7] == "Audio/Sink"@[7]);
        }
    }
}

/// Events are answered by one read when the program is idle, and by none once the display has
/// ended.
pub proof fn events_are_read_once(
    first: &mut OsdState,
    asks: bool,
    second: &mut OsdState,
    again: bool,
    idle: &mut OsdState,
    reads: bool,
    next: &mut OsdState,
    later: bool,
    ended: &mut OsdState,
    was_running: bool,
    late: &mut OsdState,
    still: bool,
    token: u64,
    hides: bool,
)
    requires
        !old(first).event_refresh_pending,
        call_ensures(OsdState::schedule_event_refresh, (first,), asks),
        *old(second) == *final(first),
        call_ensures(OsdState::schedule_event_refresh, (second,), again),
        *old(idle) == *final(second),
        call_ensures(OsdState::begin_event_refresh, (idle,), reads),
        *old(next) == *final(idle),
        call_ensures(OsdState::schedule_event_refresh, (next,), later),
        *old(ended) == *final(next),
        call_ensures(OsdState::shutdown, (ended,), was_running),
        *old(late) == *final(ended),
        call_ensures(OsdState::begin_event_refresh, (late,), still),
        call_ensures(OsdState::hides, (final(ended), token), hides),
    ensures
        asks && !again,
        reads == old(first).running,
        later,
        was_running == old(first).running,
        !still && !hides,
{
}

} // verus!
