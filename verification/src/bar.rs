//! The bar itself: how it slides in and out, and which bars there are.
use crate::gate::{bumped, Generation};
use crate::text::same;
use vstd::prelude::*;

verus! {

/// The gap above the bar while it is shown.
pub const BAR_VISIBLE_TOP_MARGIN: i32 = 4;

/// The height of the bar.
pub const BAR_FALLBACK_HEIGHT: i32 = 42;

/// The margin at which the lower edge of the bar is at the top of the output.
pub const BAR_HIDDEN_TOP_MARGIN: i32 = -42;

/// How long to wait before the bar appears, in milliseconds.
pub const BAR_STARTUP_DELAY_MS: u64 = 1_000;

/// How long to wait for more changes before bars are hidden or shown, in milliseconds.
pub const FULLSCREEN_SYNC_DELAY_MS: u64 = 75;

/// A hidden bar reserves nothing: its lower edge is at the top of the output.
pub proof fn hidden_bars_reserve_nothing()
    ensures
        BAR_HIDDEN_TOP_MARGIN + BAR_FALLBACK_HEIGHT == 0,
        BAR_HIDDEN_TOP_MARGIN < BAR_VISIBLE_TOP_MARGIN,
{
}

/// Why a bar cannot be made.
#[derive(Clone, Copy, Debug, PartialEq, Eq, Structural)]
pub enum BarError {
    LayerShellUnsupported,
}

impl BarError {
    pub fn message(self) -> (r: &'static str)
        ensures
            r@ == "the current Wayland compositor does not support layer-shell"@,
    {
        "the current Wayland compositor does not support layer-shell"
    }
}

/// Where a bar is on its way in or out.
#[derive(Clone, Copy, Debug, PartialEq, Eq, Structural)]
pub struct BarSlide {
    pub generation: Generation,
    pub target_hidden: bool,
    pub started: bool,
    pub startup_complete: bool,
    pub applied_margin: i32,
}

/// A slide that is to be made.
#[derive(Clone, Copy, Debug, PartialEq, Eq, Structural)]
pub struct SlidePlan {
    pub hidden: bool,
    /// The margin at the end.
    pub target_margin: i32,
    /// The value that marks the slide; it stops when this is stale.
    pub generation: u64,
    /// Whether popups close.
    pub dismiss: bool,
}

impl BarSlide {
    pub open spec fn margin_for(hidden: bool) -> i32 {
        if hidden {
            BAR_HIDDEN_TOP_MARGIN
        } else {
            BAR_VISIBLE_TOP_MARGIN
        }
    }

    /// The bar with a slide begun.
    pub open spec fn sliding(self) -> Self {
        BarSlide { generation: Generation { value: bumped(self.generation.value, 1) }, ..self }
    }

    pub fn new() -> (r: Self)
        ensures
            r == (BarSlide {
                generation: Generation { value: 0 },
                target_hidden: false,
                started: false,
                startup_complete: false,
                applied_margin: BAR_HIDDEN_TOP_MARGIN,
            }),
    {
        BarSlide {
            generation: Generation { value: 0 },
            target_hidden: false,
            started: false,
            startup_complete: false,
            applied_margin: BAR_HIDDEN_TOP_MARGIN,
        }
    }

    /// The bar is put on screen; the answer says whether to start the wait for its first slide.
    pub fn present(&mut self) -> (r: bool)
        ensures
            r == !old(self).started,
            *final(self) == (BarSlide { started: true, ..*old(self) }),
    {
        let first = !self.started;
        self.started = true;
        first
    }

    fn slide(&mut self, hidden: bool, dismiss: bool) -> (r: SlidePlan)
        ensures
            *final(self) == old(self).sliding(),
            r == (SlidePlan {
                hidden,
                target_margin: BarSlide::margin_for(hidden),
                generation: final(self).generation.value,
                dismiss,
            }),
    {
        let generation: u64 = self.generation.bump();
        SlidePlan {
            hidden,
            target_margin: if hidden {
                BAR_HIDDEN_TOP_MARGIN
            } else {
                BAR_VISIBLE_TOP_MARGIN
            },
            generation,
            dismiss,
        }
    }

    /// The wait for the first slide is over.
    pub fn startup_elapsed(&mut self) -> (r: Option<SlidePlan>)
        ensures
            if old(self).started && !old(self).startup_complete {
                &&& *final(self) == (BarSlide { startup_complete: true, ..old(self).sliding() })
                &&& r == Some(
                    SlidePlan {
                        hidden: old(self).target_hidden,
                        target_margin: BarSlide::margin_for(old(self).target_hidden),
                        generation: final(self).generation.value,
                        dismiss: false,
                    },
                )
            } else {
                r is None && *final(self) == *old(self)
            },
    {
        if !self.started || self.startup_complete {
            return None;
        }
        self.startup_complete = true;
        let hidden = self.target_hidden;
        Some(self.slide(hidden, false))
    }

    /// The bar is to be hidden or shown. Before its first slide only the wish is noted.
    pub fn set_hidden(&mut self, hidden: bool) -> (r: Option<SlidePlan>)
        ensures
            if old(self).started && old(self).startup_complete && old(self).target_hidden
                != hidden {
                &&& *final(self) == (BarSlide { target_hidden: hidden, ..old(self).sliding() })
                &&& r == Some(
                    SlidePlan {
                        hidden,
                        target_margin: BarSlide::margin_for(hidden),
                        generation: final(self).generation.value,
                        dismiss: hidden,
                    },
                )
            } else {
                r is None && *final(self) == (BarSlide { target_hidden: hidden, ..*old(self) })
            },
    {
        let changed = self.target_hidden != hidden;
        self.target_hidden = hidden;
        if !self.started || !self.startup_complete || !changed {
            return None;
        }
        Some(self.slide(hidden, hidden))
    }

    /// The bar goes for good: any slide stops.
    pub fn close(&mut self)
        ensures
            *final(self) == (BarSlide { started: false, ..old(self).sliding() }),
    {
        self.started = false;
        self.generation.bump();
    }

    /// Whether a slide goes on.
    pub fn goes_on(&self, generation: u64) -> (r: bool)
        ensures
            r == (self.generation.value == generation),
    {
        self.generation.is_current(generation)
    }

    /// The margin, in whole pixels, is to be `margin`; the answer says whether that is new.
    pub fn apply_margin(&mut self, margin: i32) -> (r: bool)
        ensures
            r == (old(self).applied_margin != margin),
            *final(self) == (BarSlide { applied_margin: margin, ..*old(self) }),
    {
        let changed = self.applied_margin != margin;
        self.applied_margin = margin;
        changed
    }

    /// Whether the launcher can open on the bar.
    pub fn takes_launcher(&self) -> (r: bool)
        ensures
            r == !self.target_hidden,
    {
        !self.target_hidden
    }
}

/// A closed bar does not slide in when the wait for its first slide ends.
pub proof fn closed_bars_stay(before: BarSlide, after: BarSlide)
    requires
        after == (BarSlide { started: false, ..before.sliding() }),
    ensures
        !after.started,
        after.generation.value != before.generation.value,
{
}

/// The position of the first bar, from `i` on, on which the launcher can open.
pub open spec fn launcher_bar_from(bars: Seq<BarSlide>, i: int) -> Option<int>
    decreases bars.len() - i,
{
    if i < 0 || i >= bars.len() {
        None
    } else if !bars[i].target_hidden {
        Some(i)
    } else {
        launcher_bar_from(bars, i + 1)
    }
}

/// Finds the bar on which the launcher opens.
pub fn launcher_bar(bars: &Vec<BarSlide>) -> (r: Option<usize>)
    ensures
        match r {
            Some(i) => launcher_bar_from(bars@, 0) == Some(i as int),
            None => launcher_bar_from(bars@, 0) is None,
        },
{
    let mut i: usize = 0;
    while i < bars.len()
        invariant
            i <= bars@.len(),
            launcher_bar_from(bars@, 0) == launcher_bar_from(bars@, i as int),
        decreases bars@.len() - i,
    {
        if bars[i].takes_launcher() {
            return Some(i);
        }
        i = i + 1;
    }
    None
}

/// The other panels, which close when panel `index` of `n` opens.
pub fn other_panels(n: usize, index: usize) -> (r: Vec<usize>)
    requires
        index < n,
    ensures
        r@ == Seq::new((n - 1) as nat, |i: int| if i < index {
            i as usize
        } else {
            (i + 1) as usize
        }),
{
    let mut out: Vec<usize> = Vec::new();
    let mut i: usize = 0;
    while i < n
        invariant
            i <= n,
            index < n,
            out@ =~= Seq::new(
                if i <= index {
                    i as nat
                } else {
                    (i - 1) as nat
                },
                |k: int| if k < index {
                    k as usize
                } else {
                    (k + 1) as usize
                },
            ),
        decreases n - i,
    {
        if i != index {
            out.push(i);
        }
        i = i + 1;
    }
    out
}

/// Whether one of the arguments behind the program's own name asks for the launcher.
pub open spec fn names_launcher(arguments: Seq<String>) -> bool {
    exists|i: int| 1 <= i < arguments.len() && (#[trigger] arguments[i])@ == "launcher"@
}

/// Whether the program was called to show the launcher.
pub fn wants_launcher(arguments: &Vec<String>) -> (r: bool)
    ensures
        r == names_launcher(arguments@),
{
    let mut i: usize = 1;
    while i < arguments.len()
        invariant
            1 <= i,
            forall|k: int| 1 <= k < i && k < arguments@.len() ==> (#[trigger] arguments@[k])@
                != "launcher"@,
        decreases arguments@.len() - i,
    {
        if same(&arguments[i], "launcher") {
            return true;
        }
        i = i + 1;
    }
    false
}

/// Which bars stay and which are made when the outputs change. Outputs are told apart by number.
pub struct MonitorPlan {
    /// For each bar whether it stays.
    pub keep: Vec<bool>,
    /// The positions of the outputs that get a bar.
    pub create: Vec<usize>,
}

/// Whether output `i` has no bar and is not listed before.
pub open spec fn needs_bar(bars: Seq<u64>, monitors: Seq<u64>, i: int) -> bool {
    !bars.contains(monitors[i]) && forall|j: int| 0 <= j < i ==> #[trigger] monitors[j]
        != monitors[i]
}

/// The positions below `n` of the outputs that get a bar.
pub open spec fn missing_bars(bars: Seq<u64>, monitors: Seq<u64>, n: nat) -> Seq<usize>
    decreases n,
{
    if n == 0 {
        Seq::empty()
    } else {
        let before = missing_bars(bars, monitors, (n - 1) as nat);
        if needs_bar(bars, monitors, n - 1) {
            before.push((n - 1) as usize)
        } else {
            before
        }
    }
}

fn has_number(list: &Vec<u64>, upto: usize, number: u64) -> (r: bool)
    requires
        upto <= list@.len(),
    ensures
        r == exists|i: int| 0 <= i < upto && #[trigger] list@[i] == number,
{
    let mut i: usize = 0;
    while i < upto
        invariant
            i <= upto <= list@.len(),
            forall|k: int| 0 <= k < i ==> #[trigger] list@[k] != number,
        decreases upto - i,
    {
        if list[i] == number {
            return true;
        }
        i = i + 1;
    }
    false
}

/// Plans the bars for the outputs. `bars` holds the output of each bar.
pub fn sync_monitors(bars: &Vec<u64>, monitors: &Vec<u64>) -> (r: MonitorPlan)
    ensures
        r.keep@.len() == bars@.len(),
        forall|i: int|
            0 <= i < bars@.len() ==> #[trigger] r.keep@[i] == monitors@.contains(bars@[i]),
        r.create@ == missing_bars(bars@, monitors@, monitors@.len()),
{
    let mut keep: Vec<bool> = Vec::new();
    let mut i: usize = 0;
    while i < bars.len()
        invariant
            i <= bars@.len(),
            keep@.len() == i,
            forall|k: int| 0 <= k < i ==> #[trigger] keep@[k] == monitors@.contains(bars@[k]),
        decreases bars@.len() - i,
    {
        keep.push(has_number(monitors, monitors.len(), bars[i]));
        i = i + 1;
    }
    let mut create: Vec<usize> = Vec::new();
    let mut i: usize = 0;
    while i < monitors.len()
        invariant
            i <= monitors@.len(),
            create@ == missing_bars(bars@, monitors@, i as nat),
        decreases monitors@.len() - i,
    {
        let number: u64 = monitors[i];
        let known = has_number(bars, bars.len(), number);
        let listed = has_number(monitors, i, number);
        assert(known == bars@.contains(number));
        assert(needs_bar(bars@, monitors@, i as int) == (!known && !listed));
        if !known && !listed {
            create.push(i);
        }
        i = i + 1;
    }
    MonitorPlan { keep, create }
}

/// After the plan is carried out each output has a bar.
pub proof fn every_output_has_a_bar(bars: Seq<u64>, monitors: Seq<u64>, n: nat, i: int)
    requires
        0 <= i < n <= monitors.len() <= usize::MAX,
    ensures
        bars.contains(monitors[i]) || exists|k: int|
            0 <= k < missing_bars(bars, monitors, n).len() && monitors[(
            #[trigger] missing_bars(bars, monitors, n)[k]) as int] == monitors[i],
    decreases n, i,
{
    let list = missing_bars(bars, monitors, n);
    let before = missing_bars(bars, monitors, (n - 1) as nat);
    if !bars.contains(monitors[i]) {
        if i < n - 1 {
            every_output_has_a_bar(bars, monitors, (n - 1) as nat, i);
            let k = choose|k: int|
                0 <= k < before.len() && monitors[(#[trigger] before[k]) as int] == monitors[i];
            assert(list[k] == before[k]);
        } else if needs_bar(bars, monitors, i) {
            assert(list[before.len() as int] == i as usize);
        } else {
            let j = choose|j: int| 0 <= j < i && #[trigger] monitors[j] == monitors[i];
            every_output_has_a_bar(bars, monitors, (n - 1) as nat, j);
            let k = choose|k: int|
                0 <= k < before.len() && monitors[(#[trigger] before[k]) as int] == monitors[j];
            assert(list[k] == before[k]);
        }
    }
}

/// What the program remembers across its bars.
#[derive(Clone, Copy, Debug, PartialEq, Eq, Structural)]
pub struct ShellState {
    pub shutting_down: bool,
    pub fullscreen_sync: Generation,
}

impl ShellState {
    pub fn new() -> (r: Self)
        ensures
            !r.shutting_down,
            r.fullscreen_sync.value == 0,
    {
        ShellState { shutting_down: false, fullscreen_sync: Generation { value: 0 } }
    }

    /// Windows or workspaces changed; the returned value marks the wait for more changes.
    pub fn schedule_fullscreen_sync(&mut self) -> (r: u64)
        ensures
            r == bumped(old(self).fullscreen_sync.value, 1),
            *final(self) == (ShellState {
                fullscreen_sync: Generation { value: r },
                ..*old(self)
            }),
    {
        self.fullscreen_sync.bump()
    }

    /// Whether the bars are to be hidden or shown now that a wait is over.
    pub fn syncs(&self, token: u64) -> (r: bool)
        ensures
            r == (!self.shutting_down && self.fullscreen_sync.value == token),
    {
        !self.shutting_down && self.fullscreen_sync.is_current(token)
    }

    /// The program ends; the answer says whether it does so for the first time.
    pub fn shutdown(&mut self) -> (r: bool)
        ensures
            r == !old(self).shutting_down,
            *final(self) == (if r {
                ShellState {
                    shutting_down: true,
                    fullscreen_sync: Generation {
                        value: bumped(old(self).fullscreen_sync.value, 1),
                    },
                }
            } else {
                *old(self)
            }),
    {
        if self.shutting_down {
            return false;
        }
        self.shutting_down = true;
        self.fullscreen_sync.bump();
        true
    }
}

/// Whether the keyboard's layout is shown: not while it is unknown.
pub fn shows_layout(layout: &str) -> (r: bool)
    ensures
        r == (layout@ != "--"@),
{
    !same(layout, "--")
}

/// A bar slides once it was put on screen and has waited, to the margin that its wish asks for: four
/// pixels below the edge to be seen, and its own height above it to be hidden. Popups close when it
/// hides.
pub proof fn bars_slide_as_asked(
    bar: &mut BarSlide,
    waits: bool,
    ready: &mut BarSlide,
    first: Option<SlidePlan>,
    changed: &mut BarSlide,
    hidden: bool,
    r: Option<SlidePlan>,
    goes_on: bool,
    stale: bool,
    takes: bool,
)
    requires
        !old(bar).startup_complete,
        call_ensures(BarSlide::present, (bar,), waits),
        *old(ready) == *final(bar),
        call_ensures(BarSlide::startup_elapsed, (ready,), first),
        *old(changed) == *final(ready),
        call_ensures(BarSlide::set_hidden, (changed, hidden), r),
        call_ensures(BarSlide::goes_on, (final(changed), final(changed).generation.value), goes_on),
        first is Some,
        call_ensures(BarSlide::goes_on, (final(changed), first->0.generation), stale),
        call_ensures(BarSlide::takes_launcher, (final(changed),), takes),
    ensures
        waits == !old(bar).started,
        first->0.hidden == old(bar).target_hidden && !first->0.dismiss,
        first->0.target_margin == (if old(bar).target_hidden {
            -42i32
        } else {
            4i32
        }),
        (r is Some) == (hidden != old(bar).target_hidden),
        r matches Some(plan) ==> plan.hidden == hidden && plan.dismiss == hidden
            && plan.target_margin == (if hidden {
            -42i32
        } else {
            4i32
        }) && plan.generation == final(changed).generation.value,
        goes_on,
        stale == (r is None),
        takes == !hidden,
{
}

proof fn first_shown_bar(bars: Seq<BarSlide>, from: int)
    requires
        0 <= from,
    ensures
        match launcher_bar_from(bars, from) {
            Some(i) => from <= i < bars.len() && !bars[i].target_hidden && forall|j: int|
                from <= j < i ==> (#[trigger] bars[j]).target_hidden,
            None => forall|j: int| from <= j < bars.len() ==> (#[trigger] bars[j]).target_hidden,
        },
    decreases bars.len() - from,
{
    if from < bars.len() {
        first_shown_bar(bars, from + 1);
    }
}

/// The launcher opens on the first bar that is not hidden, and on none where all are.
pub proof fn launchers_open_on_shown_bars(bars: Vec<BarSlide>, r: Option<usize>, j: int)
    requires
        call_ensures(launcher_bar, (&bars,), r),
        0 <= j < bars@.len(),
    ensures
        r matches Some(i) ==> i < bars@.len() && !bars@[i as int].target_hidden,
        !bars@[j].target_hidden ==> (r matches Some(i) && i <= j),
{
    first_shown_bar(bars@, 0);
}

/// The panels that close are all but the one that opens.
pub proof fn other_panels_close(n: usize, index: usize, r: Vec<usize>, panel: usize)
    requires
        index < n,
        call_ensures(other_panels, (n, index), r),
    ensures
        r@.len() == n - 1,
        r@.contains(panel) == (panel < n && panel != index),
{
    if panel < n && panel != index {
        let i = if panel < index {
            panel as int
        } else {
            panel - 1
        };
        assert(r@[i] == panel);
    }
    if r@.contains(panel) {
        let i = choose|i: int| 0 <= i < r@.len() && r@[i] == panel;
        assert(i < index || i + 1 == panel);
    }
}

/// The program shows the launcher where one of its arguments, its own name aside, asks for it.
pub proof fn launchers_are_asked_for_by_name(arguments: Vec<String>, r: bool, i: int)
    requires
        call_ensures(wants_launcher, (&arguments,), r),
        1 <= i < arguments@.len(),
    ensures
        arguments@[i]@ == "launcher"@ ==> r,
        (forall|j: int| 1 <= j < arguments@.len() ==> (#[trigger] arguments@[j])@ != "launcher"@)
            ==> !r,
{
}

/// A bar stays exactly where its output is still there, and an output without a bar gets one.
pub proof fn outputs_get_their_bars(bars: Vec<u64>, monitors: Vec<u64>, r: MonitorPlan, i: int, k: int)
    requires
        call_ensures(sync_monitors, (&bars, &monitors), r),
        0 <= i < bars@.len(),
        0 <= k < monitors@.len(),
        monitors@.len() <= usize::MAX,
    ensures
        r.keep@[i] == monitors@.contains(bars@[i]),
        bars@.contains(monitors@[k]) ==> !r.create@.contains(k as usize),
        !bars@.contains(monitors@[k]) && (forall|j: int|
            0 <= j < k ==> #[trigger] monitors@[j] != monitors@[k]) ==> r.create@.contains(
            k as usize,
        ),
{
    missing_are_those(bars@, monitors@, monitors@.len(), k);
}

proof fn missing_are_those(bars: Seq<u64>, monitors: Seq<u64>, n: nat, k: int)
    requires
        n <= monitors.len() <= usize::MAX,
        0 <= k < monitors.len(),
    ensures
        missing_bars(bars, monitors, n).contains(k as usize) == (k < n && needs_bar(
            bars,
            monitors,
            k,
        )),
    decreases n,
{
    let all = missing_bars(bars, monitors, n);
    if n > 0 {
        missing_are_those(bars, monitors, (n - 1) as nat, k);
        let before = missing_bars(bars, monitors, (n - 1) as nat);
        if all.contains(k as usize) {
            let i = choose|i: int| 0 <= i < all.len() && all[i] == k as usize;
            if i < before.len() {
                assert(before[i] == k as usize);
            }
        }
        if k < n && needs_bar(bars, monitors, k) {
            if k == n - 1 {
                assert(all[all.len() - 1] == k as usize);
            } else {
                let i = choose|i: int| 0 <= i < before.len() && before[i] == k as usize;
                assert(all[i] == k as usize);
            }
        }
    }
}

/// Of many changes in a row the last one alone hides or shows the bars, and none does once the
/// program ends.
pub proof fn last_change_counts(
    first: &mut ShellState,
    early: u64,
    second: &mut ShellState,
    late: u64,
    ended: &mut ShellState,
    first_time: bool,
    stale: bool,
    syncs: bool,
    after: bool,
)
    requires
        call_ensures(ShellState::schedule_fullscreen_sync, (first,), early),
        *old(second) == *final(first),
        call_ensures(ShellState::schedule_fullscreen_sync, (second,), late),
        *old(ended) == *final(second),
        call_ensures(ShellState::shutdown, (ended,), first_time),
        call_ensures(ShellState::syncs, (final(second), early), stale),
        call_ensures(ShellState::syncs, (final(second), late), syncs),
        call_ensures(ShellState::syncs, (final(ended), late), after),
    ensures
        !stale,
        syncs == !old(first).shutting_down,
        !after,
        final(ended).shutting_down,
        first_time == !old(first).shutting_down,
{
}

/// A layout is shown unless it is not known.
pub proof fn unknown_layouts_are_not_shown(layout: &str, r: bool)
    requires
        call_ensures(shows_layout, (layout,), r),
    ensures
        r == (layout@ != "--"@),
{
}

/// A bar begins above the edge of the screen, a margin that it has already is not set again, and a
/// bar that was closed goes on with no slide.
pub proof fn bars_begin_out_of_sight(
    fresh: BarSlide,
    shown: &mut BarSlide,
    margin: i32,
    sets: bool,
    same: &mut BarSlide,
    again: bool,
    closed: &mut BarSlide,
    goes_on: bool,
    presented: &mut BarSlide,
    waits: bool,
    shell: ShellState,
    ends: &mut ShellState,
    first: bool,
    late: &mut ShellState,
    second: bool,
)
    requires
        call_ensures(BarSlide::new, (), fresh),
        *old(shown) == fresh,
        call_ensures(BarSlide::apply_margin, (shown, margin), sets),
        *old(same) == *final(shown),
        call_ensures(BarSlide::apply_margin, (same, margin), again),
        call_ensures(BarSlide::close, (closed,), ()),
        call_ensures(BarSlide::goes_on, (final(closed), old(closed).generation.value), goes_on),
        *old(presented) == fresh,
        call_ensures(BarSlide::present, (presented,), waits),
        call_ensures(ShellState::new, (), shell),
        *old(ends) == shell,
        call_ensures(ShellState::shutdown, (ends,), first),
        *old(late) == *final(ends),
        call_ensures(ShellState::shutdown, (late,), second),
    ensures
        fresh.applied_margin < 0 && !fresh.target_hidden,
        sets == (margin != fresh.applied_margin),
        !again,
        !goes_on,
        waits,
        first && !second,
{
}

} // verus!
