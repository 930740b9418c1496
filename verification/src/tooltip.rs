//! Tooltips: when they appear, for which widget, and where.
use crate::gate::{bumped, Generation};
use crate::text::{non_empty, opt_str, trimmed};
use vstd::prelude::*;

verus! {

/// How long the pointer rests before a tooltip appears, in milliseconds.
pub const TOOLTIP_SHOW_DELAY_MS: u64 = 420;

/// The gap between a widget and its tooltip.
pub const TOOLTIP_GAP: i32 = 13;

/// The gap between a tooltip and the edge of the screen.
pub const SCREEN_PADDING: i32 = 12;

/// What a tooltip says: its text where that is not blank, else its markup.
pub open spec fn content_of(text: Option<Seq<char>>, markup: Option<Seq<char>>) -> Option<
    (Seq<char>, bool),
> {
    if text is Some && trimmed(text->0).len() > 0 {
        Some((trimmed(text->0), false))
    } else if markup is Some && trimmed(markup->0).len() > 0 {
        Some((trimmed(markup->0), true))
    } else {
        None
    }
}

/// What a tooltip says, and whether that is markup.
pub fn tooltip_content(text: Option<&str>, markup: Option<&str>) -> (r: Option<(String, bool)>)
    ensures
        match r {
            Some((said, is_markup)) => content_of(
                opt_str(text),
                opt_str(markup),
            ) == Some((said@, is_markup)),
            None => content_of(opt_str(text), opt_str(markup)) is None,
        },
{
    if let Some(text) = text {
        if let Some(said) = non_empty(text) {
            return Some((said, false));
        }
    }
    if let Some(markup) = markup {
        if let Some(said) = non_empty(markup) {
            return Some((said, true));
        }
    }
    None
}

/// The tooltip of an output. Widgets are told apart by number.
#[derive(Clone, Copy, Debug, PartialEq, Eq, Structural)]
pub struct TooltipState {
    /// The widget whose tooltip is shown.
    pub active: Option<u64>,
    /// The widget whose tooltip is to be shown.
    pub pending: Option<u64>,
    pub show_generation: Generation,
    pub hide_generation: Generation,
    pub placement_generation: Generation,
}

/// The value after a generation's.
pub open spec fn after(generation: Generation) -> Generation {
    Generation { value: bumped(generation.value, 1) }
}

/// The tooltip after the widget gave its tooltip up; a shown one goes when the program is idle.
pub open spec fn released(state: TooltipState, widget: u64) -> TooltipState {
    let waits = state.pending == Some(widget);
    let shown = state.active == Some(widget);
    TooltipState {
        active: if shown {
            None
        } else {
            state.active
        },
        pending: if waits {
            None
        } else {
            state.pending
        },
        show_generation: if waits {
            after(state.show_generation)
        } else {
            state.show_generation
        },
        hide_generation: if shown {
            after(state.hide_generation)
        } else {
            state.hide_generation
        },
        placement_generation: if shown {
            after(state.placement_generation)
        } else {
            state.placement_generation
        },
    }
}

impl TooltipState {
    pub fn new() -> (r: Self)
        ensures
            r.active is None,
            r.pending is None,
            r.show_generation.value == 0,
            r.hide_generation.value == 0,
            r.placement_generation.value == 0,
    {
        TooltipState {
            active: None,
            pending: None,
            show_generation: Generation { value: 0 },
            hide_generation: Generation { value: 0 },
            placement_generation: Generation { value: 0 },
        }
    }

    /// Takes every tooltip away at once.
    pub fn invalidate_all(&mut self)
        ensures
            *final(self) == (TooltipState {
                active: None,
                pending: None,
                show_generation: after(old(self).show_generation),
                hide_generation: after(old(self).hide_generation),
                placement_generation: after(old(self).placement_generation),
            }),
    {
        self.show_generation.bump();
        self.hide_generation.bump();
        self.placement_generation.bump();
        self.active = None;
        self.pending = None;
    }

    /// The pointer came to a widget that has something to say; the returned value marks the wait.
    /// The tooltip that is shown stays until then.
    pub fn schedule(&mut self, widget: u64) -> (r: u64)
        ensures
            r == bumped(old(self).show_generation.value, 1),
            *final(self) == (TooltipState {
                pending: Some(widget),
                show_generation: Generation { value: r },
                ..*old(self)
            }),
    {
        let generation: u64 = self.show_generation.bump();
        self.pending = Some(widget);
        generation
    }

    /// A wait is over; the answer says whether the tooltip is to be shown.
    pub fn due(&mut self, widget: u64, generation: u64) -> (r: bool)
        ensures
            r == (old(self).show_generation.value == generation && old(self).pending == Some(
                widget,
            )),
            *final(self) == (if r {
                TooltipState { pending: None, ..*old(self) }
            } else {
                *old(self)
            }),
    {
        let due = self.show_generation.is_current(generation) && self.pending == Some(widget);
        if due {
            self.pending = None;
        }
        due
    }

    /// The tooltip of a widget is shown; the returned value marks its place.
    pub fn show(&mut self, widget: u64) -> (r: u64)
        ensures
            r == bumped(old(self).placement_generation.value, 1),
            *final(self) == (TooltipState {
                active: Some(widget),
                hide_generation: after(old(self).hide_generation),
                placement_generation: Generation { value: r },
                ..*old(self)
            }),
    {
        self.hide_generation.bump();
        self.active = Some(widget);
        self.placement_generation.bump()
    }

    /// Whether a tooltip is still to be placed again once its size is known.
    pub fn places(&self, widget: u64, generation: u64) -> (r: bool)
        ensures
            r == (self.placement_generation.value == generation && self.active == Some(widget)),
    {
        self.placement_generation.is_current(generation) && self.active == Some(widget)
    }

    /// A widget gives its tooltip up. Where it was shown, the returned value marks its going.
    pub fn release(&mut self, widget: u64) -> (r: Option<u64>)
        ensures
            *final(self) == released(*old(self), widget),
            r == (if old(self).active == Some(widget) {
                Some(final(self).hide_generation.value)
            } else {
                None
            }),
    {
        if self.pending == Some(widget) {
            self.show_generation.bump();
            self.pending = None;
        }
        if self.active != Some(widget) {
            return None;
        }
        self.active = None;
        self.placement_generation.bump();
        Some(self.hide_generation.bump())
    }

    /// Whether a tooltip goes now that the program is idle.
    pub fn vanishes(&self, generation: u64) -> (r: bool)
        ensures
            r == (self.hide_generation.value == generation && self.active is None),
    {
        self.hide_generation.is_current(generation) && self.active.is_none()
    }
}

/// A widget that gave its tooltip up is not shown one when its wait ends.
pub proof fn released_widgets_stay_silent(state: TooltipState, widget: u64, generation: u64)
    requires
        state.pending == Some(widget),
        state.show_generation.value == generation,
    ensures
        released(state, widget).pending != Some(widget),
        released(state, widget).show_generation.value != generation,
        released(state, widget).active != Some(widget),
{
}

/// A position kept on the screen: `extent` is the screen's size, `size` the tooltip's.
pub open spec fn on_screen(wanted: int, extent: int, size: int) -> int {
    let last = if extent - size - SCREEN_PADDING > SCREEN_PADDING {
        extent - size - SCREEN_PADDING
    } else {
        SCREEN_PADDING as int
    };
    if wanted < SCREEN_PADDING {
        SCREEN_PADDING as int
    } else if wanted > last {
        last
    } else {
        wanted
    }
}

pub fn keep_on_screen(wanted: i32, extent: i32, size: i32) -> (r: i32)
    ensures
        r == on_screen(wanted as int, extent as int, size as int),
{
    let room: i64 = extent as i64 - size as i64 - SCREEN_PADDING as i64;
    let last: i64 = if room > SCREEN_PADDING as i64 {
        room
    } else {
        SCREEN_PADDING as i64
    };
    if wanted < SCREEN_PADDING {
        SCREEN_PADDING
    } else if wanted as i64 > last {
        last as i32
    } else {
        wanted
    }
}

/// A tooltip that fits is wholly on the screen.
pub proof fn fitting_tooltips_are_on_screen(wanted: int, extent: int, size: int)
    requires
        size >= 0,
        size + 2 * SCREEN_PADDING <= extent,
    ensures
        SCREEN_PADDING <= on_screen(wanted, extent, size),
        on_screen(wanted, extent, size) + size + SCREEN_PADDING <= extent,
{
}

/// Where a window begins along one edge of the screen: at its margin from the near edge, or from
/// the far edge where it holds on to that one alone.
pub fn window_origin(
    start: i32,
    extent: i32,
    size: i32,
    near_margin: i32,
    far_margin: i32,
    near_anchored: bool,
    far_anchored: bool,
) -> (r: i64)
    ensures
        r == (if far_anchored && !near_anchored {
            start + extent - size - far_margin
        } else {
            start + near_margin
        }),
{
    if far_anchored && !near_anchored {
        start as i64 + extent as i64 - size as i64 - far_margin as i64
    } else {
        start as i64 + near_margin as i64
    }
}

/// A tooltip says its text where that is not blank, else its markup, and nothing where both are.
pub proof fn texts_come_before_markup(
    text: Option<&str>,
    markup: Option<&str>,
    r: Option<(String, bool)>,
)
    requires
        call_ensures(tooltip_content, (text, markup), r),
    ensures
        text matches Some(t) ==> (trimmed(t@).len() > 0 ==> (r matches Some(said) && said.0@
            == trimmed(t@) && !said.1)),
        text is None ==> (markup matches Some(m) ==> (trimmed(m@).len() > 0 ==> (
        r matches Some(said) && said.0@ == trimmed(m@) && said.1))),
        r matches Some(said) ==> said.0@.len() > 0,
        text is None && markup is None ==> r is None,
{
}

/// The tooltip that is shown is that of the widget at which the pointer came to rest last, after
/// its wait; one that was given up meanwhile is not shown.
pub proof fn last_widget_is_shown(
    first: &mut TooltipState,
    a: u64,
    early: u64,
    second: &mut TooltipState,
    b: u64,
    late: u64,
    stale: &mut TooltipState,
    stale_due: bool,
    waited: &mut TooltipState,
    due: bool,
    shown: &mut TooltipState,
    place: u64,
    places: bool,
)
    requires
        call_ensures(TooltipState::schedule, (first, a), early),
        *old(second) == *final(first),
        call_ensures(TooltipState::schedule, (second, b), late),
        *old(stale) == *final(second),
        call_ensures(TooltipState::due, (stale, a, early), stale_due),
        *old(waited) == *final(stale),
        call_ensures(TooltipState::due, (waited, b, late), due),
        *old(shown) == *final(waited),
        call_ensures(TooltipState::show, (shown, b), place),
        call_ensures(TooltipState::places, (final(shown), b, place), places),
    ensures
        !stale_due,
        due,
        final(shown).active == Some(b) && final(shown).pending is None,
        places,
{
}

/// A widget that gives its tooltip up is not shown it any more; a shown one goes when its own time
/// comes, unless another is shown by then. Other widgets keep theirs.
pub proof fn tooltips_go_with_their_widgets(
    state: &mut TooltipState,
    widget: u64,
    r: Option<u64>,
    vanishes: bool,
    again: &mut TooltipState,
    other: u64,
    place: u64,
    still: bool,
)
    requires
        call_ensures(TooltipState::release, (state, widget), r),
        r is Some,
        call_ensures(TooltipState::vanishes, (final(state), r->0), vanishes),
        *old(again) == *final(state),
        call_ensures(TooltipState::show, (again, other), place),
        call_ensures(TooltipState::vanishes, (final(again), r->0), still),
    ensures
        old(state).active == Some(widget),
        final(state).active is None && vanishes,
        !still,
        old(state).pending matches Some(waiting) ==> (waiting != widget ==> final(state).pending
            == Some(waiting)),
{
}

/// A widget whose tooltip is neither shown nor awaited gives nothing up.
pub proof fn silent_widgets_give_nothing_up(state: &mut TooltipState, widget: u64, r: Option<u64>)
    requires
        call_ensures(TooltipState::release, (state, widget), r),
        old(state).active != Some(widget),
    ensures
        r is None,
        final(state).active == old(state).active,
        final(state).pending == (if old(state).pending == Some(widget) {
            None
        } else {
            old(state).pending
        }),
{
}

/// A tooltip stays where it is wanted as far as the screen has room for it there, and else moves no
/// further than to the edge.
pub proof fn tooltips_stay_on_the_screen(wanted: i32, extent: i32, size: i32, r: i32, x: i32, y: i32)
    requires
        call_ensures(keep_on_screen, (wanted, extent, size), r),
        call_ensures(keep_on_screen, (x, extent, size), y),
        0 <= size,
        size + 24 <= extent,
    ensures
        12 <= r && r + size <= extent - 12,
        12 <= wanted && wanted + size <= extent - 12 ==> r == wanted,
        wanted < 12 ==> r == 12,
        wanted + size > extent - 12 ==> r == extent - 12 - size,
        wanted <= x ==> r <= y,
{
}

/// A window begins at its margin from the edge that it holds on to.
pub proof fn windows_hold_on_to_their_edges(
    start: i32,
    extent: i32,
    size: i32,
    near: i32,
    far: i32,
    at_near: i64,
    at_far: i64,
)
    requires
        call_ensures(window_origin, (start, extent, size, near, far, true, false), at_near),
        call_ensures(window_origin, (start, extent, size, near, far, false, true), at_far),
    ensures
        at_near - start == near,
        (start + extent) - (at_far + size) == far,
{
}

/// When all tooltips are taken away none is shown, and none that was awaited or on its way appears.
pub proof fn all_tooltips_go(
    state: &mut TooltipState,
    late: &mut TooltipState,
    widget: u64,
    due: bool,
    places: bool,
)
    requires
        call_ensures(TooltipState::invalidate_all, (state,), ()),
        *old(late) == *final(state),
        call_ensures(TooltipState::due, (late, widget, old(state).show_generation.value), due),
        call_ensures(
            TooltipState::places,
            (final(state), widget, old(state).placement_generation.value),
            places,
        ),
    ensures
        final(state).active is None && final(state).pending is None,
        !due && !places,
{
}

} // verus!
