//! Tokens, gates and timers' state: what lets late answers be told from current ones.
use vstd::arithmetic::power2::*;
use vstd::prelude::*;

verus! {

/// A counter whose current value marks the newest request; older values are stale.
#[derive(Clone, Copy, Debug, PartialEq, Eq, Structural)]
pub struct Generation {
    pub value: u64,
}

/// The value `steps` bumps after `value`.
pub open spec fn bumped(value: u64, steps: nat) -> u64 {
    ((value + steps) % 0x1_0000_0000_0000_0000) as u64
}

impl Default for Generation {
    fn default() -> (r: Self)
        ensures
            r.value == 0,
    {
        Generation { value: 0 }
    }
}

impl Generation {
    pub fn current(&self) -> (r: u64)
        ensures
            r == self.value,
    {
        self.value
    }

    /// Moves on to the next value and returns it.
    pub fn bump(&mut self) -> (r: u64)
        ensures
            final(self).value == bumped(old(self).value, 1),
            r == final(self).value,
            r != old(self).value,
    {
        self.value = self.value.wrapping_add(1);
        self.value
    }

    pub fn is_current(&self, generation: u64) -> (r: bool)
        ensures
            r == (self.value == generation),
    {
        self.value == generation
    }
}

/// A value handed out by `bump` is stale after any further number of bumps short of a full turn
/// of the counter.
pub proof fn older_generations_are_stale(value: u64, steps: nat)
    requires
        0 < steps < 0x1_0000_0000_0000_0000,
    ensures
        bumped(value, steps) != value,
        bumped(bumped(value, steps), 1) == bumped(value, steps + 1),
{
}

/// Lets one read run at a time; a request during a read asks for one more read after it.
#[derive(Clone, Copy, Debug, PartialEq, Eq, Structural)]
pub struct RefreshGate {
    pub busy: bool,
    pub pending: bool,
}

impl Default for RefreshGate {
    fn default() -> (r: Self)
        ensures
            r == RefreshGate::idle(),
    {
        RefreshGate { busy: false, pending: false }
    }
}

impl RefreshGate {
    pub open spec fn idle() -> Self {
        RefreshGate { busy: false, pending: false }
    }

    /// What a request makes of it.
    pub open spec fn begun(self) -> Self {
        if self.busy {
            RefreshGate { busy: true, pending: true }
        } else {
            RefreshGate { busy: true, pending: false }
        }
    }

    /// What `n` requests in a row make of it.
    pub open spec fn begun_times(self, n: nat) -> Self
        decreases n,
    {
        if n == 0 {
            self
        } else {
            self.begun_times((n - 1) as nat).begun()
        }
    }

    /// Asks for a read; the answer says whether to start it now.
    pub fn begin(&mut self) -> (r: bool)
        ensures
            *final(self) == old(self).begun(),
            r == !old(self).busy,
    {
        if self.busy {
            self.pending = true;
            return false;
        }
        self.busy = true;
        self.pending = false;
        true
    }

    /// Ends the read; the answer says whether one more is owed.
    pub fn finish(&mut self) -> (r: bool)
        ensures
            *final(self) == RefreshGate::idle(),
            r == old(self).pending,
    {
        let pending = self.pending;
        self.busy = false;
        self.pending = false;
        pending
    }
}

/// However many requests come during a read, they are answered by one more read; with none, by
/// no more.
pub proof fn requests_during_a_read_coalesce(requests: nat)
    ensures
        RefreshGate::idle().begun().begun_times(requests).busy,
        RefreshGate::idle().begun().begun_times(requests).pending == (requests > 0),
    decreases requests,
{
    if requests > 0 {
        requests_during_a_read_coalesce((requests - 1) as nat);
    }
}

/// What to do with the answer of a read that has ended.
#[derive(Clone, Copy, Debug, PartialEq, Eq, Structural)]
pub struct ReadOutcome {
    /// Whether the answer is still wanted: nothing was changed since the read began.
    pub apply: bool,
    /// Whether to read once more.
    pub retry: bool,
}

/// Ends a read that began at revision `started`.
pub fn settle_read(gate: &mut RefreshGate, revision: &Generation, started: u64) -> (r: ReadOutcome)
    ensures
        *final(gate) == RefreshGate::idle(),
        r == (ReadOutcome { apply: revision.value == started, retry: old(gate).pending }),
{
    let retry = gate.finish();
    ReadOutcome { apply: revision.is_current(started), retry }
}

/// Runs one write at a time; of the writes asked for meanwhile only the newest is kept.
pub struct WriteQueue<T> {
    pub busy: bool,
    pub pending: Option<T>,
}

impl<T> WriteQueue<T> {
    /// Nothing waits while no write runs.
    pub open spec fn wf(&self) -> bool {
        !self.busy ==> self.pending is None
    }

    /// The queue after a write of `value` was asked for.
    pub open spec fn submitted(self, value: T) -> Self {
        if self.busy {
            WriteQueue { busy: true, pending: Some(value) }
        } else {
            WriteQueue { busy: true, pending: self.pending }
        }
    }

    /// The queue after writes of all the values were asked for, in order.
    pub open spec fn submitted_all(self, values: Seq<T>) -> Self
        decreases values.len(),
    {
        if values.len() == 0 {
            self
        } else {
            self.submitted_all(values.drop_last()).submitted(values.last())
        }
    }

    pub fn new() -> (r: Self)
        ensures
            r.wf(),
            !r.busy,
    {
        WriteQueue { busy: false, pending: None }
    }

    /// Asks for a write; the answer is the value to write now.
    pub fn submit(&mut self, value: T) -> (r: Option<T>)
        requires
            old(self).wf(),
        ensures
            final(self).wf(),
            *final(self) == old(self).submitted(value),
            r == (if old(self).busy {
                None
            } else {
                Some(value)
            }),
    {
        if self.busy {
            self.pending = Some(value);
            None
        } else {
            self.busy = true;
            Some(value)
        }
    }

    /// Ends a write; the answer is the value to write next.
    pub fn finish(&mut self) -> (r: Option<T>)
        requires
            old(self).wf(),
        ensures
            final(self).wf(),
            final(self).pending is None,
            final(self).busy == (old(self).pending is Some),
            r == old(self).pending,
    {
        let next = self.pending.take();
        self.busy = next.is_some();
        next
    }
}

/// However many writes are asked for while one runs, the next one is the newest of them.
pub proof fn newest_write_wins<T>(queue: WriteQueue<T>, values: Seq<T>)
    requires
        queue.busy,
        values.len() > 0,
    ensures
        queue.submitted_all(values).busy,
        queue.submitted_all(values).pending == Some(values.last()),
    decreases values.len(),
{
    if values.len() > 1 {
        newest_write_wins(queue, values.drop_last());
    } else {
        assert(queue.submitted_all(values.drop_last()) == queue);
    }
}

/// The longest wait between two tries, in seconds.
pub const RETRY_MAX_SECONDS: u64 = 30;

/// The wait before try number `attempt` is repeated: doubled each time, up to the longest wait.
pub open spec fn retry_seconds(attempt: u32) -> nat {
    let doubled = pow2(if attempt < 5 {
        attempt as nat
    } else {
        5
    });
    if doubled < RETRY_MAX_SECONDS {
        doubled
    } else {
        RETRY_MAX_SECONDS as nat
    }
}

pub fn retry_delay(attempt: u32) -> (r: u64)
    ensures
        r == retry_seconds(attempt),
{
    proof {
        lemma2_to64();
    }
    if attempt == 0 {
        1
    } else if attempt == 1 {
        2
    } else if attempt == 2 {
        4
    } else if attempt == 3 {
        8
    } else if attempt == 4 {
        16
    } else {
        RETRY_MAX_SECONDS
    }
}

/// Waits never get shorter from try to try and stay between one second and the longest wait.
pub proof fn retries_slow_down(attempt: u32)
    requires
        attempt < u32::MAX,
    ensures
        1 <= retry_seconds(attempt) <= retry_seconds((attempt + 1) as u32) <= RETRY_MAX_SECONDS,
{
    lemma2_to64();
}

/// The state of a connection that is tried again after a growing wait.
#[derive(Clone, Copy, Debug, PartialEq, Eq, Structural)]
pub struct Backoff {
    /// Whether a try is already waiting for its time.
    pub waiting: bool,
    /// How many tries have failed in a row.
    pub attempt: u32,
}

impl Default for Backoff {
    fn default() -> (r: Self)
        ensures
            r == (Backoff { waiting: false, attempt: 0 }),
    {
        Backoff { waiting: false, attempt: 0 }
    }
}

impl Backoff {
    /// The next count of failed tries.
    pub open spec fn next_attempt(self) -> u32 {
        if self.attempt == u32::MAX {
            u32::MAX
        } else {
            (self.attempt + 1) as u32
        }
    }

    /// After a failure: how many seconds to wait, unless a try is already waiting.
    pub fn schedule(&mut self) -> (r: Option<u64>)
        ensures
            old(self).waiting ==> r is None && *final(self) == *old(self),
            !old(self).waiting ==> (r matches Some(seconds) && seconds == retry_seconds(
                old(self).attempt,
            )) && *final(self) == (Backoff { waiting: true, attempt: old(self).next_attempt() }),
    {
        if self.waiting {
            return None;
        }
        let seconds: u64 = retry_delay(self.attempt);
        self.waiting = true;
        self.attempt = self.attempt.saturating_add(1);
        Some(seconds)
    }

    /// The wait is over.
    pub fn fire(&mut self)
        ensures
            *final(self) == (Backoff { waiting: false, attempt: old(self).attempt }),
    {
        self.waiting = false;
    }

    /// A try succeeded.
    pub fn succeed(&mut self)
        ensures
            *final(self) == (Backoff { waiting: old(self).waiting, attempt: 0 }),
    {
        self.attempt = 0;
    }
}

/// What a popup that fades in and out has to remember.
#[derive(Clone, Copy, Debug, PartialEq, Eq, Structural)]
pub struct PopupReveal {
    pub generation: Generation,
    pub revealed: bool,
}

/// How to hide a popup.
#[derive(Clone, Copy, Debug, PartialEq, Eq, Structural)]
pub enum HideStep {
    /// The window is not on screen: nothing fades.
    Reset,
    /// Fade out under this generation, then hide the window.
    Fade(u64),
}

impl Default for PopupReveal {
    fn default() -> (r: Self)
        ensures
            r.generation.value == 0,
            !r.revealed,
    {
        PopupReveal { generation: Generation { value: 0 }, revealed: false }
    }
}

impl PopupReveal {
    /// Starts to show the popup; the fade runs under the returned generation.
    pub fn show(&mut self) -> (r: u64)
        ensures
            final(self).revealed,
            final(self).generation.value == bumped(old(self).generation.value, 1),
            r == final(self).generation.value,
    {
        let generation: u64 = self.generation.bump();
        self.revealed = true;
        generation
    }

    /// Starts to hide the popup.
    pub fn start_hiding(&mut self, window_visible: bool) -> (r: HideStep)
        ensures
            !final(self).revealed,
            final(self).generation.value == bumped(old(self).generation.value, 1),
            r == (if window_visible {
                HideStep::Fade(final(self).generation.value)
            } else {
                HideStep::Reset
            }),
    {
        let generation: u64 = self.generation.bump();
        self.revealed = false;
        if window_visible {
            HideStep::Fade(generation)
        } else {
            HideStep::Reset
        }
    }

    /// Forgets any fade that still runs.
    pub fn reset_hidden(&mut self)
        ensures
            !final(self).revealed,
            final(self).generation.value == bumped(old(self).generation.value, 1),
    {
        self.generation.bump();
        self.revealed = false;
    }

    pub fn is_current(&self, generation: u64) -> (r: bool)
        ensures
            r == (self.generation.value == generation),
    {
        self.generation.is_current(generation)
    }

    pub fn is_revealed(&self) -> (r: bool)
        ensures
            r == self.revealed,
    {
        self.revealed
    }

    /// Whether a fade out that has reached its end may hide the window.
    pub fn fade_may_hide(&self, generation: u64) -> (r: bool)
        ensures
            r == (self.generation.value == generation && !self.revealed),
    {
        self.generation.is_current(generation) && !self.revealed
    }
}

/// Whether a popup closes when it loses the focus: only once it has had it.
#[derive(Clone, Copy, Debug, PartialEq, Eq, Structural)]
pub struct FocusGuard {
    pub armed: bool,
}

impl FocusGuard {
    /// The popup became active or inactive; the answer says whether to look again when idle.
    pub fn active_changed(&mut self, active: bool, visible: bool) -> (r: bool)
        ensures
            final(self).armed == (old(self).armed || (active && visible)),
            r == (!active && visible && old(self).armed),
    {
        if active {
            if visible {
                self.armed = true;
            }
            return false;
        }
        visible && self.armed
    }

    /// Whether the popup, looked at again when idle, is to close.
    pub fn should_close(&self, active: bool, visible: bool, bar_active: bool) -> (r: bool)
        ensures
            r == (visible && !active && self.armed && !bar_active),
    {
        visible && !active && self.armed && !bar_active
    }
}

/// How many background workers to start where `parallelism` threads can run at once.
pub fn worker_count(parallelism: Option<usize>) -> (r: usize)
    ensures
        r == (match parallelism {
            Some(n) => if n < 2 {
                2
            } else if n > 4 {
                4
            } else {
                n as int
            },
            None => 2,
        }),
{
    match parallelism {
        Some(n) => if n < 2 {
            2
        } else if n > 4 {
            4
        } else {
            n
        },
        None => 2,
    }
}

/// What a label that is hidden when it has nothing to say shows.
pub fn optional_label(text: Option<&str>) -> (r: (String, bool))
    ensures
        match text {
            Some(t) => r.0@ == t@ && r.1 == (t@.len() > 0),
            None => r.0@ == Seq::<char>::empty() && !r.1,
        },
{
    match text {
        Some(t) => {
            let visible = !t.is_empty();
            (t.to_owned(), visible)
        },
        None => (String::new(), false),
    }
}

/// A try that fails again waits twice as long as before, but never longer than half a minute; a
/// try that is already waiting is not asked for again, and success makes the next wait one second.
pub proof fn waits_double(
    first: &mut Backoff,
    wait: Option<u64>,
    over: &mut Backoff,
    second: &mut Backoff,
    next: Option<u64>,
)
    requires
        call_ensures(Backoff::schedule, (first,), wait),
        *old(over) == *final(first),
        call_ensures(Backoff::fire, (over,), ()),
        *old(second) == *final(over),
        call_ensures(Backoff::schedule, (second,), next),
        old(first).attempt < u32::MAX,
    ensures
        (wait is None) == old(first).waiting,
        final(first).waiting,
        !old(first).waiting ==> (next matches Some(seconds) && seconds == (if 2 * wait->0 <= 30 {
            2 * wait->0
        } else {
            30
        })),
        !old(first).waiting && old(first).attempt == 0 ==> wait == Some(1u64),
{
    lemma2_to64();
}

/// After a success the next failure waits one second.
pub proof fn success_starts_over(done: &mut Backoff, again: &mut Backoff, wait: Option<u64>)
    requires
        call_ensures(Backoff::succeed, (done,), ()),
        *old(again) == *final(done),
        call_ensures(Backoff::schedule, (again,), wait),
    ensures
        !old(done).waiting ==> wait == Some(1u64),
        old(done).waiting ==> wait is None,
{
    lemma2_to64();
}

/// The answer of a read is used exactly where nothing was changed since it began, and one more
/// read follows exactly where one was asked for meanwhile.
pub proof fn late_reads_are_dropped(
    revision: &mut Generation,
    changed: u64,
    gate: &mut RefreshGate,
    asked: bool,
    ending: &mut RefreshGate,
    unchanged: ReadOutcome,
    late: ReadOutcome,
)
    requires
        call_ensures(Generation::bump, (revision,), changed),
        call_ensures(RefreshGate::begin, (gate,), asked),
        *old(ending) == *final(gate),
        call_ensures(settle_read, (ending, old(revision), old(revision).value), unchanged),
        call_ensures(settle_read, (ending, final(revision), old(revision).value), late),
    ensures
        unchanged.apply,
        !late.apply,
        asked == !old(gate).busy,
        final(gate).busy,
        unchanged.retry == !asked,
        late.retry == !asked,
        !final(ending).busy && !final(ending).pending,
{
}

/// A write that is asked for while none runs is made at once, one asked for meanwhile is made when
/// that has ended, and then nothing is left.
pub proof fn writes_are_made_in_turn<T>(
    idle: &mut WriteQueue<T>,
    a: T,
    now: Option<T>,
    busy: &mut WriteQueue<T>,
    b: T,
    wait: Option<T>,
    ended: &mut WriteQueue<T>,
    next: Option<T>,
    last: &mut WriteQueue<T>,
    rest: Option<T>,
)
    requires
        old(idle).wf(),
        !old(idle).busy,
        call_ensures(WriteQueue::<T>::submit, (idle, a), now),
        *old(busy) == *final(idle),
        call_ensures(WriteQueue::<T>::submit, (busy, b), wait),
        *old(ended) == *final(busy),
        call_ensures(WriteQueue::<T>::finish, (ended,), next),
        *old(last) == *final(ended),
        call_ensures(WriteQueue::<T>::finish, (last,), rest),
    ensures
        now == Some(a),
        wait is None,
        next == Some(b),
        rest is None,
        final(ended).busy,
        !final(last).busy,
{
}

/// A popup that is hidden fades under its own generation and is hidden at the end; one that is
/// shown again meanwhile stays.
pub proof fn shown_popups_stay(
    hiding: &mut PopupReveal,
    step: HideStep,
    shown: &mut PopupReveal,
    generation: u64,
    hides: bool,
    still_hides: bool,
    current: bool,
)
    requires
        call_ensures(PopupReveal::start_hiding, (hiding, true), step),
        *old(shown) == *final(hiding),
        call_ensures(PopupReveal::show, (shown,), generation),
        step is Fade,
        call_ensures(PopupReveal::fade_may_hide, (final(hiding), step->0), hides),
        call_ensures(PopupReveal::fade_may_hide, (final(shown), step->0), still_hides),
        call_ensures(PopupReveal::is_current, (final(shown), generation), current),
    ensures
        hides,
        !still_hides,
        current,
        final(shown).revealed && !final(hiding).revealed,
{
}

/// Only a popup whose window is on screen fades.
pub proof fn only_visible_windows_fade(state: &mut PopupReveal, visible: bool, step: HideStep)
    requires
        call_ensures(PopupReveal::start_hiding, (state, visible), step),
    ensures
        (step is Fade) == visible,
        !final(state).revealed,
{
}

/// A popup closes for lost focus only after it had the focus on screen, and not while the bar has
/// it.
pub proof fn popups_close_once_they_had_the_focus(
    guard: &mut FocusGuard,
    active: bool,
    visible: bool,
    look: bool,
    later_active: bool,
    later_visible: bool,
    bar_active: bool,
    closes: bool,
)
    requires
        call_ensures(FocusGuard::active_changed, (guard, active, visible), look),
        call_ensures(
            FocusGuard::should_close,
            (final(guard), later_active, later_visible, bar_active),
            closes,
        ),
    ensures
        !old(guard).armed && !(active && visible) ==> !closes,
        (old(guard).armed || (active && visible)) && later_visible && !later_active && !bar_active
            ==> closes,
        later_active || !later_visible || bar_active ==> !closes,
        look ==> !active && visible,
        !active && visible ==> look == old(guard).armed,
{
}

/// Two to four workers are started: as many as threads can run, within these bounds.
pub proof fn workers_follow_the_machine(a: Option<usize>, b: Option<usize>, x: usize, y: usize)
    requires
        call_ensures(worker_count, (a,), x),
        call_ensures(worker_count, (b,), y),
    ensures
        2 <= x <= 4,
        a matches Some(n) ==> (2 <= n <= 4 ==> x == n),
        a is None ==> x == 2,
        (a matches Some(n) && b matches Some(m) && n <= m) ==> x <= y,
{
}

/// A label says its text and is hidden exactly where it has none to say.
pub proof fn labels_without_text_are_hidden(text: Option<&str>, r: (String, bool))
    requires
        call_ensures(optional_label, (text,), r),
    ensures
        r.1 == (text is Some && text->0@.len() > 0),
        r.1 == (r.0@.len() > 0),
        text matches Some(t) ==> r.0@ == t@,
{
}

/// The first wait is a second, and no wait is longer than half a minute; values that were handed
/// out before are stale.
pub proof fn waits_begin_with_a_second(
    attempt: u32,
    r: u64,
    first: u64,
    counter: &mut Generation,
    new: u64,
    current: bool,
    stale: bool,
)
    requires
        call_ensures(retry_delay, (attempt,), r),
        call_ensures(retry_delay, (0,), first),
        call_ensures(Generation::bump, (counter,), new),
        call_ensures(Generation::is_current, (final(counter), new), current),
        call_ensures(Generation::is_current, (final(counter), old(counter).value), stale),
    ensures
        first == 1,
        1 <= r <= 30,
        attempt >= 5 ==> r == 30,
        attempt == 3 ==> r == 8,
        current && !stale,
{
    lemma2_to64();
}

/// A popup that was hidden at once is not shown, and no fade that had begun goes on; a read that
/// ended lets the next one begin, and asks for it where it was wanted meanwhile.
pub proof fn hidden_popups_are_gone(
    popup: &mut PopupReveal,
    shown: bool,
    reads: &mut RefreshGate,
    again: bool,
    free: &mut RefreshGate,
    begins: bool,
    fresh: Generation,
    value: u64,
)
    requires
        call_ensures(PopupReveal::reset_hidden, (popup,), ()),
        call_ensures(PopupReveal::is_revealed, (final(popup),), shown),
        call_ensures(RefreshGate::finish, (reads,), again),
        *old(free) == *final(reads),
        call_ensures(RefreshGate::begin, (free,), begins),
        call_ensures(Generation::current, (&fresh,), value),
    ensures
        !shown,
        final(popup).generation.value != old(popup).generation.value,
        again == old(reads).pending,
        begins,
        value == fresh.value,
{
}

} // verus!
