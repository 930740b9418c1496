//! The sound spectrum: when it runs, how samples are collected, and the order of the transform.
use crate::gate::{retry_seconds, Backoff};
use vstd::arithmetic::power2::{lemma2_to64, lemma_pow2_pos, lemma_pow2_unfold, pow2};
use vstd::prelude::*;

verus! {

pub const SETTINGS_GROUP: &'static str = "visualizer";

pub const SETTINGS_FILE: &'static str = "audio-spectrum.ini";

/// How many samples a transform takes.
pub const FFT_SIZE: usize = 4096;

/// The number of bits of a position among the samples.
pub const FFT_BITS: u32 = 12;

/// How many times a second the sound is analysed.
pub const ANALYZER_FPS: usize = 30;

/// Whether the spectrum is shown and whether its worker runs.
#[derive(Clone, Copy, Debug, PartialEq, Eq, Structural)]
pub struct SpectrumState {
    pub enabled: bool,
    pub worker: bool,
    pub retry: Backoff,
}

/// What to do to switch the spectrum on or off.
#[derive(Clone, Copy, Debug, PartialEq, Eq, Structural)]
pub enum ToggleStep {
    /// It is as wanted already.
    Done,
    /// The worker could not be started: nothing changes.
    Refused,
    StartWorker,
    SaveSetting,
}

/// What follows once the setting was saved or not.
#[derive(Clone, Copy, Debug, PartialEq, Eq, Structural)]
pub struct ToggleOutcome {
    pub accepted: bool,
    pub stop_worker: bool,
    pub clear_frames: bool,
}

impl SpectrumState {
    pub fn new(enabled: bool) -> (r: Self)
        ensures
            r == (SpectrumState {
                enabled,
                worker: false,
                retry: Backoff { waiting: false, attempt: 0 },
            }),
    {
        SpectrumState { enabled, worker: false, retry: Backoff { waiting: false, attempt: 0 } }
    }

    /// Begins to switch the spectrum on or off.
    pub fn begin_toggle(&self, enabled: bool) -> (r: ToggleStep)
        ensures
            r == (if enabled == self.enabled {
                ToggleStep::Done
            } else if enabled && !self.worker {
                ToggleStep::StartWorker
            } else {
                ToggleStep::SaveSetting
            }),
    {
        if enabled == self.enabled {
            ToggleStep::Done
        } else if enabled && !self.worker {
            ToggleStep::StartWorker
        } else {
            ToggleStep::SaveSetting
        }
    }

    /// The worker was started or not.
    pub fn worker_started(&mut self, running: bool) -> (r: ToggleStep)
        ensures
            *final(self) == (SpectrumState { worker: running, ..*old(self) }),
            r == (if running {
                ToggleStep::SaveSetting
            } else {
                ToggleStep::Refused
            }),
    {
        self.worker = running;
        if running {
            ToggleStep::SaveSetting
        } else {
            ToggleStep::Refused
        }
    }

    /// The state after the setting was saved or not.
    pub open spec fn after_saving(self, enabled: bool, saved: bool) -> Self {
        SpectrumState {
            enabled: if saved {
                enabled
            } else {
                self.enabled
            },
            worker: self.worker && saved == enabled,
            ..self
        }
    }

    /// The setting was saved or not.
    pub fn setting_saved(&mut self, enabled: bool, saved: bool) -> (r: ToggleOutcome)
        ensures
            *final(self) == old(self).after_saving(enabled, saved),
            r == (ToggleOutcome {
                accepted: saved,
                stop_worker: saved != enabled,
                clear_frames: saved && !enabled,
            }),
    {
        let stop = saved != enabled;
        if saved {
            self.enabled = enabled;
        }
        if stop {
            self.worker = false;
        }
        ToggleOutcome { accepted: saved, stop_worker: stop, clear_frames: saved && !enabled }
    }

    /// The worker ended by itself; the answer is how many seconds to wait before it is started
    /// again.
    pub fn worker_stopped(&mut self) -> (r: Option<u64>)
        ensures
            final(self).enabled == old(self).enabled,
            !final(self).worker,
            if old(self).enabled && !old(self).retry.waiting {
                &&& r matches Some(seconds) && seconds == retry_seconds(old(self).retry.attempt)
                &&& final(self).retry == (Backoff {
                    waiting: true,
                    attempt: old(self).retry.next_attempt(),
                })
            } else {
                r is None && final(self).retry == old(self).retry
            },
    {
        self.worker = false;
        if !self.enabled {
            return None;
        }
        self.retry.schedule()
    }

    /// The wait is over; the answer says whether to start the worker.
    pub fn retry_elapsed(&mut self) -> (r: bool)
        ensures
            *final(self) == (SpectrumState {
                retry: Backoff { waiting: false, attempt: old(self).retry.attempt },
                ..*old(self)
            }),
            r == (old(self).enabled && !old(self).worker),
    {
        self.retry.fire();
        self.enabled && !self.worker
    }

    /// The worker sent a frame; it runs, so the next wait is short again.
    pub fn frame_arrived(&mut self)
        ensures
            *final(self) == (SpectrumState {
                retry: if old(self).worker {
                    Backoff { waiting: old(self).retry.waiting, attempt: 0 }
                } else {
                    old(self).retry
                },
                ..*old(self)
            }),
    {
        if self.worker {
            self.retry.succeed();
        }
    }
}

/// The spectrum is shown only once that was saved; where saving fails, it stays as it was and no
/// worker is left running for it.
pub proof fn switches_follow_the_setting(before: SpectrumState, enabled: bool)
    requires
        before.enabled != enabled,
    ensures
        before.after_saving(enabled, true).enabled == enabled,
        before.after_saving(enabled, false).enabled == before.enabled,
        !before.after_saving(false, true).worker,
        !before.after_saving(true, false).worker,
        before.after_saving(false, false) == before,
{
}

/// No sample rate makes frames of more new samples.
pub const MAX_HOP_SIZE: usize = 0x0fff_ffff;

/// Where the samples of a transform are collected, round and round.
#[derive(Clone, Copy, Debug, PartialEq, Eq, Structural)]
pub struct SampleClock {
    /// Where the next sample goes.
    pub write_index: usize,
    /// How many samples are there.
    pub filled: usize,
    pub samples_since_frame: usize,
    /// How many new samples make a frame.
    pub hop_size: usize,
}

impl SampleClock {
    pub open spec fn wf(&self) -> bool {
        &&& self.write_index < FFT_SIZE
        &&& self.filled <= FFT_SIZE
        &&& 1 <= self.hop_size <= MAX_HOP_SIZE
        &&& self.samples_since_frame <= MAX_HOP_SIZE
        &&& self.filled < FFT_SIZE ==> self.write_index == self.filled && self.samples_since_frame
            == self.filled
    }

    pub fn new() -> (r: Self)
        ensures
            r.wf(),
            r.write_index == 0,
            r.filled == 0,
            r.samples_since_frame == 0,
            r.hop_size == 1600,
    {
        SampleClock { write_index: 0, filled: 0, samples_since_frame: 0, hop_size: 1600 }
    }

    /// Takes the sample rate of the sound; a rate of 0 is not one.
    pub fn set_sample_rate(&mut self, sample_rate: u32)
        requires
            old(self).wf(),
        ensures
            final(self).wf(),
            *final(self) == (SampleClock {
                hop_size: if sample_rate == 0 {
                    old(self).hop_size
                } else if sample_rate < ANALYZER_FPS {
                    1
                } else {
                    (sample_rate as int / ANALYZER_FPS as int) as usize
                },
                ..*old(self)
            }),
    {
        if sample_rate == 0 {
            return ;
        }
        let hop: usize = sample_rate as usize / ANALYZER_FPS;
        self.hop_size = if hop < 1 {
            1
        } else {
            hop
        };
    }

    /// Takes a sample: the answer is where it goes, and whether a frame is due with it.
    pub fn push(&mut self) -> (r: (usize, bool))
        requires
            old(self).wf(),
        ensures
            final(self).wf(),
            r.0 == old(self).write_index,
            r.1 == (old(self).filled + 1 >= FFT_SIZE && old(self).samples_since_frame + 1
                >= old(self).hop_size),
            final(self).write_index == (old(self).write_index + 1) % (FFT_SIZE as int),
            final(self).filled == (if old(self).filled < FFT_SIZE {
                old(self).filled + 1
            } else {
                FFT_SIZE as int
            }),
            final(self).samples_since_frame == (if r.1 {
                0
            } else {
                old(self).samples_since_frame + 1
            }),
            final(self).hop_size == old(self).hop_size,
    {
        let slot: usize = self.write_index;
        self.write_index = (self.write_index + 1) % FFT_SIZE;
        if self.filled < FFT_SIZE {
            self.filled = self.filled + 1;
        }
        self.samples_since_frame = self.samples_since_frame + 1;
        if self.filled < FFT_SIZE || self.samples_since_frame < self.hop_size {
            return (slot, false);
        }
        self.samples_since_frame = 0;
        (slot, true)
    }

    /// Where the sample that is `age` after the oldest is.
    pub fn slot(&self, age: usize) -> (r: usize)
        requires
            self.wf(),
            age < FFT_SIZE,
        ensures
            r == (self.write_index + age) % (FFT_SIZE as int),
            r < FFT_SIZE,
    {
        (self.write_index + age) % FFT_SIZE
    }
}

/// Reading by age visits every place once: two ages never share a place.
pub proof fn ages_have_their_own_places(write_index: int, a: int, b: int)
    requires
        0 <= write_index < FFT_SIZE,
        0 <= a < FFT_SIZE,
        0 <= b < FFT_SIZE,
        (write_index + a) % (FFT_SIZE as int) == (write_index + b) % (FFT_SIZE as int),
    ensures
        a == b,
{
}

/// `i` with its lowest `bits` bits in reverse order.
pub open spec fn reversed(i: nat, bits: nat) -> nat
    decreases bits,
{
    if bits == 0 {
        0
    } else {
        (i % 2) * pow2((bits - 1) as nat) + reversed(i / 2, (bits - 1) as nat)
    }
}

proof fn reversed_bound(i: nat, bits: nat)
    ensures
        reversed(i, bits) < pow2(bits),
    decreases bits,
{
    lemma_pow2_pos(bits);
    if bits > 0 {
        reversed_bound(i / 2, (bits - 1) as nat);
        lemma_pow2_unfold(bits);
        let half = pow2((bits - 1) as nat);
        assert((i % 2) * half <= half) by (nonlinear_arith)
            requires
                i % 2 <= 1,
                half >= 0,
        ;
    }
}

proof fn reversed_of_high_bit(i: nat, b: nat, bits: nat)
    requires
        i < pow2(bits),
        b <= 1,
    ensures
        reversed(i + b * pow2(bits), bits + 1) == b + 2 * reversed(i, bits),
    decreases bits,
{
    if bits == 0 {
        lemma2_to64();
        assert(i == 0);
        assert(reversed(b, 1) == (b % 2) * pow2(0) + reversed(b / 2, 0));
        assert(b * pow2(0) == b) by (nonlinear_arith)
            requires
                pow2(0) == 1,
        ;
        assert((b % 2) * pow2(0) == b) by (nonlinear_arith)
            requires
                pow2(0) == 1,
                b % 2 == b,
        ;
    } else {
        let p = pow2((bits - 1) as nat);
        lemma_pow2_unfold(bits);
        lemma_pow2_pos((bits - 1) as nat);
        let n = i + b * pow2(bits);
        assert(b * pow2(bits) == 2 * (b * p)) by (nonlinear_arith)
            requires
                pow2(bits) == 2 * p,
        ;
        assert(n % 2 == i % 2);
        assert(n / 2 == i / 2 + b * p);
        assert(i / 2 < p);
        reversed_of_high_bit(i / 2, b, (bits - 1) as nat);
        let lower = reversed(i / 2, (bits - 1) as nat);
        assert(reversed(n, bits + 1) == (n % 2) * pow2(bits) + reversed(n / 2, bits));
        assert(reversed(i, bits) == (i % 2) * p + lower);
        assert((i % 2) * pow2(bits) == 2 * ((i % 2) * p)) by (nonlinear_arith)
            requires
                pow2(bits) == 2 * p,
        ;
    }
}

/// Reversing twice gives the number back, so the order of the transform swaps pairs.
pub proof fn reversing_twice_is_nothing(i: nat, bits: nat)
    requires
        i < pow2(bits),
    ensures
        reversed(reversed(i, bits), bits) == i,
        reversed(i, bits) < pow2(bits),
    decreases bits,
{
    reversed_bound(i, bits);
    if bits == 0 {
        lemma2_to64();
    } else {
        lemma_pow2_unfold(bits);
        let half = (bits - 1) as nat;
        let j = i / 2;
        assert(j < pow2(half));
        reversing_twice_is_nothing(j, half);
        reversed_of_high_bit(reversed(j, half), i % 2, half);
        assert(half + 1 == bits);
        assert(reversed(i, bits) == reversed(j, half) + (i % 2) * pow2(half));
    }
}

/// The order in which a transform of 2 to the `bits` samples reads them, as far as that many can
/// be counted.
pub fn bit_reversed_order(bits: u32) -> (r: Vec<usize>)
    requires
        pow2(bits as nat) <= usize::MAX,
    ensures
        r@.len() == pow2(bits as nat),
        forall|i: int| 0 <= i < r@.len() ==> #[trigger] r@[i] == reversed(i as nat, bits as nat),
{
    let size: usize = power_of_two(bits);
    let mut out: Vec<usize> = Vec::new();
    let mut i: usize = 0;
    while i < size
        invariant
            size == pow2(bits as nat),
            i <= size,
            out@.len() == i,
            forall|k: int|
                0 <= k < i ==> #[trigger] out@[k] == reversed(k as nat, bits as nat),
        decreases size - i,
    {
        out.push(reverse_bits(i, bits));
        i = i + 1;
    }
    out
}

proof fn pow2_grows(a: nat, b: nat)
    requires
        a <= b,
    ensures
        pow2(a) <= pow2(b),
    decreases b - a,
{
    if a < b {
        pow2_grows(a, (b - 1) as nat);
        lemma_pow2_unfold(b);
        lemma_pow2_pos((b - 1) as nat);
    }
}

fn power_of_two(bits: u32) -> (r: usize)
    requires
        pow2(bits as nat) <= usize::MAX,
    ensures
        r == pow2(bits as nat),
{
    proof {
        lemma2_to64();
    }
    let mut r: usize = 1;
    let mut b: u32 = 0;
    while b < bits
        invariant
            b <= bits,
            pow2(bits as nat) <= usize::MAX,
            r == pow2(b as nat),
        decreases bits - b,
    {
        proof {
            lemma_pow2_unfold((b + 1) as nat);
            pow2_grows((b + 1) as nat, bits as nat);
        }
        r = r * 2;
        b = b + 1;
    }
    r
}

fn reverse_bits(i: usize, bits: u32) -> (r: usize)
    requires
        pow2(bits as nat) <= usize::MAX,
    ensures
        r == reversed(i as nat, bits as nat),
    decreases bits,
{
    if bits == 0 {
        return 0;
    }
    proof {
        pow2_grows((bits - 1) as nat, bits as nat);
        reversed_bound(i as nat, bits as nat);
    }
    let low: usize = i % 2;
    let rest: usize = reverse_bits(i / 2, bits - 1);
    let weight: usize = power_of_two(bits - 1);
    proof {
        let p = pow2((bits - 1) as nat);
        let b = i as nat % 2;
        assert(reversed(i as nat, bits as nat) == b * p + reversed(
            i as nat / 2,
            (bits - 1) as nat,
        ));
        if low == 1 {
            assert(b * p == p) by (nonlinear_arith)
                requires
                    b == 1,
            ;
        } else {
            assert(b * p == 0) by (nonlinear_arith)
                requires
                    b == 0,
            ;
        }
    }
    if low == 1 {
        weight + rest
    } else {
        rest
    }
}

/// The part of a buffer that holds new samples; nothing where there are none.
pub fn sample_bytes(offset: usize, size: usize, length: usize) -> (r: Option<(usize, usize)>)
    ensures
        ({
            let end = if offset + size < length {
                offset + size
            } else {
                length as int
            };
            if offset < end {
                r == Some((offset, end as usize))
            } else {
                r is None
            }
        }),
{
    let end: usize = if length <= offset || size >= length - offset {
        length
    } else {
        offset + size
    };
    if offset < end {
        Some((offset, end))
    } else {
        None
    }
}

/// The spectrum is switched by saving the setting, with its worker started before it is shown; where
/// that is not possible nothing changes.
pub proof fn switching_starts_the_worker_first(
    state: &mut SpectrumState,
    enabled: bool,
    first: ToggleStep,
    running: bool,
    second: ToggleStep,
)
    requires
        call_ensures(SpectrumState::begin_toggle, (old(state), enabled), first),
        call_ensures(SpectrumState::worker_started, (state, running), second),
    ensures
        (first is Done) == (enabled == old(state).enabled),
        (first is StartWorker) == (enabled && !old(state).enabled && !old(state).worker),
        first is SaveSetting ==> enabled != old(state).enabled && (enabled ==> old(state).worker),
        (second is SaveSetting) == running && (second is Refused) == !running,
        final(state).worker == running && final(state).enabled == old(state).enabled,
{
}

/// A saved setting holds, and its worker runs exactly while the spectrum is shown; one that was not
/// saved does not hold.
pub proof fn saved_settings_hold(
    state: &mut SpectrumState,
    enabled: bool,
    saved: bool,
    r: ToggleOutcome,
)
    requires
        call_ensures(SpectrumState::setting_saved, (state, enabled, saved), r),
    ensures
        r.accepted == saved,
        saved ==> final(state).enabled == enabled,
        !saved ==> final(state).enabled == old(state).enabled,
        r.stop_worker ==> !final(state).worker,
        !r.stop_worker ==> final(state).worker == old(state).worker,
        saved && !enabled ==> r.stop_worker && r.clear_frames,
        saved && enabled ==> !r.stop_worker && !r.clear_frames,
        !saved && enabled ==> r.stop_worker,
{
}

/// A worker that ended by itself is started again after a wait while the spectrum is shown, and
/// not otherwise; each wait in a row is twice the one before, until a frame came.
pub proof fn ended_workers_are_started_again(
    state: &mut SpectrumState,
    wait: Option<u64>,
    over: &mut SpectrumState,
    starts: bool,
    again: &mut SpectrumState,
    next: Option<u64>,
)
    requires
        !old(state).retry.waiting,
        old(state).retry.attempt < u32::MAX,
        call_ensures(SpectrumState::worker_stopped, (state,), wait),
        *old(over) == *final(state),
        call_ensures(SpectrumState::retry_elapsed, (over,), starts),
        *old(again) == *final(over),
        call_ensures(SpectrumState::worker_stopped, (again,), next),
    ensures
        (wait is Some) == old(state).enabled,
        starts == old(state).enabled,
        old(state).enabled ==> (next matches Some(seconds) && seconds == (if 2 * wait->0 <= 30 {
            2 * wait->0
        } else {
            30
        })),
        !final(state).worker,
{
    lemma2_to64();
}

/// Samples go round and round, each to the place after the one before; a frame is due once the ring
/// is full and as many samples came as one frame takes, and then the count starts over.
pub proof fn samples_go_round(
    clock: &mut SampleClock,
    first: (usize, bool),
    next: &mut SampleClock,
    second: (usize, bool),
)
    requires
        old(clock).wf(),
        call_ensures(SampleClock::push, (clock,), first),
        *old(next) == *final(clock),
        call_ensures(SampleClock::push, (next,), second),
    ensures
        first.0 < 4096 && second.0 < 4096,
        first.0 < 4095 ==> second.0 == first.0 + 1,
        first.0 == 4095 ==> second.0 == 0,
        first.1 ==> final(clock).filled == 4096 && final(clock).samples_since_frame == 0,
        first.1 && old(clock).hop_size > 1 ==> !second.1,
        old(clock).filled == 4096 && old(clock).samples_since_frame + 1 >= old(clock).hop_size
            ==> first.1,
        old(clock).filled + 1 < 4096 ==> !first.1,
{
}

/// There are thirty frames to a second of sound, whatever its rate.
pub proof fn thirty_frames_make_a_second(clock: &mut SampleClock, rate: u32)
    requires
        call_ensures(SampleClock::set_sample_rate, (clock, rate), ()),
    ensures
        rate >= 30 ==> 30 * final(clock).hop_size <= rate < 30 * (final(clock).hop_size + 1),
        0 < rate < 30 ==> final(clock).hop_size == 1,
        rate == 0 ==> *final(clock) == *old(clock),
        final(clock).write_index == old(clock).write_index,
{
}

/// The oldest sample is at the place that is written next, and the newest just before it.
pub proof fn oldest_samples_are_read_first(
    clock: &mut SampleClock,
    r: (usize, bool),
    newest: usize,
    oldest: usize,
)
    requires
        old(clock).wf(),
        call_ensures(SampleClock::push, (clock,), r),
        call_ensures(SampleClock::slot, (final(clock), 4095), newest),
        call_ensures(SampleClock::slot, (final(clock), 0), oldest),
    ensures
        newest == r.0,
        oldest == final(clock).write_index,
{
}

/// The order of a transform changes nothing about which samples are read: it swaps pairs.
pub proof fn transforms_read_every_sample(bits: u32, r: Vec<usize>, i: int)
    requires
        pow2(bits as nat) <= usize::MAX,
        call_ensures(bit_reversed_order, (bits,), r),
        0 <= i < r@.len(),
    ensures
        r@.len() == pow2(bits as nat),
        r@[i] < r@.len(),
        r@[r@[i] as int] == i,
{
    reversing_twice_is_nothing(i as nat, bits as nat);
    reversed_bound(i as nat, bits as nat);
}

/// The new samples of a buffer begin at the offset, are no more than were said, and lie within it.
pub proof fn samples_lie_within_the_buffer(
    offset: usize,
    size: usize,
    length: usize,
    r: Option<(usize, usize)>,
)
    requires
        call_ensures(sample_bytes, (offset, size, length), r),
    ensures
        (r is Some) == (size > 0 && offset < length),
        r matches Some(range) ==> range.0 == offset && range.0 < range.1 <= length && range.1
            - range.0 <= size,
        r matches Some(range) ==> (offset + size <= length ==> range.1 - range.0 == size),
{
}

/// A frame shows that the worker runs well: the next wait is one second again.
pub proof fn frames_make_waits_short(
    state: &mut SpectrumState,
    ended: &mut SpectrumState,
    wait: Option<u64>,
)
    requires
        old(state).worker && old(state).enabled && !old(state).retry.waiting,
        call_ensures(SpectrumState::frame_arrived, (state,), ()),
        *old(ended) == *final(state),
        call_ensures(SpectrumState::worker_stopped, (ended,), wait),
    ensures
        wait == Some(1u64),
        final(state).worker && final(state).enabled,
{
    lemma2_to64();
}

/// A clock begins with thirty frames in a second of forty-eight thousand samples, and with no
/// sample.
pub proof fn clocks_begin_without_samples(
    clock: SampleClock,
    set: &mut SampleClock,
    state: SpectrumState,
    enabled: bool,
)
    requires
        call_ensures(SampleClock::new, (), clock),
        *old(set) == clock,
        call_ensures(SampleClock::set_sample_rate, (set, 48_000), ()),
        call_ensures(SpectrumState::new, (enabled,), state),
    ensures
        *final(set) == clock,
        clock.filled == 0,
        state.enabled == enabled && !state.worker,
{
}

} // verus!
