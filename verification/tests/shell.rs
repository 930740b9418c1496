use std::cell::RefCell;
use std::rc::Rc;

use obsidian_bar::bar::{
    launcher_bar, other_panels, shows_layout, sync_monitors, wants_launcher, BarError, BarSlide,
    ShellState, BAR_FALLBACK_HEIGHT, BAR_HIDDEN_TOP_MARGIN, BAR_VISIBLE_TOP_MARGIN,
};
use obsidian_bar::bar_features::{BarFeatureController, BarFeatureState};
use obsidian_bar::brightness::{BacklightDevice, BacklightKind};
use obsidian_bar::cache::{TimedCache, WriteLock};
use obsidian_bar::clock::{duration_until_next_minute, local_clock_text, LocalTime};
use obsidian_bar::command::{
    finish_pipe, first_wait, grace_wait, output_text, program_source, run_result, CaptureBuffer,
    PipeEnd, ProgramEnd, ProgramSource, RunResult, Signal, WaitEvent, WaitThen, MAX_CAPTURE_BYTES,
    OUTPUT_TRUNCATED_MARKER,
};
use obsidian_bar::gate::{
    optional_label, retry_delay, settle_read, worker_count, Backoff, FocusGuard, Generation,
    HideStep, PopupReveal, RefreshGate, WriteQueue,
};
use obsidian_bar::sort::{leader, stable_sort};
use obsidian_bar::spectrum::{
    bit_reversed_order, sample_bytes, SampleClock, SpectrumState, ToggleStep, FFT_BITS, FFT_SIZE,
};
use obsidian_bar::text::{
    join, numeral, parse_number, replace, signed_numeral, split_words, squeeze, trim, NumberError,
};
use obsidian_bar::tooltip::{keep_on_screen, tooltip_content, window_origin, TooltipState};

#[test]
fn generation_invalidates_older_values() {
    let mut generation = Generation::default();
    let first = generation.bump();
    assert!(generation.is_current(first));

    let second = generation.bump();
    assert!(!generation.is_current(first));
    assert!(generation.is_current(second));
}

#[test]
fn slide_endpoints_match_the_reserved_work_area() {
    assert_eq!(BAR_HIDDEN_TOP_MARGIN + BAR_FALLBACK_HEIGHT, 0);
    assert_eq!(BAR_VISIBLE_TOP_MARGIN + BAR_FALLBACK_HEIGHT, 46);
}

#[test]
fn generations_wrap() {
    let mut generation = Generation { value: u64::MAX };
    assert_eq!(generation.bump(), 0);
    assert_eq!(generation.current(), 0);
}

#[test]
fn reads_coalesce() {
    let mut gate = RefreshGate::default();
    assert!(gate.begin());
    assert!(!gate.begin());
    assert!(!gate.begin());
    assert!(gate.finish());
    assert!(gate.begin());
    let revision = Generation { value: 4 };
    let outcome = settle_read(&mut gate, &revision, 3);
    assert!(!outcome.apply);
    assert!(!outcome.retry);
}

#[test]
fn the_newest_write_wins() {
    let mut queue: WriteQueue<u8> = WriteQueue::new();
    assert_eq!(queue.submit(1), Some(1));
    assert_eq!(queue.submit(2), None);
    assert_eq!(queue.submit(3), None);
    assert_eq!(queue.finish(), Some(3));
    assert_eq!(queue.finish(), None);
    assert_eq!(queue.submit(4), Some(4));
}

#[test]
fn retries_wait_longer_each_time() {
    let delays: Vec<u64> = (0..8).map(retry_delay).collect();
    assert_eq!(delays, vec![1, 2, 4, 8, 16, 30, 30, 30]);
    let mut backoff = Backoff::default();
    assert_eq!(backoff.schedule(), Some(1));
    assert_eq!(backoff.schedule(), None);
    backoff.fire();
    assert_eq!(backoff.schedule(), Some(2));
    backoff.fire();
    backoff.succeed();
    assert_eq!(backoff.schedule(), Some(1));
}

#[test]
fn popups_remember_their_fades() {
    let mut popup = PopupReveal::default();
    let shown = popup.show();
    assert!(popup.is_revealed());
    assert!(popup.is_current(shown));
    assert!(!popup.fade_may_hide(shown));
    let step = popup.start_hiding(true);
    assert!(matches!(step, HideStep::Fade(token) if popup.fade_may_hide(token)));
    assert_eq!(popup.start_hiding(false), HideStep::Reset);
    let shown = popup.show();
    popup.reset_hidden();
    assert!(!popup.is_current(shown));
    let mut focus = FocusGuard { armed: false };
    assert!(!focus.active_changed(false, true));
    assert!(!focus.active_changed(true, true));
    assert!(focus.active_changed(false, true));
    assert!(focus.should_close(false, true, false));
    assert!(!focus.should_close(false, true, true));
    assert_eq!(worker_count(None), 2);
    assert_eq!(worker_count(Some(1)), 2);
    assert_eq!(worker_count(Some(3)), 3);
    assert_eq!(worker_count(Some(64)), 4);
    assert_eq!(optional_label(Some("")), (String::new(), false));
    assert_eq!(optional_label(Some("x")), ("x".to_owned(), true));
    assert_eq!(optional_label(None), (String::new(), false));
}

#[test]
fn caches_and_locks() {
    let mut cache = TimedCache::new();
    assert!(cache.get(0, 500).is_none());
    cache.store(100, 7);
    assert_eq!(cache.get(599, 500), Some(&7));
    assert!(cache.get(600, 500).is_none());
    cache.invalidate();
    assert!(cache.get(100, 500).is_none());
    let mut lock = WriteLock::new();
    assert!(lock.acquire("busy").is_ok());
    assert_eq!(lock.acquire("busy"), Err("busy".to_owned()));
    lock.release();
    assert!(lock.acquire("busy").is_ok());
}

#[test]
fn features_are_saved_before_they_are_told() {
    let mut features: BarFeatureController<Box<dyn Fn(BarFeatureState) -> bool>> =
        BarFeatureController::new(BarFeatureState::load(None, Some(false)));
    assert!(features.state().player_visible);
    assert!(!features.state().workspace_visible);
    features.subscribe(Box::new(|_| true));
    features.subscribe(Box::new(|_| false));
    features.subscribe(Box::new(|state| state.player_visible));
    assert_eq!(features.subscribers.len(), 2);
    assert!(features.set_player_visible(true, |_| panic!("nothing to save")));
    assert!(!features.set_player_visible(false, |_| false));
    assert!(features.state().player_visible);
    assert!(features.set_player_visible(false, |state| !state.player_visible));
    assert!(!features.state().player_visible);
    assert_eq!(features.subscribers.len(), 1);
    assert!(features.set_workspace_visible(true, |_| true));
    assert_eq!(
        BarFeatureState::default(),
        BarFeatureState {
            player_visible: true,
            workspace_visible: true
        }
    );
}

#[test]
fn features_are_read_back_and_heard_until_no() {
    let state = BarFeatureState {
        player_visible: false,
        workspace_visible: true,
    };
    let settings = state.settings();
    assert_eq!(settings, vec![("player_visible", false), ("workspace_visible", true)]);
    assert_eq!(BarFeatureState::load(Some(settings[0].1), Some(settings[1].1)), state);
    let heard = Rc::new(RefCell::new(Vec::new()));
    let log = Rc::clone(&heard);
    let mut features: BarFeatureController<Box<dyn Fn(BarFeatureState) -> bool>> =
        BarFeatureController::new(state);
    features.subscribe(Box::new(move |state| {
        log.borrow_mut().push((state.player_visible, state.workspace_visible));
        log.borrow().len() < 3
    }));
    assert!(features.set_player_visible(true, |_| true));
    assert!(!features.set_workspace_visible(false, |_| false));
    assert!(features.set_workspace_visible(false, |_| true));
    assert!(features.set_player_visible(false, |_| true));
    assert_eq!(*heard.borrow(), vec![(false, true), (true, true), (true, false)]);
}

#[test]
fn clock_waits_for_the_minute() {
    assert_eq!(
        duration_until_next_minute(Some((119, 500_000_000))),
        500_000_000
    );
    assert_eq!(
        duration_until_next_minute(Some((119, 999_999_999))),
        50_000_000
    );
    assert_eq!(duration_until_next_minute(Some((120, 0))), 60_000_000_000);
    assert_eq!(duration_until_next_minute(None), 60_000_000_000);
    let time = LocalTime {
        hour: 7,
        minute: 5,
        day_of_week: 7,
        month: 12,
        day_of_month: 3,
    };
    assert_eq!(local_clock_text(Some(time)), "07:05 Sun Dec 3");
    assert_eq!(
        local_clock_text(Some(LocalTime {
            hour: 23,
            minute: 59,
            day_of_week: 0,
            month: 13,
            day_of_month: 31
        })),
        "23:59 Mon --- 31"
    );
    assert_eq!(local_clock_text(None), "--:-- --- --- --");
}

#[test]
fn output_is_kept_up_to_the_limit() {
    let mut buffer = CaptureBuffer::new();
    buffer.absorb(&[1, 2, 3]);
    assert_eq!(buffer.finish(), vec![1, 2, 3]);
    let mut buffer = CaptureBuffer::new();
    buffer.absorb(&vec![7; MAX_CAPTURE_BYTES - 1]);
    buffer.absorb(&[8, 9]);
    buffer.absorb(&[10]);
    let bytes = buffer.finish();
    assert_eq!(
        bytes.len(),
        MAX_CAPTURE_BYTES + OUTPUT_TRUNCATED_MARKER.len()
    );
    assert_eq!(bytes[MAX_CAPTURE_BYTES - 1], 8);
    assert!(bytes.ends_with(OUTPUT_TRUNCATED_MARKER.as_bytes()));
}

#[test]
fn captured_output_is_bounded() {
    let printed = "x\n".repeat(600000);
    let mut buffer = CaptureBuffer::new();
    for chunk in printed.as_bytes().chunks(8192) {
        buffer.absorb(chunk);
    }
    let output = output_text(&buffer.finish());
    assert!(output.contains("[output truncated]"));
    assert!(output.len() <= MAX_CAPTURE_BYTES + OUTPUT_TRUNCATED_MARKER.len());
}

fn message(result: RunResult) -> (String, bool) {
    match result {
        RunResult::Error { message, kill } => (message, kill),
        RunResult::Output(_) => panic!("expected an error"),
    }
}

#[test]
fn program_ends_are_explained() {
    let exited = |success: bool| ProgramEnd::Exited {
        success,
        status: "exit status: 1".to_owned(),
    };
    assert!(matches!(
        run_result("p", exited(true), PipeEnd::Bytes(vec![65]), PipeEnd::NoPipe, 10),
        RunResult::Output(bytes) if bytes == vec![65]
    ));
    assert_eq!(
        message(run_result(
            "p",
            exited(false),
            PipeEnd::NoPipe,
            PipeEnd::Bytes(b" bad \xff\n".to_vec()),
            10
        )),
        ("p: bad \u{fffd}".to_owned(), false)
    );
    assert_eq!(
        message(run_result("p", exited(false), PipeEnd::NoPipe, PipeEnd::NoPipe, 10)),
        ("p exited with exit status: 1".to_owned(), false)
    );
    assert_eq!(
        message(run_result("p", ProgramEnd::TimedOut, PipeEnd::NoPipe, PipeEnd::NoPipe, 100)),
        ("p timed out after 100 ms".to_owned(), false)
    );
    assert_eq!(
        message(run_result(
            "p",
            ProgramEnd::Failed("x".to_owned()),
            PipeEnd::NoPipe,
            PipeEnd::NoPipe,
            100
        )),
        ("failed to wait for p: x".to_owned(), false)
    );
    assert_eq!(
        message(run_result("p", exited(true), PipeEnd::TimedOut, PipeEnd::Stopped, 10)),
        (
            "timed out while draining p stdout; a descendant may still hold the pipe".to_owned(),
            true
        )
    );
    assert_eq!(
        finish_pipe(PipeEnd::Stopped, "p", "stderr"),
        Err("p stderr reader stopped unexpectedly".to_owned())
    );
    assert_eq!(
        finish_pipe(PipeEnd::Failed("io".to_owned()), "p", "stderr"),
        Err("failed to read p stderr: io".to_owned())
    );
    assert_eq!(output_text(&b"  hi \n".to_vec()), "hi");
    assert_eq!(
        program_source(Some(false), Some(false)),
        ProgramSource::Runtime
    );
    assert_eq!(
        program_source(Some(true), Some(false)),
        ProgramSource::BuildTime
    );
    assert_eq!(program_source(None, Some(true)), ProgramSource::Fallback);
    let step = first_wait(WaitEvent::TimedOut);
    assert_eq!(step.signal, Some(Signal::Terminate));
    assert_eq!(step.then, WaitThen::WaitForGrace);
    assert_eq!(grace_wait(WaitEvent::TimedOut).then, WaitThen::WaitForKill);
    assert_eq!(grace_wait(WaitEvent::Exited).signal, Some(Signal::Kill));
    assert_eq!(first_wait(WaitEvent::Exited).signal, None);
}

#[test]
fn bars_slide_after_their_start() {
    let mut bar = BarSlide::new();
    assert!(bar.startup_elapsed().is_none());
    assert!(bar.set_hidden(true).is_none());
    assert!(bar.present());
    assert!(!bar.present());
    let plan = bar.startup_elapsed().unwrap();
    assert!(plan.hidden);
    assert_eq!(plan.target_margin, -42);
    assert!(bar.startup_elapsed().is_none());
    assert!(!bar.takes_launcher());
    let plan = bar.set_hidden(false).unwrap();
    assert_eq!(plan.target_margin, 4);
    assert!(!plan.dismiss);
    assert!(bar.goes_on(plan.generation));
    assert!(bar.set_hidden(false).is_none());
    assert!(bar.set_hidden(true).unwrap().dismiss);
    assert!(!bar.goes_on(plan.generation));
    assert!(!bar.apply_margin(-42));
    assert!(bar.apply_margin(-41));
    bar.close();
    assert!(bar.set_hidden(false).is_none());
    assert_eq!(
        BarError::LayerShellUnsupported.message(),
        "the current Wayland compositor does not support layer-shell"
    );
    assert!(shows_layout("US"));
    assert!(!shows_layout("--"));
}

#[test]
fn bars_follow_the_outputs() {
    let plan = sync_monitors(&vec![1, 2], &vec![2, 3, 3, 4]);
    assert_eq!(plan.keep, vec![false, true]);
    assert_eq!(plan.create, vec![1, 3]);
    let mut hidden = BarSlide::new();
    hidden.target_hidden = true;
    assert_eq!(launcher_bar(&vec![hidden, BarSlide::new()]), Some(1));
    assert_eq!(launcher_bar(&vec![hidden]), None);
    assert_eq!(other_panels(3, 1), vec![0, 2]);
    assert!(wants_launcher(&vec!["bar".to_owned(), "launcher".to_owned()]));
    assert!(!wants_launcher(&vec!["launcher".to_owned()]));
    let mut shell = ShellState::new();
    let first = shell.schedule_fullscreen_sync();
    assert!(shell.syncs(first));
    let second = shell.schedule_fullscreen_sync();
    assert!(!shell.syncs(first));
    assert!(shell.shutdown());
    assert!(!shell.shutdown());
    assert!(!shell.syncs(second));
}

#[test]
fn tooltips_wait_and_stay_on_screen() {
    let mut tooltip = TooltipState::new();
    let token = tooltip.schedule(1);
    assert!(!tooltip.due(2, token));
    assert!(tooltip.due(1, token));
    let place = tooltip.show(1);
    assert!(tooltip.places(1, place));
    let later = tooltip.schedule(2);
    assert_eq!(tooltip.active, Some(1));
    assert_eq!(tooltip.release(2), None);
    assert!(!tooltip.due(2, later));
    let going = tooltip.release(1).unwrap();
    assert!(tooltip.vanishes(going));
    tooltip.show(3);
    assert!(!tooltip.vanishes(going));
    tooltip.invalidate_all();
    assert_eq!(tooltip.active, None);
    assert_eq!(keep_on_screen(-5, 100, 20), 12);
    assert_eq!(keep_on_screen(50, 100, 20), 50);
    assert_eq!(keep_on_screen(95, 100, 20), 68);
    assert_eq!(keep_on_screen(95, 30, 20), 12);
    assert_eq!(window_origin(10, 100, 30, 5, 7, true, false), 15);
    assert_eq!(window_origin(10, 100, 30, 5, 7, false, true), 73);
    assert_eq!(
        tooltip_content(Some("  "), Some(" <b>x</b> ")),
        Some(("<b>x</b>".to_owned(), true))
    );
    assert_eq!(
        tooltip_content(Some(" t "), Some("m")),
        Some(("t".to_owned(), false))
    );
    assert_eq!(tooltip_content(None, Some("")), None);
}

#[test]
fn spectrum_runs_while_it_is_wanted() {
    let mut spectrum = SpectrumState::new(false);
    assert_eq!(spectrum.begin_toggle(false), ToggleStep::Done);
    assert_eq!(spectrum.begin_toggle(true), ToggleStep::StartWorker);
    assert_eq!(spectrum.worker_started(false), ToggleStep::Refused);
    assert_eq!(spectrum.worker_started(true), ToggleStep::SaveSetting);
    let outcome = spectrum.setting_saved(true, false);
    assert!(!outcome.accepted);
    assert!(outcome.stop_worker);
    assert!(!spectrum.worker);
    spectrum.worker_started(true);
    assert!(spectrum.setting_saved(true, true).accepted);
    assert_eq!(spectrum.worker_stopped(), Some(1));
    assert!(spectrum.retry_elapsed());
    assert_eq!(spectrum.worker_stopped(), Some(2));
    spectrum.worker_started(true);
    spectrum.frame_arrived();
    assert_eq!(spectrum.retry.attempt, 0);
    assert!(spectrum.setting_saved(false, true).clear_frames);
    assert_eq!(spectrum.worker_stopped(), None);
}

#[test]
fn samples_are_collected_round_and_round() {
    let mut clock = SampleClock::new();
    clock.set_sample_rate(0);
    assert_eq!(clock.hop_size, 1600);
    clock.set_sample_rate(48_000);
    assert_eq!(clock.hop_size, 1600);
    let mut frames = 0;
    for _ in 0..FFT_SIZE + 1600 {
        if clock.push().1 {
            frames += 1;
        }
    }
    assert_eq!(frames, 2);
    assert_eq!(clock.write_index, 1600);
    assert_eq!(clock.slot(0), 1600);
    assert_eq!(clock.slot(FFT_SIZE - 1), 1599);
    let order = bit_reversed_order(FFT_BITS);
    assert_eq!(order.len(), FFT_SIZE);
    assert_eq!(order[1], 2048);
    for index in 0..FFT_SIZE {
        assert_eq!(
            order[index],
            index.reverse_bits() >> (usize::BITS - FFT_BITS)
        );
        assert_eq!(order[order[index]], index);
    }
    assert_eq!(sample_bytes(4, 8, 10), Some((4, 10)));
    assert_eq!(sample_bytes(4, 3, 10), Some((4, 7)));
    assert_eq!(sample_bytes(10, 3, 10), None);
}

#[test]
fn texts_are_handled_by_character() {
    assert_eq!(trim("\u{2003} a b\u{3000}"), "a b");
    assert_eq!(split_words(" a\u{a0}b \n"), vec!["a", "b"]);
    assert_eq!(squeeze("  x   y "), "x y");
    assert_eq!(join(&vec!["a".to_owned(), "b".to_owned()], "; "), "a; b");
    assert_eq!(replace("aaa", "aa", "b"), "ba");
    assert_eq!(numeral(u64::MAX), "18446744073709551615");
    assert_eq!(numeral(0), "0");
    assert_eq!(signed_numeral(-120), "-120");
    assert_eq!(parse_number(" +42\n"), Ok(42));
    assert_eq!(parse_number("18446744073709551615"), Ok(u64::MAX));
    assert_eq!(
        parse_number("18446744073709551616"),
        Err(NumberError::TooLarge)
    );
    assert_eq!(parse_number(" "), Err(NumberError::Empty));
    assert_eq!(parse_number("+"), Err(NumberError::InvalidDigit));
    assert_eq!(parse_number("4x"), Err(NumberError::InvalidDigit));
    assert_eq!(
        NumberError::TooLarge.message(),
        "4x".parse::<u8>()
            .err()
            .and("300".parse::<u8>().err())
            .unwrap()
            .to_string()
    );
}

#[test]
fn sorting_is_stable() {
    let device = |name: &str, brightness: u64| BacklightDevice {
        name: name.to_owned(),
        kind: BacklightKind::Raw,
        brightness,
        maximum: 9,
    };
    let list = vec![device("b", 1), device("a", 2), device("b", 3), device("a", 4)];
    assert_eq!(leader(&list), Some(1));
    let sorted: Vec<u64> = stable_sort(list).iter().map(|item| item.brightness).collect();
    assert_eq!(sorted, vec![2, 4, 1, 3]);
}
