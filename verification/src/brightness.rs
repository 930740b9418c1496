//! Screen brightness: which backlight is used, and how a change is written.
use crate::sort::{leader, leads, Ranked};
use crate::text::{
    ascii_lower, ascii_upper, begins_with, concat2, concat3, concat4, concat5, ends_with, has_text,
    join, joined, joined_holds, lower_char, not_after, occurs_at, parts_show, pieces, same,
    signed_decimal, signed_numeral, split_pieces, split_words, text_le, text_le_total,
    text_le_transitive, texts, to_ascii_lower, trim, trimmed, words,
};
use vstd::prelude::*;

verus! {

/// Where the kernel lists backlights.
pub const BACKLIGHT_CLASS_PATH: &'static str = "/sys/class/backlight";

pub const ICON_BRIGHTNESS: &'static str = "\u{f00df}";

/// What a second change is told while one is running.
pub const BRIGHTNESS_BUSY: &'static str = "another brightness change is already in progress";

/// How long a read of the brightness stays good, in milliseconds.
pub const BRIGHTNESS_CACHE_TTL_MS: u64 = 500;

/// The least brightness that is set, in percent.
pub const BRIGHTNESS_MIN_PERCENT: i32 = 5;

/// What controls the brightness.
#[derive(Clone, Copy, Debug, PartialEq, Eq, Structural)]
pub enum BrightnessBackend {
    Unknown,
    Backlight,
    Ddc,
    Unavailable,
}

/// The kinds of interface that the kernel gives a backlight.
#[derive(Clone, Copy, Debug, PartialEq, Eq, Structural)]
pub enum BacklightKind {
    Firmware,
    Platform,
    Raw,
    Unknown,
}

impl BacklightKind {
    pub open spec fn named(value: Seq<char>) -> Self {
        let value = trimmed(value);
        if value == "firmware"@ {
            BacklightKind::Firmware
        } else if value == "platform"@ {
            BacklightKind::Platform
        } else if value == "raw"@ {
            BacklightKind::Raw
        } else {
            BacklightKind::Unknown
        }
    }

    pub fn parse(value: &str) -> (r: Self)
        ensures
            r == BacklightKind::named(value@),
    {
        let value = trim(value);
        if same(&value, "firmware") {
            BacklightKind::Firmware
        } else if same(&value, "platform") {
            BacklightKind::Platform
        } else if same(&value, "raw") {
            BacklightKind::Raw
        } else {
            BacklightKind::Unknown
        }
    }

    pub open spec fn rank(self) -> u8 {
        match self {
            BacklightKind::Firmware => 0,
            BacklightKind::Platform => 1,
            BacklightKind::Raw => 2,
            BacklightKind::Unknown => 3,
        }
    }

    pub fn priority(self) -> (r: u8)
        ensures
            r == self.rank(),
    {
        match self {
            BacklightKind::Firmware => 0,
            BacklightKind::Platform => 1,
            BacklightKind::Raw => 2,
            BacklightKind::Unknown => 3,
        }
    }
}

#[derive(Clone, Debug, PartialEq, Eq)]
pub struct BacklightDevice {
    pub name: String,
    pub kind: BacklightKind,
    pub brightness: u64,
    pub maximum: u64,
}

/// Backlights go by kind, then by name.
impl Ranked for BacklightDevice {
    open spec fn le(&self, other: &Self) -> bool {
        if self.kind.rank() != other.kind.rank() {
            self.kind.rank() < other.kind.rank()
        } else {
            text_le(self.name@, other.name@)
        }
    }

    proof fn le_total(a: &Self, b: &Self) {
        text_le_total(a.name@, b.name@);
    }

    proof fn le_transitive(a: &Self, b: &Self, c: &Self) {
        if text_le(a.name@, b.name@) && text_le(b.name@, c.name@) {
            text_le_transitive(a.name@, b.name@, c.name@);
        }
    }

    fn ranks_le(&self, other: &Self) -> (r: bool) {
        let mine: u8 = self.kind.priority();
        let theirs: u8 = other.kind.priority();
        if mine != theirs {
            mine < theirs
        } else {
            not_after(&self.name, &other.name)
        }
    }
}

impl BacklightDevice {
    /// Makes a device of what the kernel says of it; one without a maximum is of no use.
    pub fn read(name: String, brightness: u64, maximum: u64, kind: Option<&str>) -> (r: Result<
        Self,
        String,
    >)
        ensures
            if maximum == 0 {
                r matches Err(message) && message@ == "backlight device "@ + name@
                    + " reports max_brightness=0"@
            } else {
                r matches Ok(device) && device.name@ == name@ && device.brightness == brightness
                    && device.maximum == maximum && device.kind == (match kind {
                    Some(text) => BacklightKind::named(text@),
                    None => BacklightKind::Unknown,
                })
            },
    {
        if maximum == 0 {
            return Err(concat3("backlight device ", &name, " reports max_brightness=0"));
        }
        let kind = match kind {
            Some(text) => BacklightKind::parse(text),
            None => BacklightKind::Unknown,
        };
        Ok(BacklightDevice { name, kind, brightness, maximum })
    }

    /// The brightness and the maximum, the first no more than the second.
    pub fn level(&self) -> (r: (u64, u64))
        ensures
            r.1 == self.maximum,
            r.0 == (if self.brightness < self.maximum {
                self.brightness
            } else {
                self.maximum
            }),
    {
        if self.brightness < self.maximum {
            (self.brightness, self.maximum)
        } else {
            (self.maximum, self.maximum)
        }
    }
}

/// Picks the backlight to use.
pub fn select_backlight_device(devices: Vec<BacklightDevice>) -> (r: Option<BacklightDevice>)
    ensures
        match r {
            Some(device) => exists|i: int| #[trigger] leads(devices@, i) && device == devices@[i],
            None => devices@.len() == 0,
        },
{
    let mut devices = devices;
    match leader(&devices) {
        Some(i) => Some(devices.swap_remove(i)),
        None => None,
    }
}

/// Picks the backlight to use, or says why there is none. `failures` tells what could not be read.
pub fn find_backlight_device(
    class_path: &str,
    devices: Vec<BacklightDevice>,
    failures: &Vec<String>,
) -> (r: Result<BacklightDevice, String>)
    ensures
        match r {
            Ok(device) => exists|i: int| #[trigger] leads(devices@, i) && device == devices@[i],
            Err(message) => devices@.len() == 0 && message@ == (if failures@.len() == 0 {
                "no backlight devices found in "@ + class_path@
            } else {
                "no usable backlight devices found in "@ + class_path@ + ": "@ + joined(
                    texts(failures@),
                    "; "@,
                )
            }),
        },
{
    match select_backlight_device(devices) {
        Some(device) => Ok(device),
        None => if failures.is_empty() {
            Err(concat2("no backlight devices found in ", class_path))
        } else {
            let list = join(failures, "; ");
            Err(concat4("no usable backlight devices found in ", class_path, ": ", &list))
        },
    }
}

/// A firmware backlight is used wherever there is one.
pub proof fn firmware_comes_first(devices: Seq<BacklightDevice>, i: int, j: int)
    requires
        leads(devices, i),
        0 <= j < devices.len(),
        devices[j].kind == BacklightKind::Firmware,
    ensures
        devices[i].kind == BacklightKind::Firmware,
{
    assert(devices[i].le(&devices[j]));
}

/// What to try next to set the brightness.
pub enum WriteStep {
    Backlight,
    /// The display itself; where the backlight was tried before, with its error.
    Ddc(Option<String>),
    Done(BrightnessBackend),
    Failed(String),
}

/// What to try first.
pub fn first_write(backend: BrightnessBackend) -> (r: WriteStep)
    ensures
        match backend {
            BrightnessBackend::Ddc => r matches WriteStep::Ddc(before) && before is None,
            _ => r is Backlight,
        },
{
    match backend {
        BrightnessBackend::Ddc => WriteStep::Ddc(None),
        _ => WriteStep::Backlight,
    }
}

/// Whether `r` follows `step` for the backend once `reply` has come back.
pub open spec fn write_follows(
    backend: BrightnessBackend,
    step: WriteStep,
    reply: Result<(), String>,
    r: WriteStep,
) -> bool {
    match step {
        WriteStep::Backlight => match reply {
            Ok(()) => r == WriteStep::Done(BrightnessBackend::Backlight),
            Err(error) => if backend == BrightnessBackend::Backlight {
                r == WriteStep::Failed(error)
            } else {
                r matches WriteStep::Ddc(Some(before)) && before@ == error@
            },
        },
        WriteStep::Ddc(before) => match reply {
            Ok(()) => r == WriteStep::Done(BrightnessBackend::Ddc),
            Err(error) => match before {
                Some(first) => r matches WriteStep::Failed(message) && message@
                    == "backlight failed ("@ + first@ + "); DDC/CI failed ("@ + error@ + ")"@,
                None => r == WriteStep::Failed(error),
            },
        },
        WriteStep::Done(_) => r == step,
        WriteStep::Failed(_) => r == step,
    }
}

/// What to do once `reply` has come back.
pub fn next_write(backend: BrightnessBackend, step: WriteStep, reply: Result<(), String>) -> (r:
    WriteStep)
    ensures
        write_follows(backend, step, reply, r),
{
    match step {
        WriteStep::Backlight => match reply {
            Ok(()) => WriteStep::Done(BrightnessBackend::Backlight),
            Err(error) => match backend {
                BrightnessBackend::Backlight => WriteStep::Failed(error),
                _ => WriteStep::Ddc(Some(error)),
            },
        },
        WriteStep::Ddc(before) => match reply {
            Ok(()) => WriteStep::Done(BrightnessBackend::Ddc),
            Err(error) => match before {
                Some(first) => WriteStep::Failed(
                    concat5("backlight failed (", &first, "); DDC/CI failed (", &error, ")"),
                ),
                None => WriteStep::Failed(error),
            },
        },
        WriteStep::Done(done) => WriteStep::Done(done),
        WriteStep::Failed(message) => WriteStep::Failed(message),
    }
}

/// A brightness is set, or has failed, after two tries at the latest, and a backend that is known
/// is the only one tried.
pub proof fn writes_end(
    backend: BrightnessBackend,
    first: WriteStep,
    reply: Result<(), String>,
    second: WriteStep,
    again: Result<(), String>,
    third: WriteStep,
)
    requires
        first is Backlight || first == WriteStep::Ddc(None),
        write_follows(backend, first, reply, second),
        write_follows(backend, second, again, third),
    ensures
        third is Done || third is Failed,
        backend == BrightnessBackend::Backlight || first is Ddc ==> second is Done
            || second is Failed,
{
}

/// The percentage that is written, within what is allowed.
pub fn write_percent(percent: i32) -> (r: i32)
    ensures
        r == (if percent < BRIGHTNESS_MIN_PERCENT {
            BRIGHTNESS_MIN_PERCENT
        } else if percent > 100 {
            100
        } else {
            percent
        }),
{
    if percent < BRIGHTNESS_MIN_PERCENT {
        BRIGHTNESS_MIN_PERCENT
    } else if percent > 100 {
        100
    } else {
        percent
    }
}

/// The arguments that set a backlight.
pub fn backlight_arguments(device: &str, percent: i32) -> (r: Vec<String>)
    ensures
        texts(r@) == seq![
            "--device="@ + device@,
            "--class=backlight"@,
            "set"@,
            signed_decimal(percent as int) + "%"@,
        ],
{
    let number = signed_numeral(percent as i64);
    let mut out: Vec<String> = Vec::new();
    out.push(concat2("--device=", device));
    out.push("--class=backlight".to_owned());
    out.push("set".to_owned());
    out.push(concat2(&number, "%"));
    assert(texts(out@) =~= seq![
        "--device="@ + device@,
        "--class=backlight"@,
        "set"@,
        signed_decimal(percent as int) + "%"@,
    ]);
    out
}

/// The arguments that set a display itself.
pub fn ddc_arguments(percent: i32) -> (r: Vec<String>)
    ensures
        texts(r@) == seq!["setvcp"@, "10"@, signed_decimal(percent as int)],
{
    let mut out: Vec<String> = Vec::new();
    out.push("setvcp".to_owned());
    out.push("10".to_owned());
    out.push(signed_numeral(percent as i64));
    assert(texts(out@) =~= seq!["setvcp"@, "10"@, signed_decimal(percent as int)]);
    out
}

/// How long to wait for another change before one is written, in milliseconds.
pub fn write_debounce(backend: BrightnessBackend) -> (r: u64)
    ensures
        r == (match backend {
            BrightnessBackend::Backlight => 60u64,
            BrightnessBackend::Ddc => 250u64,
            _ => 90u64,
        }),
{
    match backend {
        BrightnessBackend::Backlight => 60,
        BrightnessBackend::Ddc => 250,
        _ => 90,
    }
}

/// What the button in the bar says.
pub fn brightness_tooltip(backend: BrightnessBackend, percentage: i32) -> (r: String)
    ensures
        r@ == (match backend {
            BrightnessBackend::Backlight => "Brightness "@ + signed_decimal(percentage as int)
                + "%"@,
            BrightnessBackend::Ddc => "Brightness "@ + signed_decimal(percentage as int)
                + "% • DDC/CI"@,
            BrightnessBackend::Unknown => "Brightness"@,
            BrightnessBackend::Unavailable => "Brightness unavailable"@,
        }),
{
    let number = signed_numeral(percentage as i64);
    match backend {
        BrightnessBackend::Backlight => concat3("Brightness ", &number, "%"),
        BrightnessBackend::Ddc => concat3("Brightness ", &number, "% • DDC/CI"),
        BrightnessBackend::Unknown => "Brightness".to_owned(),
        BrightnessBackend::Unavailable => "Brightness unavailable".to_owned(),
    }
}

/// Whether the fields of a line report a continuous value of the brightness.
pub open spec fn is_reading(fields: Seq<Seq<char>>) -> bool {
    fields.len() >= 5 && ascii_lower(fields[0]) == "vcp"@ && ascii_lower(fields[1]) == "10"@
        && ascii_lower(fields[2]) == "c"@
}

/// The values and maxima that the lines report, in order.
pub open spec fn readings(lines: Seq<Seq<char>>) -> Seq<(Seq<char>, Seq<char>)>
    decreases lines.len(),
{
    if lines.len() == 0 {
        Seq::empty()
    } else {
        let before = readings(lines.drop_last());
        let fields = words(lines.last());
        if is_reading(fields) {
            before.push((fields[3], fields[4]))
        } else {
            before
        }
    }
}

pub open spec fn reading_texts(list: Seq<(String, String)>) -> Seq<(Seq<char>, Seq<char>)> {
    list.map_values(|pair: (String, String)| (pair.0@, pair.1@))
}

/// The numerals of the values and maxima that `ddcutil` reports; the first pair that makes sense
/// is the brightness.
pub fn ddc_readings(output: &str) -> (r: Vec<(String, String)>)
    ensures
        reading_texts(r@) == readings(pieces(output@, '\n')),
{
    let lines = split_pieces(output, '\n');
    let ghost all = texts(lines@);
    let mut out: Vec<(String, String)> = Vec::new();
    let mut i: usize = 0;
    assert(all.take(0) =~= Seq::<Seq<char>>::empty());
    while i < lines.len()
        invariant
            all == texts(lines@),
            all == pieces(output@, '\n'),
            i <= lines@.len(),
            reading_texts(out@) =~= readings(all.take(i as int)),
        decreases lines@.len() - i,
    {
        proof {
            assert(all.take(i as int + 1).drop_last() =~= all.take(i as int));
            assert(all.take(i as int + 1).last() == lines@[i as int]@);
        }
        let fields = split_words(&lines[i]);
        let ghost list = words(lines@[i as int]@);
        assert(list == texts(fields@));
        if fields.len() >= 5 {
            assert(forall|k: int| 0 <= k < 5 ==> list[k] == (#[trigger] fields@[k])@);
            let first = to_ascii_lower(&fields[0]);
            let second = to_ascii_lower(&fields[1]);
            let third = to_ascii_lower(&fields[2]);
            assert(list[0] == fields@[0]@ && list[1] == fields@[1]@ && list[2] == fields@[2]@);
            assert(list[3] == fields@[3]@ && list[4] == fields@[4]@);
            if same(&first, "vcp") && same(&second, "10") && same(&third, "c") {
                out.push((fields[3].clone(), fields[4].clone()));
            }
        } else {
            assert(list.len() < 5);
        }
        i = i + 1;
    }
    assert(all.take(all.len() as int) =~= all);
    out
}

/// The kernel's names of the kinds of backlight, and the order in which they are preferred.
pub proof fn kinds_have_their_order(text: &str, kind: BacklightKind, rank: u8)
    requires
        call_ensures(BacklightKind::parse, (text,), kind),
        call_ensures(BacklightKind::priority, (kind,), rank),
    ensures
        (rank == 0) == (trimmed(text@) == "firmware"@),
        (rank == 1) == (trimmed(text@) == "platform"@),
        (rank == 2) == (trimmed(text@) == "raw"@),
        rank <= 3,
{
    reveal_strlit("firmware");
    reveal_strlit("platform");
    reveal_strlit("raw");
    assert("firmware"@.len() == 8 && "platform"@.len() == 8 && "raw"@.len() == 3);
    assert("firmware"@[0] != "platform"@[0]);
}

/// The backlight that is used is one of those found, no other is of a better kind, and of those of
/// its kind it comes first by name. There is none only where none was found.
pub proof fn best_backlight_is_used(
    class_path: &str,
    devices: Vec<BacklightDevice>,
    failures: Vec<String>,
    r: Result<BacklightDevice, String>,
    i: int,
)
    requires
        call_ensures(find_backlight_device, (class_path, devices, &failures), r),
        0 <= i < devices@.len(),
    ensures
        r matches Ok(device) && devices@.contains(device) && device.kind.rank()
            <= devices@[i].kind.rank() && (device.kind == devices@[i].kind ==> text_le(
            device.name@,
            devices@[i].name@,
        )),
{
    let k = choose|k: int| #[trigger] leads(devices@, k) && r->Ok_0 == devices@[k];
    assert(devices@[k].le(&devices@[i]));
}

/// A backlight is of use exactly where it has a maximum, and its level is never above it.
pub proof fn backlights_need_a_maximum(
    name: String,
    brightness: u64,
    maximum: u64,
    kind: Option<&str>,
    r: Result<BacklightDevice, String>,
    device: BacklightDevice,
    level: (u64, u64),
)
    requires
        call_ensures(BacklightDevice::read, (name, brightness, maximum, kind), r),
        call_ensures(BacklightDevice::level, (&device,), level),
    ensures
        r is Err == (maximum == 0),
        r matches Ok(found) ==> found.name@ == name@ && found.brightness == brightness
            && found.maximum == maximum,
        r matches Err(message) ==> has_text(message@, name@),
        level.0 <= level.1,
        level.1 == device.maximum,
        device.brightness <= device.maximum ==> level.0 == device.brightness,
{
    if let Err(message) = r {
        let at = "backlight device "@.len() as int;
        assert(message@.subrange(at, at + name@.len()) =~= name@);
        assert(occurs_at(message@, name@, at));
    }
}

/// Setting the brightness is done exactly where a try succeeds, by what was tried; a failure tells
/// the error of each try.
pub proof fn writes_end_as_they_went(
    backend: BrightnessBackend,
    step: WriteStep,
    reply: Result<(), String>,
    r: WriteStep,
)
    requires
        call_ensures(next_write, (backend, step, reply), r),
        step is Backlight || step is Ddc,
    ensures
        r is Done == reply is Ok,
        step is Backlight && reply is Ok ==> r == WriteStep::Done(BrightnessBackend::Backlight),
        step is Ddc && reply is Ok ==> r == WriteStep::Done(BrightnessBackend::Ddc),
        step is Ddc && reply is Err ==> r is Failed,
        step is Backlight && reply is Err ==> (r is Failed) == (backend is Backlight),
        r matches WriteStep::Failed(message) ==> has_text(message@, reply->Err_0@),
        step matches WriteStep::Ddc(Some(first)) ==> (r is Failed ==> has_text(
            r->Failed_0@,
            first@,
        )),
{
    if let WriteStep::Failed(message) = r {
        let error = reply->Err_0@;
        if let WriteStep::Ddc(Some(first)) = step {
            let head = "backlight failed ("@;
            let middle = "); DDC/CI failed ("@;
            let at = head.len() as int;
            assert(message@.subrange(at, at + first@.len()) =~= first@);
            assert(occurs_at(message@, first@, at));
            let behind = at + first@.len() + middle.len();
            assert(message@.subrange(behind, behind + error.len()) =~= error);
            assert(occurs_at(message@, error, behind));
        } else {
            assert(message@.subrange(0, error.len() as int) =~= error);
            assert(occurs_at(message@, error, 0));
        }
    }
}

/// A display that is known to be set by itself is not tried as a backlight, and the other way
/// round.
pub proof fn known_backends_are_tried_first(backend: BrightnessBackend, r: WriteStep)
    requires
        call_ensures(first_write, (backend,), r),
    ensures
        r is Ddc == (backend is Ddc),
        r is Backlight == !(backend is Ddc),
{
}

/// The percentage that is written is the one asked for, but never under five nor over a hundred,
/// and more is never less.
pub proof fn written_percentages_are_bounded(a: i32, b: i32, of_a: i32, of_b: i32)
    requires
        call_ensures(write_percent, (a,), of_a),
        call_ensures(write_percent, (b,), of_b),
    ensures
        5 <= of_a <= 100,
        5 <= a <= 100 ==> of_a == a,
        a <= b ==> of_a <= of_b,
{
}

/// The programs are told the device and the percentage.
pub proof fn programs_are_told_the_percentage(
    device: &str,
    percent: i32,
    backlight: Vec<String>,
    ddc: Vec<String>,
)
    requires
        call_ensures(backlight_arguments, (device, percent), backlight),
        call_ensures(ddc_arguments, (percent,), ddc),
    ensures
        backlight@.len() == 4,
        backlight@[0]@ == "--device="@ + device@,
        backlight@[1]@ == "--class=backlight"@,
        backlight@[2]@ == "set"@,
        backlight@[3]@ == signed_decimal(percent as int) + "%"@,
        ddc@.len() == 3,
        ddc@[0]@ == "setvcp"@,
        ddc@[1]@ == "10"@,
        ddc@[2]@ == signed_decimal(percent as int),
{
    let (a, b) = (texts(backlight@), texts(ddc@));
    assert(a.len() == backlight@.len() && b.len() == ddc@.len());
    assert(a[0] == backlight@[0]@ && a[1] == backlight@[1]@ && a[2] == backlight@[2]@ && a[3]
        == backlight@[3]@);
    assert(b[0] == ddc@[0]@ && b[1] == ddc@[1]@ && b[2] == ddc@[2]@);
}

/// A slower way to set the brightness waits longer for more changes.
pub proof fn slow_writes_wait_longer(a: u64, b: u64, c: u64, d: u64)
    requires
        call_ensures(write_debounce, (BrightnessBackend::Backlight,), a),
        call_ensures(write_debounce, (BrightnessBackend::Ddc,), b),
        call_ensures(write_debounce, (BrightnessBackend::Unknown,), c),
        call_ensures(write_debounce, (BrightnessBackend::Unavailable,), d),
    ensures
        a == 60,
        b == 250,
        c == 90,
        a < c < b,
        c == d,
{
}

/// The button tells the percentage where it is known, and the display's own way of setting it.
pub proof fn tooltips_tell_the_brightness(backend: BrightnessBackend, percent: i32, r: String)
    requires
        call_ensures(brightness_tooltip, (backend, percent), r),
    ensures
        begins_with(r@, "Brightness"@),
        backend is Backlight || backend is Ddc ==> has_text(
            r@,
            signed_decimal(percent as int) + "%"@,
        ),
        (r@.last() == 'I') == (backend is Ddc),
        (r@ == "Brightness unavailable"@) == (backend is Unavailable),
{
    reveal_strlit("Brightness");
    reveal_strlit("Brightness ");
    reveal_strlit("%");
    reveal_strlit("% • DDC/CI");
    reveal_strlit("Brightness unavailable");
    let n = signed_decimal(percent as int);
    assert(r@.subrange(0, 10) =~= "Brightness"@);
    if backend is Backlight || backend is Ddc {
        let pat = n + "%"@;
        assert(r@.subrange(11, 11int + pat.len()) =~= pat);
        assert(occurs_at(r@, pat, 11));
    }
    if backend is Backlight {
        assert(r@.last() == '%');
        assert("Brightness unavailable"@.last() == 'e');
    }
    if backend is Ddc {
        assert(r@.last() == 'I');
        assert("Brightness unavailable"@.last() == 'e');
    }
    if backend is Unknown {
        assert("Brightness"@.len() == 10 && "Brightness unavailable"@.len() == 22);
        assert(r@.last() == 's');
    }
}

/// A line gives a reading exactly where it has five words and the first three are those of the
/// brightness; the reading is the next two.
pub proof fn readings_come_from_lines(lines: Seq<Seq<char>>, line: Seq<char>)
    ensures
        ({
            let fields = words(line);
            let reads = fields.len() >= 5 && ascii_upper(fields[0]) == "VCP"@ && fields[1] == "10"@
                && ascii_upper(fields[2]) == "C"@;
            readings(lines.push(line)) == (if reads {
                readings(lines).push((fields[3], fields[4]))
            } else {
                readings(lines)
            })
        }),
{
    reveal_strlit("VCP");
    reveal_strlit("vcp");
    reveal_strlit("C");
    reveal_strlit("c");
    reveal_strlit("10");
    let fields = words(line);
    assert(lines.push(line).drop_last() =~= lines);
    assert(ascii_lower("VCP"@) =~= "vcp"@);
    assert(ascii_upper("vcp"@) =~= "VCP"@);
    assert(ascii_lower("C"@) =~= "c"@);
    assert(ascii_upper("c"@) =~= "C"@);
    if fields.len() >= 5 {
        assert(ascii_upper(ascii_lower(fields[0])) =~= ascii_upper(fields[0]));
        assert(ascii_lower(ascii_upper(fields[0])) =~= ascii_lower(fields[0]));
        assert(ascii_upper(ascii_lower(fields[2])) =~= ascii_upper(fields[2]));
        assert(ascii_lower(ascii_upper(fields[2])) =~= ascii_lower(fields[2]));
        assert(ascii_lower("10"@) =~= "10"@);
        if ascii_lower(fields[1]) == "10"@ {
            let f = fields[1];
            assert(f.len() == 2);
            assert(ascii_lower(f)[0] == '1' && ascii_lower(f)[1] == '0');
            assert(lower_char(f[0]) == '1' && lower_char(f[1]) == '0');
            assert(f[0] == '1' && f[1] == '0');
            assert(f =~= "10"@);
        }
    }
}

/// Without a backlight the message tells where none was found, and each reason that was told; one
/// without a maximum is named.
pub proof fn missing_backlights_are_told(
    place: &str,
    devices: Vec<BacklightDevice>,
    failures: Vec<String>,
    k: int,
    r: Result<BacklightDevice, String>,
    name: String,
    brightness: u64,
    kind: Option<&str>,
    unusable: Result<BacklightDevice, String>,
)
    requires
        call_ensures(find_backlight_device, (place, devices, &failures), r),
        call_ensures(BacklightDevice::read, (name, brightness, 0, kind), unusable),
    ensures
        (r is Err) == (devices@.len() == 0),
        r matches Err(message) ==> has_text(message@, place@),
        r matches Err(message) ==> (0 <= k < failures@.len() ==> has_text(message@, failures@[k]@)),
        unusable matches Err(message) && has_text(message@, name@) && ends_with(
            message@,
            "max_brightness=0"@,
        ),
{
    reveal_strlit(" reports max_brightness=0");
    reveal_strlit("max_brightness=0");
    parts_show("backlight device "@, name@, " reports max_brightness=0"@);
    let whole = "backlight device "@ + name@ + " reports max_brightness=0"@;
    assert(whole.subrange(whole.len() - 16, whole.len() as int) =~= "max_brightness=0"@);
    if r is Err {
        let none = Seq::<char>::empty();
        parts_show("no backlight devices found in "@, place@, none);
        assert("no backlight devices found in "@ + place@ + none
            =~= "no backlight devices found in "@ + place@);
        let list = texts(failures@);
        let tail = joined(list, "; "@);
        let head = "no usable backlight devices found in "@ + place@ + ": "@;
        parts_show("no usable backlight devices found in "@, place@, ": "@ + tail);
        assert(head + tail =~= "no usable backlight devices found in "@ + place@ + (": "@ + tail));
        if 0 <= k < failures@.len() {
            assert(list[k] == failures@[k]@);
            joined_holds(list, "; "@, k);
            let at = choose|at: int| occurs_at(tail, list[k], at);
            let n = head.len() + at;
            assert((head + tail).subrange(n, n + list[k].len()) =~= tail.subrange(
                at,
                at + list[k].len(),
            ));
            assert(occurs_at(head + tail, list[k], n));
        }
    }
}

/// Of the backlights the one that is chosen is among them, and none ranks before it; where there is
/// one, one is chosen.
pub proof fn chosen_backlights_come_first(
    devices: Vec<BacklightDevice>,
    r: Option<BacklightDevice>,
    i: int,
    chosen: u8,
    other: u8,
)
    requires
        call_ensures(select_backlight_device, (devices,), r),
        0 <= i < devices@.len(),
        r is Some ==> call_ensures(BacklightKind::priority, (r->0.kind,), chosen),
        call_ensures(BacklightKind::priority, (devices@[i].kind,), other),
    ensures
        r is Some,
        devices@.contains(r->0),
        chosen <= other,
{
    let n = choose|n: int| #[trigger] leads(devices@, n) && r->0 == devices@[n];
    assert(devices@[n].le(&devices@[i]));
}

/// A line with a reading gives its two numbers, wherever it stands in the output.
pub proof fn readings_are_taken_from_lines(
    front: Seq<Seq<char>>,
    line: Seq<char>,
    output: &str,
    r: Vec<(String, String)>,
)
    requires
        call_ensures(ddc_readings, (output,), r),
        pieces(output@, '\n') == front.push(line),
        is_reading(words(line)),
    ensures
        r@.len() > 0,
        r@.last().0@ == words(line)[3],
        r@.last().1@ == words(line)[4],
{
    let lines = front.push(line);
    assert(lines.drop_last() =~= front);
    let got = reading_texts(r@);
    assert(got.len() == r@.len());
    assert(got.last() == (r@.last().0@, r@.last().1@));
}

} // verus!
