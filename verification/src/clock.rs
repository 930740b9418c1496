//! The clock's text and the time of its next change.
use crate::text::{
    all_digits, concat2, concat5, decimal, digits_value, is_ascii_number, numeral,
    numerals_stand_for_their_number, push_text,
};
use vstd::prelude::*;

verus! {

/// The shortest wait before the clock is drawn again, in nanoseconds.
pub const MIN_WAIT_NANOS: u64 = 50_000_000;

/// The nanoseconds from a moment, given by its whole seconds and the nanoseconds past them, to
/// the start of the next minute.
pub open spec fn nanos_to_next_minute(secs: u64, subsec_nanos: u32) -> int {
    (60 - secs as int % 60) * 1_000_000_000 - subsec_nanos
}

/// How long to wait for the next minute, at least the shortest wait; a minute where the time is
/// not known. `now` is the time since the epoch in seconds and nanoseconds.
pub fn duration_until_next_minute(now: Option<(u64, u32)>) -> (r: u64)
    requires
        now matches Some((_, nanos)) ==> nanos < 1_000_000_000,
    ensures
        match now {
            Some((secs, nanos)) => r == (if nanos_to_next_minute(secs, nanos) > MIN_WAIT_NANOS {
                nanos_to_next_minute(secs, nanos)
            } else {
                MIN_WAIT_NANOS as int
            }),
            None => r == 60_000_000_000,
        },
{
    match now {
        Some((secs, nanos)) => {
            let into: u64 = secs % 60;
            let remaining: u64 = (60 - into) * 1_000_000_000 - nanos as u64;
            if remaining > MIN_WAIT_NANOS {
                remaining
            } else {
                MIN_WAIT_NANOS
            }
        },
        None => 60_000_000_000,
    }
}

/// Waiting as told ends in the next minute: not before it starts, and no more than the shortest
/// wait after.
pub proof fn wait_ends_at_the_minute(secs: u64, nanos: u32, wait: int)
    requires
        nanos < 1_000_000_000,
        wait == (if nanos_to_next_minute(secs, nanos) > MIN_WAIT_NANOS {
            nanos_to_next_minute(secs, nanos)
        } else {
            MIN_WAIT_NANOS as int
        }),
    ensures
        ({
            let next = (secs as int / 60 + 1) * 60 * 1_000_000_000;
            let end = secs as int * 1_000_000_000 + nanos + wait;
            next <= end < next + MIN_WAIT_NANOS
        }),
{
    assert(secs as int == (secs as int / 60) * 60 + secs as int % 60);
}

/// The abbreviation of a weekday counted from 1, Monday.
pub open spec fn weekday_text(day: int) -> Seq<char> {
    if day <= 1 {
        "Mon"@
    } else if day == 2 {
        "Tue"@
    } else if day == 3 {
        "Wed"@
    } else if day == 4 {
        "Thu"@
    } else if day == 5 {
        "Fri"@
    } else if day == 6 {
        "Sat"@
    } else if day == 7 {
        "Sun"@
    } else {
        "---"@
    }
}

/// The abbreviation of a month counted from 1, January.
pub open spec fn month_text(month: int) -> Seq<char> {
    if month <= 1 {
        "Jan"@
    } else if month == 2 {
        "Feb"@
    } else if month == 3 {
        "Mar"@
    } else if month == 4 {
        "Apr"@
    } else if month == 5 {
        "May"@
    } else if month == 6 {
        "Jun"@
    } else if month == 7 {
        "Jul"@
    } else if month == 8 {
        "Aug"@
    } else if month == 9 {
        "Sep"@
    } else if month == 10 {
        "Oct"@
    } else if month == 11 {
        "Nov"@
    } else if month == 12 {
        "Dec"@
    } else {
        "---"@
    }
}

/// A number with a zero in front where it has one digit.
pub open spec fn two_digits(n: nat) -> Seq<char> {
    if n < 10 {
        "0"@ + decimal(n)
    } else {
        decimal(n)
    }
}

/// The parts of a local time that the clock shows.
#[derive(Clone, Copy)]
pub struct LocalTime {
    pub hour: u32,
    pub minute: u32,
    pub day_of_week: i32,
    pub month: i32,
    pub day_of_month: u32,
}

pub open spec fn clock_text(now: LocalTime) -> Seq<char> {
    two_digits(now.hour as nat) + ":"@ + two_digits(now.minute as nat) + " "@ + weekday_text(
        now.day_of_week as int,
    ) + " "@ + month_text(now.month as int) + " "@ + decimal(now.day_of_month as nat)
}

fn weekday(day: i32) -> (r: &'static str)
    ensures
        r@ == weekday_text(day as int),
{
    if day <= 1 {
        "Mon"
    } else if day == 2 {
        "Tue"
    } else if day == 3 {
        "Wed"
    } else if day == 4 {
        "Thu"
    } else if day == 5 {
        "Fri"
    } else if day == 6 {
        "Sat"
    } else if day == 7 {
        "Sun"
    } else {
        "---"
    }
}

fn month_name(month: i32) -> (r: &'static str)
    ensures
        r@ == month_text(month as int),
{
    if month <= 1 {
        "Jan"
    } else if month == 2 {
        "Feb"
    } else if month == 3 {
        "Mar"
    } else if month == 4 {
        "Apr"
    } else if month == 5 {
        "May"
    } else if month == 6 {
        "Jun"
    } else if month == 7 {
        "Jul"
    } else if month == 8 {
        "Aug"
    } else if month == 9 {
        "Sep"
    } else if month == 10 {
        "Oct"
    } else if month == 11 {
        "Nov"
    } else if month == 12 {
        "Dec"
    } else {
        "---"
    }
}

fn padded(n: u32) -> (r: String)
    ensures
        r@ == two_digits(n as nat),
{
    let digits = numeral(n as u64);
    if n < 10 {
        concat2("0", &digits)
    } else {
        digits
    }
}

/// The clock's text; dashes where the local time is not known.
pub fn local_clock_text(now: Option<LocalTime>) -> (r: String)
    ensures
        r@ == (match now {
            Some(now) => clock_text(now),
            None => "--:-- --- --- --"@,
        }),
{
    match now {
        Some(now) => {
            let hour = padded(now.hour);
            let minute = padded(now.minute);
            let day = numeral(now.day_of_month as u64);
            let mut out = concat5(&hour, ":", &minute, " ", weekday(now.day_of_week));
            push_text(&mut out, " ");
            push_text(&mut out, month_name(now.month));
            push_text(&mut out, " ");
            push_text(&mut out, &day);
            out
        },
        None => "--:-- --- --- --".to_owned(),
    }
}

proof fn two_digits_read(n: u32)
    requires
        n < 100,
    ensures
        two_digits(n as nat).len() == 2,
        all_digits(two_digits(n as nat)),
        digits_value(two_digits(n as nat)) == n,
{
    reveal_strlit("0");
    let t = two_digits(n as nat);
    numerals_stand_for_their_number(n as nat);
    if n < 10 {
        let d = decimal(n as nat);
        assert(d.len() == 1);
        assert(t.drop_last() =~= "0"@);
        assert("0"@.drop_last() =~= Seq::<char>::empty());
        assert(digits_value(Seq::<char>::empty()) == 0);
        assert(digits_value("0"@) == 0);
        assert(d.drop_last() =~= Seq::<char>::empty());
        assert(t.last() == d.last());
        assert forall|i: int| 0 <= i < t.len() implies is_ascii_number(#[trigger] t[i]) by {
            if i > 0 {
                assert(t[i] == d[i - 1]);
            }
        }
    } else {
        assert(decimal(n as nat).drop_last() =~= decimal((n / 10) as nat));
        assert(decimal((n / 10) as nat).len() == 1);
    }
}

/// The clock shows the hour and the minute in two digits each with a colon between them, then the
/// day of the week, the month and the day of the month.
pub proof fn clock_shows_the_time(now: LocalTime, r: String)
    requires
        call_ensures(local_clock_text, (Some(now),), r),
        now.hour < 100,
        now.minute < 100,
    ensures
        r@.len() > 14,
        digits_value(r@.subrange(0, 2)) == now.hour,
        r@[2] == ':',
        digits_value(r@.subrange(3, 5)) == now.minute,
        r@[5] == ' ' && r@[9] == ' ' && r@[13] == ' ',
        digits_value(r@.skip(14)) == now.day_of_month,
        ({
            let day = r@.subrange(6, 9);
            &&& (day == "Mon"@) == (now.day_of_week <= 1)
            &&& (day == "Tue"@) == (now.day_of_week == 2)
            &&& (day == "Wed"@) == (now.day_of_week == 3)
            &&& (day == "Thu"@) == (now.day_of_week == 4)
            &&& (day == "Fri"@) == (now.day_of_week == 5)
            &&& (day == "Sat"@) == (now.day_of_week == 6)
            &&& (day == "Sun"@) == (now.day_of_week == 7)
        }),
        ({
            let month = r@.subrange(10, 13);
            &&& (month == "Jan"@) == (now.month <= 1)
            &&& (month == "Feb"@) == (now.month == 2)
            &&& (month == "Mar"@) == (now.month == 3)
            &&& (month == "Apr"@) == (now.month == 4)
            &&& (month == "May"@) == (now.month == 5)
            &&& (month == "Jun"@) == (now.month == 6)
            &&& (month == "Jul"@) == (now.month == 7)
            &&& (month == "Aug"@) == (now.month == 8)
            &&& (month == "Sep"@) == (now.month == 9)
            &&& (month == "Oct"@) == (now.month == 10)
            &&& (month == "Nov"@) == (now.month == 11)
            &&& (month == "Dec"@) == (now.month == 12)
        }),
{
    two_digits_read(now.hour);
    two_digits_read(now.minute);
    numerals_stand_for_their_number(now.day_of_month as nat);
    reveal_strlit(":");
    reveal_strlit(" ");
    let (day, month) = (weekday_text(now.day_of_week as int), month_text(now.month as int));
    weekdays_differ(now.day_of_week as int);
    months_differ(now.month as int);
    assert(r@.subrange(0, 2) =~= two_digits(now.hour as nat));
    assert(r@.subrange(3, 5) =~= two_digits(now.minute as nat));
    assert(r@.subrange(6, 9) =~= day);
    assert(r@.subrange(10, 13) =~= month);
    assert(r@.skip(14) =~= decimal(now.day_of_month as nat));
}

proof fn weekdays_differ(n: int)
    ensures
        ({
            let day = weekday_text(n);
            &&& day.len() == 3
            &&& (day == "Mon"@) == (n <= 1)
            &&& (day == "Tue"@) == (n == 2)
            &&& (day == "Wed"@) == (n == 3)
            &&& (day == "Thu"@) == (n == 4)
            &&& (day == "Fri"@) == (n == 5)
            &&& (day == "Sat"@) == (n == 6)
            &&& (day == "Sun"@) == (n == 7)
        }),
{
    reveal_strlit("Mon");
    reveal_strlit("Tue");
    reveal_strlit("Wed");
    reveal_strlit("Thu");
    reveal_strlit("Fri");
    reveal_strlit("Sat");
    reveal_strlit("Sun");
    reveal_strlit("---");
    assert("Mon"@[0] == 'M' && "Wed"@[0] == 'W' && "Fri"@[0] == 'F' && "---"@[0] == '-');
    assert("Tue"@[0] == 'T' && "Tue"@[1] == 'u' && "Thu"@[0] == 'T' && "Thu"@[1] == 'h');
    assert("Sat"@[0] == 'S' && "Sat"@[1] == 'a' && "Sun"@[0] == 'S' && "Sun"@[1] == 'u');
}

proof fn months_differ(n: int)
    ensures
        ({
            let month = month_text(n);
            &&& month.len() == 3
            &&& (month == "Jan"@) == (n <= 1)
            &&& (month == "Feb"@) == (n == 2)
            &&& (month == "Mar"@) == (n == 3)
            &&& (month == "Apr"@) == (n == 4)
            &&& (month == "May"@) == (n == 5)
            &&& (month == "Jun"@) == (n == 6)
            &&& (month == "Jul"@) == (n == 7)
            &&& (month == "Aug"@) == (n == 8)
            &&& (month == "Sep"@) == (n == 9)
            &&& (month == "Oct"@) == (n == 10)
            &&& (month == "Nov"@) == (n == 11)
            &&& (month == "Dec"@) == (n == 12)
        }),
{
    reveal_strlit("Jan");
    reveal_strlit("Feb");
    reveal_strlit("Mar");
    reveal_strlit("Apr");
    reveal_strlit("May");
    reveal_strlit("Jun");
    reveal_strlit("Jul");
    reveal_strlit("Aug");
    reveal_strlit("Sep");
    reveal_strlit("Oct");
    reveal_strlit("Nov");
    reveal_strlit("Dec");
    reveal_strlit("---");
    assert("Jan"@[0] == 'J' && "Jan"@[1] == 'a' && "Jan"@[2] == 'n');
    assert("Jun"@[0] == 'J' && "Jun"@[1] == 'u' && "Jun"@[2] == 'n');
    assert("Jul"@[0] == 'J' && "Jul"@[1] == 'u' && "Jul"@[2] == 'l');
    assert("Mar"@[0] == 'M' && "Mar"@[2] == 'r' && "May"@[0] == 'M' && "May"@[2] == 'y');
    assert("Apr"@[0] == 'A' && "Apr"@[1] == 'p' && "Aug"@[0] == 'A' && "Aug"@[1] == 'u');
    assert("Feb"@[0] == 'F' && "Sep"@[0] == 'S' && "Oct"@[0] == 'O' && "Nov"@[0] == 'N');
    assert("Dec"@[0] == 'D' && "---"@[0] == '-');
}

/// Where the time is not known dashes stand in its place, and so they do for a day or a month that
/// there is not.
pub proof fn unknown_times_are_dashes(r: String, now: LocalTime, text: String)
    requires
        call_ensures(local_clock_text, (None,), r),
        call_ensures(local_clock_text, (Some(now),), text),
        now.hour < 100,
        now.minute < 100,
    ensures
        r@ == "--:-- --- --- --"@,
        now.day_of_week > 7 ==> text@.subrange(6, 9) == "---"@,
        now.month > 12 ==> text@.subrange(10, 13) == "---"@,
{
    clock_shows_the_time(now, text);
    reveal_strlit(":");
    reveal_strlit(" ");
    two_digits_read(now.hour);
    two_digits_read(now.minute);
    weekdays_differ(now.day_of_week as int);
    months_differ(now.month as int);
    assert(text@.subrange(6, 9) =~= weekday_text(now.day_of_week as int));
    assert(text@.subrange(10, 13) =~= month_text(now.month as int));
}

/// The clock is drawn again when the next minute starts, a twentieth of a second later at most, and
/// after a minute where the time is not known.
pub proof fn clocks_wait_for_the_minute(secs: u64, nanos: u32, r: u64, unknown: u64)
    requires
        nanos < 1_000_000_000,
        call_ensures(duration_until_next_minute, (Some((secs, nanos)),), r),
        call_ensures(duration_until_next_minute, (None,), unknown),
    ensures
        r >= 50_000_000,
        r > 50_000_000 ==> (secs % 60) * 1_000_000_000 + nanos + r == 60_000_000_000,
        r == 50_000_000 ==> 60_000_000_000 <= (secs % 60) * 1_000_000_000 + nanos + r
            <= 60_050_000_000,
        unknown == 60_000_000_000,
{
}

} // verus!
