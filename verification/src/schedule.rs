//! Schedules of tasks, as the text that describes them: `5m`, `every 10m`,
//! `daily 09:00`, `2026-01-20 15:30`.

use crate::text::{chars_of, starts_with};
use vstd::prelude::*;

verus! {

/// A schedule that comes round again: its text begins with `every` or with
/// `daily`.
pub open spec fn is_recurring(schedule: Seq<char>) -> bool {
    "every"@.is_prefix_of(schedule) || "daily"@.is_prefix_of(schedule)
}

/// Decides whether a schedule comes round again.
pub fn is_recurring_schedule(schedule: &str) -> (r: bool)
    ensures
        r == is_recurring(schedule@),
{
    starts_with(schedule, "every") || starts_with(schedule, "daily")
}

/// The unit of a delay.
#[derive(Clone, Copy, Debug, PartialEq, Eq, Structural)]
pub enum Unit {
    Minutes,
    Hours,
    Days,
}

impl Unit {
    /// The milliseconds in one unit.
    pub open spec fn millis(self) -> int {
        match self {
            Unit::Minutes => 60_000,
            Unit::Hours => 3_600_000,
            Unit::Days => 86_400_000,
        }
    }
}

/// What the text of a schedule says.
#[derive(Clone, Copy, Debug, PartialEq, Eq, Structural)]
pub enum Schedule {
    /// Once, after a delay: `5m`, `2h`, `7d`.
    After { amount: i64, unit: Unit },
    /// Again and again, at an interval: `every 10m`.
    Every { amount: i64, unit: Unit },
    /// Every day at a time of day, local time: `daily 09:00`.
    Daily { hours: u32, minutes: u32 },
    /// Once, at a date and time of day, local time: `2026-01-20 15:30`.
    At { year: u32, month: u32, day: u32, hours: u32, minutes: u32 },
}

/// An ASCII digit.
pub open spec fn is_digit(c: char) -> bool {
    '0' <= c <= '9'
}

/// One or more ASCII digits.
pub open spec fn is_digits(s: Seq<char>) -> bool {
    s.len() > 0 && forall|i: int| 0 <= i < s.len() ==> is_digit(#[trigger] s[i])
}

/// The number that decimal digits stand for.
pub open spec fn digits_value(s: Seq<char>) -> nat
    decreases s.len(),
{
    if s.len() == 0 {
        0
    } else {
        digits_value(s.drop_last()) * 10 + (s.last() as u32 - '0' as u32) as nat
    }
}

/// The unit that a letter stands for.
pub open spec fn unit_of(c: char) -> Option<Unit> {
    if c == 'm' {
        Some(Unit::Minutes)
    } else if c == 'h' {
        Some(Unit::Hours)
    } else if c == 'd' {
        Some(Unit::Days)
    } else {
        None
    }
}

/// A text of the form digits and unit.
pub open spec fn is_delay(s: Seq<char>) -> bool {
    s.len() >= 2 && is_digits(s.drop_last()) && unit_of(s.last()) is Some
}

/// A text of the form `daily HH:MM`.
pub open spec fn is_daily(s: Seq<char>) -> bool {
    &&& s.len() == 11
    &&& s.take(6) == "daily "@
    &&& is_digits(s.subrange(6, 8))
    &&& s[8] == ':'
    &&& is_digits(s.subrange(9, 11))
}

/// A text of the form `YYYY-MM-DD HH:MM`.
pub open spec fn is_date_time(s: Seq<char>) -> bool {
    &&& s.len() == 16
    &&& is_digits(s.subrange(0, 4))
    &&& s[4] == '-'
    &&& is_digits(s.subrange(5, 7))
    &&& s[7] == '-'
    &&& is_digits(s.subrange(8, 10))
    &&& s[10] == ' '
    &&& is_digits(s.subrange(11, 13))
    &&& s[13] == ':'
    &&& is_digits(s.subrange(14, 16))
}

/// A year with a 29th of February.
pub open spec fn is_leap_year(year: nat) -> bool {
    (year % 4 == 0 && year % 100 != 0) || year % 400 == 0
}

/// The number of days of a month.
pub open spec fn days_in_month(year: nat, month: nat) -> nat {
    if month == 2 {
        if is_leap_year(year) {
            29
        } else {
            28
        }
    } else if month == 4 || month == 6 || month == 9 || month == 11 {
        30
    } else {
        31
    }
}

/// A day of the calendar.
pub open spec fn is_date(year: nat, month: nat, day: nat) -> bool {
    1 <= month <= 12 && 1 <= day <= days_in_month(year, month)
}

/// A time of day.
pub open spec fn is_time(hours: nat, minutes: nat) -> bool {
    hours < 24 && minutes < 60
}

/// The delay that a text of that form describes, where its amount fits.
pub open spec fn delay_of(s: Seq<char>) -> Option<(i64, Unit)> {
    if digits_value(s.drop_last()) <= i64::MAX {
        Some((digits_value(s.drop_last()) as i64, unit_of(s.last())->0))
    } else {
        None
    }
}

/// What the text of a schedule says; nothing where it has none of the four
/// forms, or names an amount that does not fit, a time that no day has, or
/// a day that the calendar does not have.
pub open spec fn schedule_of(s: Seq<char>) -> Option<Schedule> {
    if is_delay(s) {
        match delay_of(s) {
            Some((amount, unit)) => Some(Schedule::After { amount, unit }),
            None => None,
        }
    } else if "every "@.is_prefix_of(s) && is_delay(s.skip(6)) {
        match delay_of(s.skip(6)) {
            Some((amount, unit)) => Some(Schedule::Every { amount, unit }),
            None => None,
        }
    } else if is_daily(s) {
        let hours = digits_value(s.subrange(6, 8));
        let minutes = digits_value(s.subrange(9, 11));
        if is_time(hours, minutes) {
            Some(Schedule::Daily { hours: hours as u32, minutes: minutes as u32 })
        } else {
            None
        }
    } else if is_date_time(s) {
        let year = digits_value(s.subrange(0, 4));
        let month = digits_value(s.subrange(5, 7));
        let day = digits_value(s.subrange(8, 10));
        let hours = digits_value(s.subrange(11, 13));
        let minutes = digits_value(s.subrange(14, 16));
        if is_date(year, month, day) && is_time(hours, minutes) {
            Some(
                Schedule::At {
                    year: year as u32,
                    month: month as u32,
                    day: day as u32,
                    hours: hours as u32,
                    minutes: minutes as u32,
                },
            )
        } else {
            None
        }
    } else {
        None
    }
}

/// More digits never stand for less.
proof fn lemma_value_grows(s: Seq<char>, n: int)
    requires
        0 <= n <= s.len(),
    ensures
        digits_value(s.take(n)) <= digits_value(s),
    decreases s.len() - n,
{
    if n == s.len() {
        assert(s.take(n) =~= s);
    } else {
        lemma_value_grows(s.drop_last(), n);
        assert(s.drop_last().take(n) =~= s.take(n));
    }
}

/// Ten to the power of `n`.
pub open spec fn pow10(n: nat) -> nat
    decreases n,
{
    if n == 0 {
        1
    } else {
        10 * pow10((n - 1) as nat)
    }
}

/// As many digits stand for less than ten to their number.
proof fn lemma_value_below_power(s: Seq<char>)
    requires
        forall|i: int| 0 <= i < s.len() ==> is_digit(#[trigger] s[i]),
    ensures
        digits_value(s) < pow10(s.len()),
    decreases s.len(),
{
    if s.len() > 0 {
        let shorter = s.drop_last();
        assert forall|i: int| 0 <= i < shorter.len() implies is_digit(#[trigger] shorter[i]) by {
            assert(shorter[i] == s[i]);
        }
        lemma_value_below_power(shorter);
        assert(is_digit(s[s.len() - 1]));
    }
}

/// Two digits stand for less than a hundred, four for less than ten
/// thousand.
proof fn lemma_value_bound(s: Seq<char>)
    requires
        forall|i: int| 0 <= i < s.len() ==> is_digit(#[trigger] s[i]),
    ensures
        s.len() == 2 ==> digits_value(s) < 100,
        s.len() == 4 ==> digits_value(s) < 10000,
{
    lemma_value_below_power(s);
    assert(pow10(0) == 1);
    assert(pow10(1) == 10);
    assert(pow10(2) == 100);
    assert(pow10(3) == 1000);
    assert(pow10(4) == 10000);
}

/// Decides whether `v[from..to]` is one or more digits.
fn all_digits(v: &Vec<char>, from: usize, to: usize) -> (r: bool)
    requires
        from <= to <= v.len(),
    ensures
        r == is_digits(v@.subrange(from as int, to as int)),
{
    if from == to {
        return false;
    }
    let ghost part = v@.subrange(from as int, to as int);
    let mut i: usize = from;
    while i < to
        invariant
            from <= i <= to <= v.len(),
            part == v@.subrange(from as int, to as int),
            forall|j: int| 0 <= j < i - from ==> is_digit(#[trigger] part[j]),
        decreases to - i,
    {
        let c = v[i];
        assert(part[i - from] == c);
        if !('0' <= c && c <= '9') {
            return false;
        }
        i += 1;
    }
    true
}

/// The number that the digits `v[from..to]` stand for, where it fits.
fn value_of(v: &Vec<char>, from: usize, to: usize) -> (r: Option<i64>)
    requires
        from <= to <= v.len(),
        forall|j: int| from <= j < to ==> is_digit(#[trigger] v@[j]),
    ensures
        match r {
            Some(n) => n == digits_value(v@.subrange(from as int, to as int)),
            None => digits_value(v@.subrange(from as int, to as int)) > i64::MAX,
        },
{
    let ghost part = v@.subrange(from as int, to as int);
    let mut acc: i64 = 0;
    let mut i: usize = from;
    assert(part.take(0) =~= Seq::<char>::empty());
    while i < to
        invariant
            from <= i <= to <= v.len(),
            part == v@.subrange(from as int, to as int),
            forall|j: int| from <= j < to ==> is_digit(#[trigger] v@[j]),
            0 <= acc,
            acc == digits_value(part.take(i - from)),
        decreases to - i,
    {
        let c = v[i];
        let d: i64 = (c as u32 - '0' as u32) as i64;
        proof {
            assert(is_digit(v@[i as int]));
            let next = part.take(i - from + 1);
            assert(next.drop_last() =~= part.take(i - from));
            assert(next.last() == c);
            lemma_value_grows(part, i - from + 1);
        }
        if acc > (i64::MAX - d) / 10 {
            return None;
        }
        acc = acc * 10 + d;
        i += 1;
    }
    assert(part.take(to - from) =~= part);
    Some(acc)
}

/// The unit that a letter stands for.
fn unit_for(c: char) -> (r: Option<Unit>)
    ensures
        r == unit_of(c),
{
    if c == 'm' {
        Some(Unit::Minutes)
    } else if c == 'h' {
        Some(Unit::Hours)
    } else if c == 'd' {
        Some(Unit::Days)
    } else {
        None
    }
}

/// Decides whether `v[from..]` has the form digits and unit, and gives the
/// delay where the amount fits.
fn delay_at(v: &Vec<char>, from: usize) -> (r: Option<Option<(i64, Unit)>>)
    requires
        from <= v.len(),
    ensures
        r is Some <==> is_delay(v@.skip(from as int)),
        r matches Some(d) ==> d == delay_of(v@.skip(from as int)),
{
    let n = v.len();
    let ghost s = v@.skip(from as int);
    if n - from < 2 {
        return None;
    }
    proof {
        assert(s.last() == v@[n - 1]);
        assert(s.drop_last() =~= v@.subrange(from as int, n - 1));
    }
    let unit = match unit_for(v[n - 1]) {
        Some(u) => u,
        None => {
            return None;
        },
    };
    if !all_digits(v, from, n - 1) {
        return None;
    }
    proof {
        let part = v@.subrange(from as int, n - 1);
        assert forall|j: int| from <= j < n - 1 implies is_digit(#[trigger] v@[j]) by {
            assert(part[j - from] == v@[j]);
        }
    }
    match value_of(v, from, n - 1) {
        Some(amount) => Some(Some((amount, unit))),
        None => Some(None),
    }
}

/// The number that two digits stand for.
fn two_digits(v: &Vec<char>, from: usize) -> (r: Option<u32>)
    requires
        from + 2 <= v.len(),
    ensures
        r is Some <==> is_digits(v@.subrange(from as int, from + 2)),
        r matches Some(n) ==> n == digits_value(v@.subrange(from as int, from + 2)),
{
    if !all_digits(v, from, from + 2) {
        return None;
    }
    let ghost part = v@.subrange(from as int, from + 2);
    proof {
        assert forall|j: int| from <= j < from + 2 implies is_digit(#[trigger] v@[j]) by {
            assert(part[j - from] == v@[j]);
        }
        lemma_value_bound(part);
    }
    match value_of(v, from, from + 2) {
        Some(n) => Some(n as u32),
        None => None,
    }
}

/// The number that four digits stand for.
fn four_digits(v: &Vec<char>, from: usize) -> (r: Option<u32>)
    requires
        from + 4 <= v.len(),
    ensures
        r is Some <==> is_digits(v@.subrange(from as int, from + 4)),
        r matches Some(n) ==> n == digits_value(v@.subrange(from as int, from + 4)),
{
    if !all_digits(v, from, from + 4) {
        return None;
    }
    let ghost part = v@.subrange(from as int, from + 4);
    proof {
        assert forall|j: int| from <= j < from + 4 implies is_digit(#[trigger] v@[j]) by {
            assert(part[j - from] == v@[j]);
        }
        lemma_value_bound(part);
    }
    match value_of(v, from, from + 4) {
        Some(n) => Some(n as u32),
        None => None,
    }
}

/// Decides whether a day is one of the calendar.
pub fn valid_date(year: u32, month: u32, day: u32) -> (r: bool)
    ensures
        r == is_date(year as nat, month as nat, day as nat),
{
    if month < 1 || month > 12 || day < 1 {
        return false;
    }
    let leap = (year % 4 == 0 && year % 100 != 0) || year % 400 == 0;
    let days: u32 = if month == 2 {
        if leap {
            29
        } else {
            28
        }
    } else if month == 4 || month == 6 || month == 9 || month == 11 {
        30
    } else {
        31
    };
    day <= days
}

/// The time of day that `HH:MM` at `v[from..]` names.
fn time_at(v: &Vec<char>, from: usize) -> (r: Option<(u32, u32)>)
    requires
        from + 5 <= v.len(),
    ensures
        r is Some <==> (is_digits(v@.subrange(from as int, from + 2)) && v@[from + 2] == ':'
            && is_digits(v@.subrange(from + 3, from + 5))),
        r matches Some(t) ==> t.0 == digits_value(v@.subrange(from as int, from + 2)) && t.1
            == digits_value(v@.subrange(from + 3, from + 5)),
{
    let hours = match two_digits(v, from) {
        Some(h) => h,
        None => {
            return None;
        },
    };
    if v[from + 2] != ':' {
        return None;
    }
    match two_digits(v, from + 3) {
        Some(minutes) => Some((hours, minutes)),
        None => None,
    }
}

/// Reads the text of a schedule.
pub fn parse_schedule(schedule: &str) -> (r: Option<Schedule>)
    ensures
        r == schedule_of(schedule@),
{
    let v = chars_of(schedule);
    let n = v.len();
    let ghost s = schedule@;
    assert(v@.skip(0) =~= s);
    match delay_at(&v, 0) {
        Some(Some((amount, unit))) => {
            return Some(Schedule::After { amount, unit });
        },
        Some(None) => {
            return None;
        },
        None => {},
    }
    if starts_with(schedule, "every ") {
        proof {
            reveal_strlit("every ");
        }
        match delay_at(&v, 6) {
            Some(Some((amount, unit))) => {
                return Some(Schedule::Every { amount, unit });
            },
            Some(None) => {
                return None;
            },
            None => {},
        }
    }
    if n == 11 && starts_with(schedule, "daily ") {
        proof {
            reveal_strlit("daily ");
            assert(s.take(6) =~= s.subrange(0, 6));
        }
        match time_at(&v, 6) {
            Some((hours, minutes)) => {
                return if hours < 24 && minutes < 60 {
                    Some(Schedule::Daily { hours, minutes })
                } else {
                    None
                };
            },
            None => {},
        }
    }
    proof {
        if is_daily(s) {
            reveal_strlit("daily ");
            assert(s.take(6) =~= s.subrange(0, 6));
            assert("daily "@.is_prefix_of(s));
        }
    }
    if n == 16 {
        let year = match four_digits(&v, 0) {
            Some(y) => y,
            None => {
                return None;
            },
        };
        if v[4] != '-' {
            return None;
        }
        let month = match two_digits(&v, 5) {
            Some(m) => m,
            None => {
                return None;
            },
        };
        if v[7] != '-' {
            return None;
        }
        let day = match two_digits(&v, 8) {
            Some(d) => d,
            None => {
                return None;
            },
        };
        if v[10] != ' ' {
            return None;
        }
        match time_at(&v, 11) {
            Some((hours, minutes)) => {
                return if valid_date(year, month, day) && hours < 24 && minutes < 60 {
                    Some(Schedule::At { year, month, day, hours, minutes })
                } else {
                    None
                };
            },
            None => {
                return None;
            },
        }
    }
    None
}

/// When a schedule next runs.
#[derive(Clone, Copy, Debug, PartialEq, Eq, Structural)]
pub enum NextRun {
    /// The text is no schedule, or the time is beyond what the clock holds.
    Invalid,
    /// At this time, in milliseconds since the epoch.
    At(i64),
    /// At the next occurrence of this time of day, local time.
    DailyAt { hours: u32, minutes: u32 },
    /// At this date and time of day, local time.
    LocalAt { year: u32, month: u32, day: u32, hours: u32, minutes: u32 },
}

/// The time that lies a delay after `from`, where the clock holds it.
pub open spec fn delayed(from: i64, amount: i64, unit: Unit) -> NextRun {
    if amount >= 0 && amount * unit.millis() <= i64::MAX && from + amount * unit.millis()
        <= i64::MAX {
        NextRun::At((from + amount * unit.millis()) as i64)
    } else {
        NextRun::Invalid
    }
}

/// When a schedule next runs after `from`: a delay and an interval count
/// from `from`; a time of day and a date are left in local time.
pub open spec fn next_run_of(schedule: Seq<char>, from: i64) -> NextRun {
    match schedule_of(schedule) {
        None => NextRun::Invalid,
        Some(Schedule::After { amount, unit }) => delayed(from, amount, unit),
        Some(Schedule::Every { amount, unit }) => delayed(from, amount, unit),
        Some(Schedule::Daily { hours, minutes }) => NextRun::DailyAt { hours, minutes },
        Some(Schedule::At { year, month, day, hours, minutes }) => NextRun::LocalAt {
            year,
            month,
            day,
            hours,
            minutes,
        },
    }
}

/// The time that lies a delay after `from`.
fn delay_from(from: i64, amount: i64, unit: Unit) -> (r: NextRun)
    ensures
        r == delayed(from, amount, unit),
{
    let per: i64 = match unit {
        Unit::Minutes => 60_000,
        Unit::Hours => 3_600_000,
        Unit::Days => 86_400_000,
    };
    if amount < 0 {
        return NextRun::Invalid;
    }
    if amount > i64::MAX / per {
        assert(amount * per > i64::MAX) by (nonlinear_arith)
            requires
                amount > i64::MAX / per,
                per > 0,
        ;
        return NextRun::Invalid;
    }
    assert(0 <= amount * per <= i64::MAX) by (nonlinear_arith)
        requires
            0 <= amount <= i64::MAX / per,
            per > 0,
    ;
    let span: i64 = amount * per;
    if from > i64::MAX - span {
        return NextRun::Invalid;
    }
    NextRun::At(from + span)
}

/// Calculates when a schedule next runs after `from`, in milliseconds since
/// the epoch.
pub fn calculate_next_run(schedule: &str, from: i64) -> (r: NextRun)
    ensures
        r == next_run_of(schedule@, from),
{
    match parse_schedule(schedule) {
        None => NextRun::Invalid,
        Some(Schedule::After { amount, unit }) => delay_from(from, amount, unit),
        Some(Schedule::Every { amount, unit }) => delay_from(from, amount, unit),
        Some(Schedule::Daily { hours, minutes }) => NextRun::DailyAt { hours, minutes },
        Some(Schedule::At { year, month, day, hours, minutes }) => NextRun::LocalAt {
            year,
            month,
            day,
            hours,
            minutes,
        },
    }
}

/// Whether a task is due for its advance notice: it asks for one, has not
/// had it, and `now` lies within `notify_before` minutes before its run.
pub open spec fn notice_due(now: i64, next_run: i64, notify_before: Option<i64>, notified: bool) -> bool {
    match notify_before {
        Some(minutes) => !notified && now >= next_run - minutes * 60_000 && now < next_run,
        None => false,
    }
}

/// Decides whether a task is due for its advance notice.
pub fn should_notify(now: i64, next_run: i64, notify_before: Option<i64>, notified: bool) -> (r:
    bool)
    ensures
        r == notice_due(now, next_run, notify_before, notified),
{
    match notify_before {
        Some(minutes) => {
            if notified || now >= next_run {
                return false;
            }
            let lead: i128 = (minutes as i128) * 60_000;
            (now as i128) >= (next_run as i128) - lead
        },
        None => false,
    }
}

/// What becomes of a task once it has run.
#[derive(Clone, Copy, Debug, PartialEq, Eq, Structural)]
pub enum AfterRun {
    /// It runs again, then.
    Reschedule(NextRun),
    /// It comes round again, but its schedule gives no next time: it stays
    /// as it is.
    Keep,
    /// It ran once: it is disabled.
    Disable,
}

/// What becomes of a task that ran at `now`.
pub open spec fn after_run_of(is_recurring: bool, schedule: Seq<char>, now: i64) -> AfterRun {
    if !is_recurring {
        AfterRun::Disable
    } else if next_run_of(schedule, now) is Invalid {
        AfterRun::Keep
    } else {
        AfterRun::Reschedule(next_run_of(schedule, now))
    }
}

/// Decides what becomes of a task that ran at `now`.
pub fn after_run(is_recurring: bool, schedule: &str, now: i64) -> (r: AfterRun)
    ensures
        r == after_run_of(is_recurring, schedule@, now),
{
    if !is_recurring {
        return AfterRun::Disable;
    }
    match calculate_next_run(schedule, now) {
        NextRun::Invalid => AfterRun::Keep,
        next => AfterRun::Reschedule(next),
    }
}

} // verus!
