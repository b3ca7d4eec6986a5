//! Request log ring buffer for API masks.

use std::collections::VecDeque;
use std::time::{Duration, Instant, SystemTime};
use vstd::prelude::*;

use crate::clock::{duration_nanos, duration_new, elapsed, whole_secs};
use crate::text::{
    all_digits, decimal, digits_value, lemma_decimal_digits, lemma_pad2, push_char, push_padded, zero_pad,
};

verus! {

/// Maximum number of log entries retained per mask.
pub const MAX_LOG_ENTRIES: usize = 50;

/// A single request log entry.
#[derive(Debug, Clone)]
pub struct LogEntry {
    pub timestamp: String,
    pub method: String,
    pub path: String,
    /// HTTP status code from upstream. None if connection failed.
    pub status_code: Option<u16>,
    /// Time to first byte in milliseconds.
    pub latency_ms: u64,
    /// Error message if the request failed (e.g. connection refused).
    /// Never contains header values.
    pub error: Option<String>,
}

/// Fixed-size ring buffer of request log entries.
#[derive(Debug)]
pub struct RequestLog {
    entries: VecDeque<LogEntry>,
}

/// The log after one push: the entry appended, the oldest evicted when the
/// log was already full.
pub open spec fn log_push(s: Seq<LogEntry>, e: LogEntry) -> Seq<LogEntry> {
    if s.len() >= MAX_LOG_ENTRIES {
        s.drop_first().push(e)
    } else {
        s.push(e)
    }
}

/// The log that pushing `history` in order onto an empty log leaves.
pub open spec fn replay(history: Seq<LogEntry>) -> Seq<LogEntry>
    decreases history.len(),
{
    if history.len() == 0 {
        Seq::empty()
    } else {
        log_push(replay(history.drop_last()), history.last())
    }
}

impl View for RequestLog {
    type V = Seq<LogEntry>;

    closed spec fn view(&self) -> Seq<LogEntry> {
        self.entries@
    }
}

impl RequestLog {
    #[verifier::type_invariant]
    closed spec fn bounded(&self) -> bool {
        self.entries@.len() <= MAX_LOG_ENTRIES
    }

    pub fn new() -> (log: Self)
        ensures
            log@ == Seq::<LogEntry>::empty(),
    {
        Self { entries: VecDeque::with_capacity(MAX_LOG_ENTRIES) }
    }

    /// Add a new log entry, evicting the oldest if at capacity.
    pub fn push(&mut self, entry: LogEntry)
        ensures
            final(self)@ == log_push(old(self)@, entry),
    {
        proof {
            use_type_invariant(&*self);
        }
        let mut q: VecDeque<LogEntry> = VecDeque::new();
        std::mem::swap(&mut q, &mut self.entries);
        if q.len() >= MAX_LOG_ENTRIES {
            q.pop_front();
        }
        q.push_back(entry);
        self.entries = q;
    }

    /// Get all entries (oldest first).
    pub fn entries(&self) -> (r: &VecDeque<LogEntry>)
        ensures
            r@ == self@,
    {
        &self.entries
    }

    /// Number of entries currently stored.
    pub fn len(&self) -> (n: usize)
        ensures
            n == self@.len(),
            n <= MAX_LOG_ENTRIES,
    {
        proof {
            use_type_invariant(self);
        }
        self.entries.len()
    }

    /// Whether the log is empty.
    pub fn is_empty(&self) -> (b: bool)
        ensures
            b == (self@.len() == 0),
    {
        self.entries.len() == 0
    }

    /// Remove all entries.
    pub fn clear(&mut self)
        ensures
            final(self)@ == Seq::<LogEntry>::empty(),
    {
        self.entries = VecDeque::new();
    }

    /// `Default`: an empty log.
    pub fn default() -> (log: Self)
        ensures
            log@ == Seq::<LogEntry>::empty(),
    {
        Self::new()
    }
}

/// The log keeps the most recent entries: after pushing any history onto an
/// empty log, it holds exactly the last `MAX_LOG_ENTRIES` entries of that
/// history (all of them when there are fewer), oldest first.
pub proof fn lemma_log_keeps_latest(history: Seq<LogEntry>)
    ensures
        replay(history) == history.skip(
            if history.len() > MAX_LOG_ENTRIES {
                history.len() - MAX_LOG_ENTRIES
            } else {
                0
            },
        ),
    decreases history.len(),
{
    if history.len() == 0 {
        assert(history.skip(0) =~= Seq::<LogEntry>::empty());
    } else {
        let h = history.drop_last();
        lemma_log_keeps_latest(h);
        if h.len() >= MAX_LOG_ENTRIES {
            assert(h.skip(h.len() - MAX_LOG_ENTRIES).drop_first().push(history.last())
                =~= history.skip(history.len() - MAX_LOG_ENTRIES));
        } else {
            assert(h.skip(0).push(history.last()) =~= history.skip(0));
        }
    }
}

#[verifier::external_type_specification]
#[verifier::external_body]
pub struct ExSystemTime(SystemTime);

/// `SystemTime::now`: the current wall-clock time. Nothing is stated of it.
#[verifier::external_body]
pub(crate) fn system_now() -> SystemTime {
    SystemTime::now()
}

/// `SystemTime::duration_since(UNIX_EPOCH)`, as an `Option`: `None` when
/// the time lies before the epoch. Depends on the clock's value, so nothing
/// more is stated.
#[verifier::external_body]
pub(crate) fn since_unix_epoch(t: &SystemTime) -> Option<Duration> {
    t.duration_since(std::time::UNIX_EPOCH).ok()
}

/// The proleptic Gregorian date `(year, month, day)` that lies `days` days
/// after 1970-01-01 (civil-from-days over 400-year eras).
pub open spec fn civil_from_days(days: int) -> (int, int, int) {
    let z = days + 719468;
    let era = z / 146097;
    let doe = z - era * 146097;
    let yoe = (doe - doe / 1460 + doe / 36524 - doe / 146096) / 365;
    let y = yoe + era * 400;
    let doy = doe - (365 * yoe + yoe / 4 - yoe / 100);
    let mp = (5 * doy + 2) / 153;
    let d = doy - (153 * mp + 2) / 5 + 1;
    let m = if mp < 10 {
        mp + 3
    } else {
        mp - 9
    };
    let y2 = if m <= 2 {
        y + 1
    } else {
        y
    };
    (y2, m, d)
}

/// Whether `y` is a leap year of the Gregorian calendar.
pub open spec fn is_leap_year(y: int) -> bool {
    y % 4 == 0 && (y % 100 != 0 || y % 400 == 0)
}

/// The number of days of year `y`.
pub open spec fn days_in_year(y: int) -> int {
    if is_leap_year(y) {
        366
    } else {
        365
    }
}

/// The number of days of month `m` (1..=12) of year `y`.
pub open spec fn days_in_month(y: int, m: int) -> int {
    if m == 2 {
        if is_leap_year(y) {
            29
        } else {
            28
        }
    } else if m == 4 || m == 6 || m == 9 || m == 11 {
        30
    } else {
        31
    }
}

/// Days from 1970-01-01 to January 1 of year `y` (from 1970 on).
pub open spec fn days_before_year(y: int) -> int
    decreases y - 1970,
{
    if y <= 1970 {
        0
    } else {
        days_before_year(y - 1) + days_in_year(y - 1)
    }
}

/// Days from January 1 of year `y` to the first of its month `m`.
pub open spec fn days_before_month(y: int, m: int) -> int
    decreases m,
{
    if m <= 1 {
        0
    } else {
        days_before_month(y, m - 1) + days_in_month(y, m - 1)
    }
}

/// The number of days from 1970-01-01 to the date `y-m-d`.
pub open spec fn day_number(y: int, m: int, d: int) -> int {
    days_before_year(y) + days_before_month(y, m) + d - 1
}

/// The leap years among years 1 to `y`.
spec fn leap_count(y: int) -> int {
    y / 4 - y / 100 + y / 400
}

proof fn lemma_leap_count_step(y: int)
    requires
        y >= 1,
    ensures
        leap_count(y) - leap_count(y - 1) == if is_leap_year(y) {
            1int
        } else {
            0
        },
{
    assert(y / 4 - (y - 1) / 4 == if y % 4 == 0 { 1int } else { 0 }) by (nonlinear_arith)
        requires
            y >= 1,
    ;
    assert(y / 100 - (y - 1) / 100 == if y % 100 == 0 { 1int } else { 0 }) by (nonlinear_arith)
        requires
            y >= 1,
    ;
    assert(y / 400 - (y - 1) / 400 == if y % 400 == 0 { 1int } else { 0 }) by (nonlinear_arith)
        requires
            y >= 1,
    ;
    assert(y % 400 == 0 ==> y % 100 == 0 && y % 4 == 0) by (nonlinear_arith)
        requires
            y >= 1,
    ;
    assert(y % 100 == 0 ==> y % 4 == 0) by (nonlinear_arith)
        requires
            y >= 1,
    ;
}

proof fn lemma_days_before_year(y: int)
    requires
        y >= 1970,
    ensures
        days_before_year(y) == 365 * (y - 1970) + leap_count(y - 1) - leap_count(1969),
    decreases y - 1970,
{
    if y > 1970 {
        lemma_days_before_year(y - 1);
        lemma_leap_count_step(y - 1);
    }
}

/// Days from March 1 to the first of the month `mp` months later
/// (`0 <= mp < 12`).
spec fn days_from_march(mp: int) -> int {
    (153 * mp + 2) / 5
}

proof fn lemma_days_before_month(y: int, m: int)
    requires
        1 <= m <= 12,
    ensures
        days_before_month(y, m) == if m <= 2 {
            days_from_march(m + 9) - 306
        } else {
            59 + (if is_leap_year(y) {
                1int
            } else {
                0
            }) + days_from_march(m - 3)
        },
{
    reveal_with_fuel(days_before_month, 13);
}

/// Days from March 1 of year 0 of an era to March 1 of its year `k`, for
/// `0 <= k < 400`: a year of 365 days and a leap day every fourth year but
/// the hundredth.
pub open spec fn era_year_start(k: int) -> int {
    365 * k + k / 4 - k / 100
}

/// Within an era of 146097 days, the day `doe` falls in year `yoe`.
proof fn lemma_year_of_era(doe: int)
    requires
        0 <= doe < 146097,
    ensures
        ({
            let yoe = (doe - doe / 1460 + doe / 36524 - doe / 146096) / 365;
            &&& 0 <= yoe <= 399
            &&& era_year_start(yoe) <= doe
            &&& doe < era_year_start(yoe + 1) + if yoe == 399 {
                1int
            } else {
                0
            }
        }),
{
    let yoe = (doe - doe / 1460 + doe / 36524 - doe / 146096) / 365;
    assert(0 <= yoe <= 399) by (nonlinear_arith)
        requires
            yoe == (doe - doe / 1460 + doe / 36524 - doe / 146096) / 365,
            0 <= doe < 146097,
    ;
    assert(era_year_start(yoe) <= doe) by (nonlinear_arith)
        requires
            yoe == (doe - doe / 1460 + doe / 36524 - doe / 146096) / 365,
            0 <= doe < 146097,
    ;
    assert(doe < era_year_start(yoe + 1) + if yoe == 399 {
        1int
    } else {
        0
    }) by (nonlinear_arith)
        requires
            yoe == (doe - doe / 1460 + doe / 36524 - doe / 146096) / 365,
            0 <= doe < 146097,
    ;
}

/// A law of the timestamp: the date of a day since the epoch is a real
/// date of the Gregorian calendar (its month in 1..=12, its day within that
/// month), and it lies exactly that many days after 1970-01-01.
pub proof fn lemma_civil_from_days_is_date(days: int)
    requires
        days >= 0,
    ensures
        ({
            let (y, m, d) = civil_from_days(days);
            &&& y >= 1970
            &&& 1 <= m <= 12
            &&& 1 <= d <= days_in_month(y, m)
            &&& day_number(y, m, d) == days
        }),
{
    let z = days + 719468;
    let era = z / 146097;
    let doe = z - era * 146097;
    assert(0 <= doe < 146097 && era >= 4) by (nonlinear_arith)
        requires
            z >= 719468,
            era == z / 146097,
            doe == z - era * 146097,
    ;
    lemma_year_of_era(doe);
    let yoe = (doe - doe / 1460 + doe / 36524 - doe / 146096) / 365;
    let yy = yoe + era * 400;
    let doy = doe - (365 * yoe + yoe / 4 - yoe / 100);
    // The March-based year `yy` has 365 days and one more when the
    // following calendar year is a leap year.
    let len = if is_leap_year(yy + 1) {
        366int
    } else {
        365
    };
    assert(0 <= doy < len) by (nonlinear_arith)
        requires
            0 <= yoe <= 399,
            era_year_start(yoe) <= doe,
            doe < era_year_start(yoe + 1) + if yoe == 399 {
                1int
            } else {
                0
            },
            doy == doe - era_year_start(yoe),
            yy == yoe + era * 400,
            len == if is_leap_year(yy + 1) {
                366int
            } else {
                365
            },
    ;
    let mp = (5 * doy + 2) / 153;
    assert(0 <= mp <= 11 && days_from_march(mp) <= doy && (mp < 11 ==> doy < days_from_march(
        mp + 1,
    ))) by (nonlinear_arith)
        requires
            mp == (5 * doy + 2) / 153,
            0 <= doy <= 365,
    ;
    let d = doy - (153 * mp + 2) / 5 + 1;
    let m = if mp < 10 {
        mp + 3
    } else {
        mp - 9
    };
    let y = if m <= 2 {
        yy + 1
    } else {
        yy
    };
    assert(civil_from_days(days) == (y, m, d));
    // Month lengths counted from March.
    assert(mp < 11 ==> days_from_march(mp + 1) - days_from_march(mp) == days_in_month(y, m)) by {
        if mp < 11 {
            assert(m != 2);
        }
    }
    // Days before the March-based year, counted from the epoch.
    assert(leap_count(yy) == 97 * era + yoe / 4 - yoe / 100) by (nonlinear_arith)
        requires
            yy == yoe + era * 400,
            0 <= yoe <= 399,
            era >= 0,
    ;
    assert(yy >= 1600) by (nonlinear_arith)
        requires
            yy == yoe + era * 400,
            yoe >= 0,
            era >= 4,
    ;
    lemma_leap_count_step(yy);
    lemma_leap_count_step(yy + 1);
    lemma_days_before_month(y, m);
    assert(leap_count(1969) == 477);
    if m <= 2 {
        lemma_days_before_year(yy + 1);
        assert(y >= 1970);
    } else {
        assert(yy >= 1970) by (nonlinear_arith)
            requires
                yy == yoe + era * 400,
                z == days + 719468,
                era == z / 146097,
                doe == z - era * 146097,
                doy == doe - (365 * yoe + yoe / 4 - yoe / 100),
                0 <= doy,
                days >= 0,
                mp == (5 * doy + 2) / 153,
                mp < 10,
                leap_count(yy) == 97 * era + yoe / 4 - yoe / 100,
                0 <= yoe <= 399,
        ;
        lemma_days_before_year(yy);
    }
}

/// Convert days since Unix epoch to (year, month, day).
pub fn days_to_date(days: u64) -> (r: (u64, u64, u64))
    requires
        days <= u64::MAX - 719468,
    ensures
        (r.0 as int, r.1 as int, r.2 as int) == civil_from_days(days as int),
        1 <= r.1 <= 12,
        1 <= r.2 <= days_in_month(r.0 as int, r.1 as int),
        day_number(r.0 as int, r.1 as int, r.2 as int) == days,
{
    proof {
        lemma_civil_from_days_is_date(days as int);
    }
    let z = days + 719468;
    let era = z / 146097;
    assert(era * 146097 <= z) by (nonlinear_arith)
        requires
            era == z / 146097,
    ;
    let doe = z - era * 146097;
    assert(doe < 146097) by (nonlinear_arith)
        requires
            era == z / 146097,
            doe == z - era * 146097,
    ;
    let yoe = (doe - doe / 1460 + doe / 36524 - doe / 146096) / 365;
    assert(yoe <= 399);
    assert(365 * yoe + yoe / 4 - yoe / 100 <= doe) by (nonlinear_arith)
        requires
            yoe == (doe - doe / 1460 + doe / 36524 - doe / 146096) / 365,
            doe < 146097,
    ;
    let y = yoe + era * 400;
    let doy = doe - (365 * yoe + yoe / 4 - yoe / 100);
    assert(doy <= 365) by (nonlinear_arith)
        requires
            yoe == (doe - doe / 1460 + doe / 36524 - doe / 146096) / 365,
            doy == doe - (365 * yoe + yoe / 4 - yoe / 100),
            doe < 146097,
    ;
    let mp = (5 * doy + 2) / 153;
    assert((153 * mp + 2) / 5 <= doy) by (nonlinear_arith)
        requires
            mp == (5 * doy + 2) / 153,
    ;
    let d = doy - (153 * mp + 2) / 5 + 1;
    let m = if mp < 10 {
        mp + 3
    } else {
        mp - 9
    };
    let y = if m <= 2 {
        y + 1
    } else {
        y
    };
    (y, m, d)
}

/// The timestamp text of `secs` seconds after the Unix epoch:
/// `YYYY-MM-DD HH:MM:SS` in UTC, each field zero-padded.
pub open spec fn timestamp_text(secs: nat) -> Seq<char> {
    let days = secs / 86400;
    let tod = secs % 86400;
    let (y, mo, d) = civil_from_days(days as int);
    zero_pad(decimal(y as nat), 4) + seq!['-'] + zero_pad(decimal(mo as nat), 2) + seq!['-']
        + zero_pad(decimal(d as nat), 2) + seq![' '] + zero_pad(decimal(tod / 3600), 2) + seq![
        ':',
    ] + zero_pad(decimal((tod % 3600) / 60), 2) + seq![':'] + zero_pad(decimal(tod % 60), 2)
}

/// A law of the timestamp: read back from the end, its text is the date and
/// the time of `secs`. The last eight characters are `HH:MM:SS` with
/// `HH = (secs % 86400) / 3600`, `MM = (secs % 3600) / 60` and
/// `SS = secs % 60`; before them stand a space and `YYYY-MM-DD`, a real date
/// `secs / 86400` days after 1970-01-01.
pub proof fn lemma_timestamp_reads_back(secs: nat)
    ensures
        ({
            let s = timestamp_text(secs);
            let n = s.len() as int;
            let y = digits_value(s.subrange(0, n - 15)) as int;
            let mo = digits_value(s.subrange(n - 14, n - 12)) as int;
            let d = digits_value(s.subrange(n - 11, n - 9)) as int;
            &&& n >= 19
            &&& s[n - 15] == '-' && s[n - 12] == '-' && s[n - 9] == ' '
            &&& s[n - 6] == ':' && s[n - 3] == ':'
            &&& all_digits(s.subrange(0, n - 15))
            &&& all_digits(s.subrange(n - 14, n - 12)) && all_digits(s.subrange(n - 11, n - 9))
            &&& all_digits(s.subrange(n - 8, n - 6)) && all_digits(s.subrange(n - 5, n - 3))
            &&& all_digits(s.subrange(n - 2, n))
            &&& digits_value(s.subrange(n - 8, n - 6)) == (secs % 86400) / 3600
            &&& digits_value(s.subrange(n - 5, n - 3)) == (secs % 3600) / 60
            &&& digits_value(s.subrange(n - 2, n)) == secs % 60
            &&& 1 <= mo <= 12
            &&& 1 <= d <= days_in_month(y, mo)
            &&& day_number(y, mo, d) == secs / 86400
        }),
{
    let days = secs / 86400;
    let tod = secs % 86400;
    let (y, mo, d) = civil_from_days(days as int);
    lemma_civil_from_days_is_date(days as int);
    lemma_decimal_digits(y as nat);
    let ys = zero_pad(decimal(y as nat), 4);
    assert(ys == decimal(y as nat));
    lemma_pad2(mo as nat);
    lemma_pad2(d as nat);
    assert(tod / 3600 < 24 && (tod % 3600) / 60 < 60 && tod % 60 < 60) by (nonlinear_arith)
        requires
            tod == secs % 86400,
    ;
    assert((tod % 3600) / 60 == (secs % 3600) / 60 && tod % 60 == secs % 60) by (nonlinear_arith)
        requires
            tod == secs % 86400,
    ;
    lemma_pad2(tod / 3600);
    lemma_pad2((tod % 3600) / 60);
    lemma_pad2(tod % 60);
    let ms = zero_pad(decimal(mo as nat), 2);
    let ds = zero_pad(decimal(d as nat), 2);
    let hs = zero_pad(decimal(tod / 3600), 2);
    let mis = zero_pad(decimal((tod % 3600) / 60), 2);
    let ss = zero_pad(decimal(tod % 60), 2);
    let s = timestamp_text(secs);
    assert(s == ys + seq!['-'] + ms + seq!['-'] + ds + seq![' '] + hs + seq![':'] + mis + seq![':'] + ss);
    let l = ys.len() as int;
    let n = s.len() as int;
    assert(n == l + 15);
    assert(s.subrange(0, n - 15) =~= ys);
    assert(s.subrange(n - 14, n - 12) =~= ms);
    assert(s.subrange(n - 11, n - 9) =~= ds);
    assert(s.subrange(n - 8, n - 6) =~= hs);
    assert(s.subrange(n - 5, n - 3) =~= mis);
    assert(s.subrange(n - 2, n) =~= ss);
    assert(s[n - 15] == '-' && s[n - 12] == '-' && s[n - 9] == ' ');
    assert(s[n - 6] == ':' && s[n - 3] == ':');
}

/// Format `secs` seconds after the Unix epoch as [`timestamp_text`].
pub fn format_timestamp(secs: u64) -> (s: String)
    ensures
        s@ == timestamp_text(secs as nat),
{
    let days = secs / 86400;
    let time_of_day = secs % 86400;
    let hours = time_of_day / 3600;
    let minutes = (time_of_day % 3600) / 60;
    let seconds = time_of_day % 60;
    let (year, month, day) = days_to_date(days);
    let mut s = String::new();
    push_padded(&mut s, year, 4);
    push_char(&mut s, '-');
    push_padded(&mut s, month, 2);
    push_char(&mut s, '-');
    push_padded(&mut s, day, 2);
    push_char(&mut s, ' ');
    push_padded(&mut s, hours, 2);
    push_char(&mut s, ':');
    push_padded(&mut s, minutes, 2);
    push_char(&mut s, ':');
    push_padded(&mut s, seconds, 2);
    assert(s@ =~= timestamp_text(secs as nat));
    s
}

/// Helper to create a timestamp string for log entries: the current time
/// as [`timestamp_text`] of the whole seconds since the Unix epoch (zero
/// when the clock reads before the epoch). The clock's reading is not
/// known, so the statement is for the seconds that were read.
pub fn now_timestamp() -> (s: String)
    ensures
        exists|secs: nat| s@ == timestamp_text(secs),
{
    let now = system_now();
    let d = match since_unix_epoch(&now) {
        Some(d) => d,
        None => duration_new(0, 0),
    };
    format_timestamp(whole_secs(&d))
}

/// Whole milliseconds of a duration, truncated to `u64` as
/// `as_millis() as u64` truncates.
pub fn millis_u64(d: &Duration) -> (ms: u64)
    ensures
        ms == (duration_nanos(*d) / 1_000_000) as u64,
{
    let n = crate::clock::as_nanos(d);
    (n / 1_000_000) as u64
}

/// Measure latency from a start instant (returns ms). The clock's reading
/// is not known, so the statement is for the elapsed time that was read.
pub fn latency_since(start: Instant) -> (ms: u64)
    ensures
        exists|d: Duration| ms == (duration_nanos(d) / 1_000_000) as u64,
{
    let e = elapsed(&start);
    millis_u64(&e)
}

} // verus!
