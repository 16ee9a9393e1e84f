//! The Gregorian calendar, carried back before its adoption, and the time
//! stamps of events.

use crate::text;
use vstd::prelude::*;

verus! {

/// Has the year `y` a 29th of February?
pub open spec fn is_leap(y: int) -> bool {
    y % 4 == 0 && (y % 100 != 0 || y % 400 == 0)
}

/// The number of days in the month `m` of the year `y`.
pub open spec fn days_in_month(y: int, m: int) -> int {
    if m == 2 {
        if is_leap(y) {
            29
        } else {
            28
        }
    } else if m == 4 || m == 6 || m == 9 || m == 11 {
        30
    } else {
        31
    }
}

/// Is there a day `d` in the month `m` of the year `y`?
pub open spec fn is_date(y: int, m: int, d: int) -> bool {
    1 <= m <= 12 && 1 <= d <= days_in_month(y, m)
}

/// The number of days from the first day of the year 0 to the first day of the
/// year `y`: 365 for each year, and one for each leap year.
pub open spec fn days_before_year(y: int) -> int {
    365 * y + (y + 3) / 4 - (y + 99) / 100 + (y + 399) / 400
}

/// The number of days of the year `y` before its month `m`.
pub open spec fn days_before_month(y: int, m: int) -> int
    decreases m,
{
    if m <= 1 {
        0
    } else {
        days_before_month(y, m - 1) + days_in_month(y, m - 1)
    }
}

/// The number of days from 1 January 1970 to the given day.
pub open spec fn day_number(y: int, m: int, d: int) -> int {
    days_before_year(y) - days_before_year(1970) + days_before_month(y, m) + d - 1
}

/// A year is 365 days long, and a leap year one day longer.
pub proof fn law_year_length(y: int)
    ensures
        days_before_year(y + 1) - days_before_year(y) == if is_leap(y) {
            366int
        } else {
            365int
        },
        days_before_month(y, 13) == days_before_year(y + 1) - days_before_year(y),
{
    lemma_ceil_4(y);
    lemma_ceil_100(y);
    lemma_ceil_400(y);
    assert(y + 1 + 3 == y + 4 && y + 1 + 99 == y + 100 && y + 1 + 399 == y + 400);
    lemma_months_of_year(y);
}

proof fn lemma_months_of_year(y: int)
    ensures
        days_before_month(y, 13) == if is_leap(y) {
            366int
        } else {
            365int
        },
{
    reveal_with_fuel(days_before_month, 13);
}

/// Later years start later.
pub(crate) proof fn lemma_years_ordered(a: int, b: int)
    requires
        a <= b,
    ensures
        days_before_year(a) + 365 * (b - a) <= days_before_year(b),
    decreases b - a,
{
    if a < b {
        law_year_length(b - 1);
        lemma_years_ordered(a, b - 1);
    }
}

/// Later months start later.
pub(crate) proof fn lemma_months_ordered(y: int, a: int, b: int)
    requires
        1 <= a < b,
    ensures
        days_before_month(y, a) + days_in_month(y, a) <= days_before_month(y, b),
    decreases b - a,
{
    if a < b - 1 {
        lemma_months_ordered(y, a, b - 1);
    }
}

/// Two dates with one day number are the same date.
pub proof fn law_day_number_injective(y1: int, m1: int, d1: int, y2: int, m2: int, d2: int)
    requires
        is_date(y1, m1, d1),
        is_date(y2, m2, d2),
        day_number(y1, m1, d1) == day_number(y2, m2, d2),
    ensures
        y1 == y2,
        m1 == m2,
        d1 == d2,
{
    lemma_day_in_year(y1, m1, d1);
    lemma_day_in_year(y2, m2, d2);
    if y1 < y2 {
        law_year_length(y1);
        lemma_years_ordered(y1 + 1, y2);
    } else if y2 < y1 {
        law_year_length(y2);
        lemma_years_ordered(y2 + 1, y1);
    } else {
        if m1 < m2 {
            lemma_months_ordered(y1, m1, m2);
        } else if m2 < m1 {
            lemma_months_ordered(y1, m2, m1);
        }
    }
}

pub(crate) proof fn lemma_day_in_year(y: int, m: int, d: int)
    requires
        is_date(y, m, d),
    ensures
        0 <= days_before_month(y, m),
        days_before_month(y, m) + d <= days_before_year(y + 1) - days_before_year(y),
{
    law_year_length(y);
    lemma_months_ordered(y, m, 13);
    if m > 1 {
        lemma_months_ordered(y, 1, m);
    }
}

/// The number of days from 1 March of the year 0 to 1 March of the year `y`.
spec fn march_days(y: int) -> int {
    365 * y + y / 4 - y / 100 + y / 400
}

/// The number of days from 1 March to the first day of the month `m`, for the
/// months March to December and then January and February.
spec fn march_offset(m: int) -> int {
    if m == 3 {
        0
    } else if m == 4 {
        31
    } else if m == 5 {
        61
    } else if m == 6 {
        92
    } else if m == 7 {
        122
    } else if m == 8 {
        153
    } else if m == 9 {
        184
    } else if m == 10 {
        214
    } else if m == 11 {
        245
    } else if m == 12 {
        275
    } else if m == 1 {
        306
    } else {
        337
    }
}

proof fn lemma_ceil_4(y: int)
    ensures
        (y + 3) / 4 == y / 4 + if y % 4 == 0 {
            0int
        } else {
            1int
        },
        (y + 4) / 4 == y / 4 + 1,
{
}

proof fn lemma_ceil_100(y: int)
    ensures
        (y + 99) / 100 == y / 100 + if y % 100 == 0 {
            0int
        } else {
            1int
        },
        (y + 100) / 100 == y / 100 + 1,
        y % 100 == 0 ==> y % 4 == 0,
{
    if y % 100 == 0 {
        assert(y == 4 * (25 * (y / 100)));
    }
}

proof fn lemma_ceil_400(y: int)
    ensures
        (y + 399) / 400 == y / 400 + if y % 400 == 0 {
            0int
        } else {
            1int
        },
        (y + 400) / 400 == y / 400 + 1,
        y % 400 == 0 ==> y % 100 == 0,
{
    if y % 400 == 0 {
        assert(y == 100 * (4 * (y / 400)));
    }
}

proof fn lemma_march_year(y: int)
    ensures
        days_before_year(y) + 59 + (if is_leap(y) {
            1int
        } else {
            0int
        }) == march_days(y) + 60,
        days_before_year(y + 1) == march_days(y) + 366,
{
    lemma_ceil_4(y);
    lemma_ceil_100(y);
    lemma_ceil_400(y);
    assert(y + 1 + 3 == y + 4 && y + 1 + 99 == y + 100 && y + 1 + 399 == y + 400);
}

proof fn lemma_march_month(y: int, m: int)
    requires
        1 <= m <= 12,
    ensures
        m <= 2 ==> days_before_month(y, m) + 306 == march_offset(m),
        m >= 3 ==> days_before_month(y, m) == march_offset(m) + 59 + (if is_leap(y) {
            1int
        } else {
            0int
        }),
{
    reveal_with_fuel(days_before_month, 13);
}

/// A day of the years that begin with 1 March, as the day of a calendar year.
proof fn lemma_march_date(y: int, m: int, d: int)
    requires
        1 <= m <= 12,
    ensures
        day_number(
            if m <= 2 {
                y + 1
            } else {
                y
            },
            m,
            d,
        ) == march_days(y) + march_offset(m) + d - 1 - 719_468,
{
    let year = if m <= 2 {
        y + 1
    } else {
        y
    };
    lemma_march_year(y);
    lemma_march_month(year, m);
}

proof fn lemma_shift_4(k: int, r: int)
    ensures
        (4 * k + r) / 4 == k + r / 4,
        (4 * k + r) % 4 == r % 4,
{
}

proof fn lemma_shift_100(k: int, r: int)
    ensures
        (100 * k + r) / 100 == k + r / 100,
        (100 * k + r) % 100 == r % 100,
{
}

proof fn lemma_shift_400(k: int, r: int)
    ensures
        (400 * k + r) / 400 == k + r / 400,
        (400 * k + r) % 400 == r % 400,
{
}

proof fn lemma_era(era: int, yoe: int)
    requires
        0 <= yoe < 400,
    ensures
        march_days(era * 400 + yoe) == era * 146_097 + 365 * yoe + yoe / 4 - yoe / 100,
        is_leap(era * 400 + yoe + 1) == is_leap(yoe + 1),
{
    lemma_shift_4(era * 100, yoe);
    lemma_shift_4(era * 100, yoe + 1);
    lemma_shift_100(era * 4, yoe);
    lemma_shift_100(era * 4, yoe + 1);
    lemma_shift_400(era, yoe);
    lemma_shift_400(era, yoe + 1);
}

/// The year within an era of 400 years, and the day within that year, of the
/// day `doe` of the era. Years begin with 1 March.
fn year_of_era(doe: i64) -> (r: (i64, i64))
    requires
        0 <= doe < 146_097,
    ensures
        0 <= r.0 < 400,
        doe == 365 * r.0 + r.0 / 4 - r.0 / 100 + r.1,
        0 <= r.1 <= 364 || (r.1 == 365 && is_leap(r.0 + 1)),
{
    let mut c: i64 = doe / 36_524;
    if c == 4 {
        c = 3;
    }
    let doc: i64 = doe - c * 36_524;
    let q: i64 = doc / 1461;
    let doq: i64 = doc - q * 1461;
    let mut a: i64 = doq / 365;
    if a == 4 {
        a = 3;
    }
    let doy: i64 = doq - a * 365;
    let yoe: i64 = 100 * c + 4 * q + a;
    proof {
        assert(0 <= c <= 3 && 0 <= q <= 24 && 0 <= a <= 3);
        assert(yoe / 100 == c);
        assert(yoe / 4 == 25 * c + q);
    }
    (yoe, doy)
}

/// The month and the day in it of the day `doy` of a year that begins with
/// 1 March.
fn month_of_year(doy: i64) -> (r: (i64, i64))
    requires
        0 <= doy <= 365,
    ensures
        1 <= r.0 <= 12,
        doy == march_offset(r.0 as int) + r.1 - 1,
        1 <= r.1,
        r.1 <= 31,
        r.0 == 4 || r.0 == 6 || r.0 == 9 || r.0 == 11 ==> r.1 <= 30,
        r.0 == 2 ==> r.1 <= 29,
        r.0 == 2 && r.1 == 29 ==> doy == 365,
{
    let mp: i64 = (5 * doy + 2) / 153;
    let d: i64 = doy - (153 * mp + 2) / 5 + 1;
    let m: i64 = if mp < 10 {
        mp + 3
    } else {
        mp - 9
    };
    assert(mp == 0 || mp == 1 || mp == 2 || mp == 3 || mp == 4 || mp == 5 || mp == 6 || mp == 7
        || mp == 8 || mp == 9 || mp == 10 || mp == 11);
    (m, d)
}

/// The date of the day that lies `z` days after 1 January 1970.
pub fn civil_from_days(z: i64) -> (r: (i64, u32, u32))
    requires
        z <= i64::MAX - 719_468,
    ensures
        is_date(r.0 as int, r.1 as int, r.2 as int),
        day_number(r.0 as int, r.1 as int, r.2 as int) == z,
{
    // Days are counted from 1 March of the year 0, so that a leap day ends a year.
    let n: i64 = z + 719_468;
    let mut era: i64 = n / 146_097;
    if n % 146_097 < 0 {
        era = era - 1;
    }
    let doe: i64 = n - era * 146_097;
    let (yoe, doy) = year_of_era(doe);
    let (m, d) = month_of_year(doy);
    let y: i64 = era * 400 + yoe;
    let year: i64 = if m <= 2 {
        y + 1
    } else {
        y
    };
    proof {
        lemma_era(era as int, yoe as int);
        lemma_march_date(y as int, m as int, d as int);
    }
    (year, m as u32, d as u32)
}

// ---------------------------------------------------------------------------
// Time stamps

/// The date of the day that lies `z` days after 1 January 1970.
pub open spec fn date_of(z: int) -> (int, int, int) {
    choose|t: (int, int, int)| is_date(t.0, t.1, t.2) && #[trigger] day_number(t.0, t.1, t.2) == z
}

/// `s`, with zeros in front up to the length `width`.
pub open spec fn zero_filled(s: Seq<char>, width: int) -> Seq<char> {
    if s.len() < width {
        Seq::new((width - s.len()) as nat, |i: int| '0') + s
    } else {
        s
    }
}

/// `n` in decimal, at least `width` characters long; zeros go behind the sign.
pub open spec fn padded(n: int, width: int) -> Seq<char> {
    if n < 0 {
        seq!['-'] + zero_filled(text::decimal((-n) as nat), width - 1)
    } else {
        zero_filled(text::decimal(n as nat), width)
    }
}

/// The time that lies `secs` seconds after the start of 1970 in UTC, as RFC 3339
/// writes it: `YYYY-MM-DDTHH:MM:SSZ`.
pub open spec fn rfc3339(secs: int) -> Seq<char> {
    let date = date_of(secs / 86_400);
    let time = secs % 86_400;
    padded(date.0, 4) + seq!['-'] + padded(date.1, 2) + seq!['-'] + padded(date.2, 2) + seq!['T']
        + padded(time / 3600, 2) + seq![':'] + padded((time % 3600) / 60, 2) + seq![':'] + padded(
        time % 60,
        2,
    ) + seq!['Z']
}

/// The date of a day number is the date that the number was taken of.
pub proof fn law_date_of(y: int, m: int, d: int)
    requires
        is_date(y, m, d),
    ensures
        date_of(day_number(y, m, d)) == (y, m, d),
{
    let z = day_number(y, m, d);
    let w = (y, m, d);
    assert(is_date(w.0, w.1, w.2) && day_number(w.0, w.1, w.2) == z);
    let t = date_of(z);
    law_day_number_injective(y, m, d, t.0, t.1, t.2);
}

/// Appends `n` in decimal, at least `width` characters long.
fn push_padded(out: &mut String, n: i64, width: usize)
    requires
        width >= 1,
    ensures
        final(out)@ == old(out)@ + padded(n as int, width as int),
{
    let ghost before = out@;
    let digits: String;
    let want: usize;
    if n < 0 {
        out.push('-');
        let m: i128 = -(n as i128);
        digits = text::decimal_string(m as u64);
        want = width - 1;
    } else {
        digits = text::decimal_string(n as u64);
        want = width;
    }
    let ghost start = out@;
    let len = digits.as_str().unicode_len();
    let mut k: usize = len;
    while k < want
        invariant
            len <= k,
            k <= want || k == len,
            out@ == start + Seq::new((k - len) as nat, |i: int| '0'),
        decreases want - k,
    {
        out.push('0');
        k = k + 1;
        assert(out@ =~= start + Seq::new((k - len) as nat, |i: int| '0'));
    }
    out.append(digits.as_str());
    assert(out@ =~= before + padded(n as int, width as int));
}

/// Formats seconds since the start of 1970 as RFC 3339 UTC,
/// `YYYY-MM-DDTHH:MM:SSZ`. Times before 1970 are negative.
pub fn format_rfc3339_utc(secs: i64) -> (r: String)
    ensures
        r@ == rfc3339(secs as int),
{
    let mut days: i64 = secs / 86_400;
    let mut time: i64 = secs % 86_400;
    if time < 0 {
        days = days - 1;
        time = time + 86_400;
    }
    assert(days == secs as int / 86_400 && time == secs as int % 86_400);
    let (y, m, d) = civil_from_days(days);
    proof {
        law_date_of(y as int, m as int, d as int);
    }
    let mut out = String::new();
    push_padded(&mut out, y, 4);
    out.push('-');
    push_padded(&mut out, m as i64, 2);
    out.push('-');
    push_padded(&mut out, d as i64, 2);
    out.push('T');
    push_padded(&mut out, time / 3600, 2);
    out.push(':');
    push_padded(&mut out, (time % 3600) / 60, 2);
    out.push(':');
    push_padded(&mut out, time % 60, 2);
    out.push('Z');
    assert(out@ =~= rfc3339(secs as int));
    out
}

// ---------------------------------------------------------------------------
// Every day

/// The day after a date.
spec fn next_date(y: int, m: int, d: int) -> (int, int, int) {
    if d < days_in_month(y, m) {
        (y, m, d + 1)
    } else if m < 12 {
        (y, m + 1, 1)
    } else {
        (y + 1, 1, 1)
    }
}

/// The day before a date.
spec fn previous_date(y: int, m: int, d: int) -> (int, int, int) {
    if d > 1 {
        (y, m, d - 1)
    } else if m > 1 {
        (y, m - 1, days_in_month(y, m - 1))
    } else {
        (y - 1, 12, 31)
    }
}

proof fn lemma_next_date(y: int, m: int, d: int)
    requires
        is_date(y, m, d),
    ensures
        ({
            let t = next_date(y, m, d);
            is_date(t.0, t.1, t.2) && day_number(t.0, t.1, t.2) == day_number(y, m, d) + 1
        }),
{
    law_year_length(y);
    assert(days_before_month(y, m + 1) == days_before_month(y, m) + days_in_month(y, m));
    assert(days_before_month(y + 1, 1) == 0);
}

proof fn lemma_previous_date(y: int, m: int, d: int)
    requires
        is_date(y, m, d),
    ensures
        ({
            let t = previous_date(y, m, d);
            is_date(t.0, t.1, t.2) && day_number(t.0, t.1, t.2) == day_number(y, m, d) - 1
        }),
{
    law_year_length(y - 1);
    assert(days_before_month(y, m) == if m > 1 {
        days_before_month(y, m - 1) + days_in_month(y, m - 1)
    } else {
        0
    });
    assert(days_before_month(y - 1, 13) == days_before_month(y - 1, 12) + 31);
}

/// Every day has a date.
pub proof fn law_every_day_has_a_date(z: int)
    ensures
        ({
            let t = date_of(z);
            is_date(t.0, t.1, t.2) && day_number(t.0, t.1, t.2) == z
        }),
    decreases if z < 0 {
        -z
    } else {
        z
    },
{
    let w = if z == 0 {
        (1970int, 1int, 1int)
    } else if z > 0 {
        law_every_day_has_a_date(z - 1);
        let t = date_of(z - 1);
        lemma_next_date(t.0, t.1, t.2);
        next_date(t.0, t.1, t.2)
    } else {
        law_every_day_has_a_date(z + 1);
        let t = date_of(z + 1);
        lemma_previous_date(t.0, t.1, t.2);
        previous_date(t.0, t.1, t.2)
    };
    assert(is_date(w.0, w.1, w.2) && day_number(w.0, w.1, w.2) == z);
}

// ---------------------------------------------------------------------------
// The clock

/// The system's clock time, which the library only hands on.
#[verifier::external_type_specification]
#[verifier::external_body]
pub struct ExSystemTime(std::time::SystemTime);

/// How far a clock time lies from the start of 1970: seconds and nanoseconds,
/// `Ok` from then on, and `Err` before it.
pub uninterp spec fn epoch_offset(t: std::time::SystemTime) -> Result<(u64, u32), (u64, u32)>;

/// `SystemTime::duration_since`, asked with the start of 1970, says how far `t`
/// lies behind it, or in the error how far before it. A duration is its whole
/// seconds and less than a second in nanoseconds.
#[verifier::external_body]
fn since_epoch(t: std::time::SystemTime) -> (r: Result<(u64, u32), (u64, u32)>)
    ensures
        r == epoch_offset(t),
        match r {
            Ok(d) => d.1 < 1_000_000_000,
            Err(d) => d.1 < 1_000_000_000,
        },
{
    match t.duration_since(std::time::UNIX_EPOCH) {
        Ok(d) => Ok((d.as_secs(), d.subsec_nanos())),
        Err(e) => Err((e.duration().as_secs(), e.duration().subsec_nanos())),
    }
}

/// `SystemTime::now` reads the clock: nothing is known of what it says.
pub assume_specification[ std::time::SystemTime::now ]() -> (t: std::time::SystemTime)
;

/// The second that a clock time lies in, counted from the start of 1970 and
/// kept within 64 bits.
pub open spec fn second_of(offset: Result<(u64, u32), (u64, u32)>) -> int {
    let n = match offset {
        Ok(d) => d.0 as int,
        Err(d) => if d.1 > 0 {
            -(d.0 as int) - 1
        } else {
            -(d.0 as int)
        },
    };
    if n > i64::MAX {
        i64::MAX as int
    } else if n < i64::MIN {
        i64::MIN as int
    } else {
        n
    }
}

/// The nanoseconds since the start of 1970, without what does not fit in
/// 64 bits; none for a time before.
pub open spec fn nanos_of(offset: Result<(u64, u32), (u64, u32)>) -> int {
    match offset {
        Ok(d) => (d.0 * 1_000_000_000 + d.1) % 0x1_0000_0000_0000_0000,
        Err(d) => 0,
    }
}

/// The second that `offset` lies in.
pub fn epoch_second(offset: Result<(u64, u32), (u64, u32)>) -> (n: i64)
    ensures
        n == second_of(offset),
{
    match offset {
        Ok(d) => if d.0 > 0x7fff_ffff_ffff_ffff {
            i64::MAX
        } else {
            d.0 as i64
        },
        Err(d) => {
            let whole: i128 = -(d.0 as i128);
            let n: i128 = if d.1 > 0 {
                whole - 1
            } else {
                whole
            };
            if n < -0x8000_0000_0000_0000 {
                i64::MIN
            } else {
                n as i64
            }
        },
    }
}

/// The nanoseconds that `offset` lies behind the start of 1970.
pub fn epoch_nanos(offset: Result<(u64, u32), (u64, u32)>) -> (n: u64)
    ensures
        n == nanos_of(offset),
{
    match offset {
        Ok(d) => {
            let total: u128 = (d.0 as u128) * 1_000_000_000 + d.1 as u128;
            (total % 0x1_0000_0000_0000_0000) as u64
        },
        Err(_) => 0,
    }
}

/// Formats a clock time as RFC 3339 UTC. A time before 1970 is written as the
/// time that it is.
pub fn format_rfc3339_system_time(t: std::time::SystemTime) -> (r: String)
    ensures
        r@ == rfc3339(second_of(epoch_offset(t))),
{
    format_rfc3339_utc(clock_second(t))
}

/// The second that the clock time `t` lies in.
pub fn clock_second(t: std::time::SystemTime) -> (n: i64)
    ensures
        n == second_of(epoch_offset(t)),
{
    let offset = since_epoch(t);
    epoch_second(offset)
}

/// The nanoseconds of the clock time `t`.
pub fn clock_nanos(t: std::time::SystemTime) -> (n: u64)
    ensures
        n == nanos_of(epoch_offset(t)),
{
    let offset = since_epoch(t);
    epoch_nanos(offset)
}

/// The current time as RFC 3339 UTC.
pub fn rfc3339_utc_now() -> (r: String)
    ensures
        exists|t: std::time::SystemTime| r@ == rfc3339(second_of(#[trigger] epoch_offset(t))),
{
    format_rfc3339_system_time(std::time::SystemTime::now())
}

} // verus!
