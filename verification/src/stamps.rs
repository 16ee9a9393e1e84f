//! Time stamps as texts: they read back, and they sort as the times that they name.

use crate::calendar;
use crate::text;
use vstd::prelude::*;

verus! {

/// The number that the two characters from `i` on stand for.
pub open spec fn two_digits(s: Seq<char>, i: int) -> int {
    10 * text::digit_value(s[i]) + text::digit_value(s[i + 1])
}

/// Has `s` the shape `YYYY-MM-DDTHH:MM:SSZ`?
pub open spec fn is_stamp(s: Seq<char>) -> bool {
    &&& s.len() == 20
    &&& forall|i: int|
        0 <= i < 19 && i != 4 && i != 7 && i != 10 && i != 13 && i != 16 ==> text::is_digit(
            #[trigger] s[i],
        )
    &&& s[4] == '-' && s[7] == '-' && s[10] == 'T' && s[13] == ':' && s[16] == ':' && s[19] == 'Z'
}

/// The second that a time stamp names, counted from the start of 1970 in UTC.
pub open spec fn stamp_second(s: Seq<char>) -> Option<int> {
    let y = 100 * two_digits(s, 0) + two_digits(s, 2);
    let m = two_digits(s, 5);
    let d = two_digits(s, 8);
    let hour = two_digits(s, 11);
    let minute = two_digits(s, 14);
    let second = two_digits(s, 17);
    if is_stamp(s) && calendar::is_date(y, m, d) && hour < 24 && minute < 60 && second < 60 {
        Some(86_400 * calendar::day_number(y, m, d) + 3600 * hour + 60 * minute + second)
    } else {
        None
    }
}

/// Does the second `secs` lie in the years 0 to 9999, whose numbers have four digits?
pub open spec fn has_four_digit_year(secs: int) -> bool {
    -62_167_219_200 <= secs <= 253_402_300_799
}

// ---------------------------------------------------------------------------
// The parts of a stamp

proof fn lemma_padded_2(n: int)
    requires
        0 <= n < 100,
    ensures
        calendar::padded(n, 2).len() == 2,
        text::is_digit(calendar::padded(n, 2)[0]),
        text::is_digit(calendar::padded(n, 2)[1]),
        two_digits(calendar::padded(n, 2), 0) == n,
{
    reveal_with_fuel(text::decimal, 3);
    assert(calendar::padded(n, 2) =~= seq![text::digit_char(n / 10), text::digit_char(n % 10)]);
}

proof fn lemma_padded_4(n: int)
    requires
        0 <= n < 10_000,
    ensures
        calendar::padded(n, 4).len() == 4,
        text::is_digit(calendar::padded(n, 4)[0]),
        text::is_digit(calendar::padded(n, 4)[1]),
        text::is_digit(calendar::padded(n, 4)[2]),
        text::is_digit(calendar::padded(n, 4)[3]),
        100 * two_digits(calendar::padded(n, 4), 0) + two_digits(calendar::padded(n, 4), 2) == n,
{
    reveal_with_fuel(text::decimal, 5);
    let p = calendar::padded(n, 4);
    let a = n / 10;
    let b = a / 10;
    let c = b / 10;
    assert(n == 10 * a + n % 10 && a == 10 * b + a % 10 && b == 10 * c + b % 10);
    assert(p =~= seq![
        text::digit_char(c),
        text::digit_char(b % 10),
        text::digit_char(a % 10),
        text::digit_char(n % 10),
    ]);
}

/// The parts of a time stamp, put together.
spec fn put_together(
    y: Seq<char>,
    m: Seq<char>,
    d: Seq<char>,
    hour: Seq<char>,
    minute: Seq<char>,
    second: Seq<char>,
) -> Seq<char> {
    y + seq!['-'] + m + seq!['-'] + d + seq!['T'] + hour + seq![':'] + minute + seq![':'] + second
        + seq!['Z']
}

proof fn lemma_places(
    y: Seq<char>,
    m: Seq<char>,
    d: Seq<char>,
    hour: Seq<char>,
    minute: Seq<char>,
    second: Seq<char>,
)
    requires
        y.len() == 4,
        m.len() == 2,
        d.len() == 2,
        hour.len() == 2,
        minute.len() == 2,
        second.len() == 2,
    ensures
        put_together(y, m, d, hour, minute, second) == seq![
            y[0],
            y[1],
            y[2],
            y[3],
            '-',
            m[0],
            m[1],
            '-',
            d[0],
            d[1],
            'T',
            hour[0],
            hour[1],
            ':',
            minute[0],
            minute[1],
            ':',
            second[0],
            second[1],
            'Z',
        ],
{
    let a = y + seq!['-'] + m;
    assert(a =~= seq![y[0], y[1], y[2], y[3], '-', m[0], m[1]]);
    let b = a + seq!['-'] + d;
    assert(b =~= seq![y[0], y[1], y[2], y[3], '-', m[0], m[1], '-', d[0], d[1]]);
    let c = b + seq!['T'] + hour;
    assert(c =~= seq![
        y[0],
        y[1],
        y[2],
        y[3],
        '-',
        m[0],
        m[1],
        '-',
        d[0],
        d[1],
        'T',
        hour[0],
        hour[1],
    ]);
    assert(put_together(y, m, d, hour, minute, second) =~= c + seq![':'] + minute + seq![':']
        + second + seq!['Z']);
}

/// The date of a second of the years 0 to 9999.
proof fn lemma_year(secs: int)
    requires
        has_four_digit_year(secs),
    ensures
        ({
            let t = calendar::date_of(secs / 86_400);
            &&& calendar::is_date(t.0, t.1, t.2)
            &&& calendar::day_number(t.0, t.1, t.2) == secs / 86_400
            &&& 0 <= t.0 <= 9999
        }),
{
    calendar::law_every_day_has_a_date(secs / 86_400);
    let t = calendar::date_of(secs / 86_400);
    calendar::lemma_day_in_year(t.0, t.1, t.2);
    assert(calendar::days_before_year(0) == 0);
    assert(calendar::days_before_year(1970) == 719_528);
    assert(calendar::days_before_year(10_000) == 3_652_425);
    assert(-719_528 <= secs / 86_400 <= 2_932_896);
    if t.0 < 0 {
        calendar::lemma_years_ordered(t.0 + 1, 0);
    } else if t.0 > 9999 {
        calendar::lemma_years_ordered(10_000, t.0);
    }
}

/// The hour, the minute and the second of a time of day.
proof fn lemma_time(time: int)
    requires
        0 <= time < 86_400,
    ensures
        0 <= time / 3600 < 24,
        0 <= (time % 3600) / 60 < 60,
        0 <= time % 60 < 60,
        time == 3600 * (time / 3600) + 60 * ((time % 3600) / 60) + time % 60,
{
}

/// The parts of the stamp of a second.
proof fn lemma_parts(secs: int)
    requires
        has_four_digit_year(secs),
    ensures
        ({
            let t = calendar::date_of(secs / 86_400);
            let time = secs % 86_400;
            let s = calendar::rfc3339(secs);
            &&& is_stamp(s)
            &&& 100 * two_digits(s, 0) + two_digits(s, 2) == t.0
            &&& two_digits(s, 5) == t.1
            &&& two_digits(s, 8) == t.2
            &&& two_digits(s, 11) == time / 3600
            &&& two_digits(s, 14) == (time % 3600) / 60
            &&& two_digits(s, 17) == time % 60
        }),
{
    lemma_year(secs);
    let t = calendar::date_of(secs / 86_400);
    let time = secs % 86_400;
    lemma_time(time);
    lemma_padded_4(t.0);
    lemma_padded_2(t.1);
    lemma_padded_2(t.2);
    lemma_padded_2(time / 3600);
    lemma_padded_2((time % 3600) / 60);
    lemma_padded_2(time % 60);
    lemma_places(
        calendar::padded(t.0, 4),
        calendar::padded(t.1, 2),
        calendar::padded(t.2, 2),
        calendar::padded(time / 3600, 2),
        calendar::padded((time % 3600) / 60, 2),
        calendar::padded(time % 60, 2),
    );
}

/// A time stamp of the years 0 to 9999 has the shape `YYYY-MM-DDTHH:MM:SSZ`, and reads back
/// as the second that it was made of.
pub proof fn law_stamp_reads_back(secs: int)
    requires
        has_four_digit_year(secs),
    ensures
        is_stamp(calendar::rfc3339(secs)),
        stamp_second(calendar::rfc3339(secs)) == Some(secs),
{
    lemma_year(secs);
    lemma_parts(secs);
    lemma_time(secs % 86_400);
    assert(secs == 86_400 * (secs / 86_400) + secs % 86_400);
}

// ---------------------------------------------------------------------------
// The order of stamps

/// Of two texts that first differ at `k`, the one with the lower character there comes
/// first.
proof fn lemma_first_difference(a: Seq<char>, b: Seq<char>, k: int)
    requires
        0 <= k < a.len(),
        k < b.len(),
        forall|i: int| 0 <= i < k ==> a[i] == b[i],
        a[k] < b[k],
    ensures
        text::precedes(a, b),
    decreases k,
{
    if k > 0 {
        assert(a[0] == b[0]);
        lemma_first_difference(a.skip(1), b.skip(1), k - 1);
    }
}

/// Two stamps that agree before `k`, where `a` has the lower number of two digits.
proof fn lemma_lower_number(a: Seq<char>, b: Seq<char>, k: int)
    requires
        is_stamp(a),
        is_stamp(b),
        k == 0 || k == 2 || k == 5 || k == 8 || k == 11 || k == 14 || k == 17,
        forall|i: int| 0 <= i < k ==> a[i] == b[i],
        two_digits(a, k) < two_digits(b, k),
    ensures
        text::precedes(a, b),
{
    assert(text::is_digit(a[k]) && text::is_digit(a[k + 1]));
    assert(text::is_digit(b[k]) && text::is_digit(b[k + 1]));
    if a[k] == b[k] {
        lemma_first_difference(a, b, k + 1);
    } else {
        lemma_first_difference(a, b, k);
    }
}

/// Two digits are fixed by the number that they stand for.
proof fn lemma_same_number(a: Seq<char>, b: Seq<char>, k: int)
    requires
        is_stamp(a),
        is_stamp(b),
        k == 0 || k == 2 || k == 5 || k == 8 || k == 11 || k == 14 || k == 17,
        two_digits(a, k) == two_digits(b, k),
    ensures
        a[k] == b[k],
        a[k + 1] == b[k + 1],
{
    assert(text::is_digit(a[k]) && text::is_digit(a[k + 1]));
    assert(text::is_digit(b[k]) && text::is_digit(b[k + 1]));
}

/// The numbers of a stamp, the greatest first.
spec fn numbers(s: Seq<char>) -> Seq<int> {
    seq![
        two_digits(s, 0),
        two_digits(s, 2),
        two_digits(s, 5),
        two_digits(s, 8),
        two_digits(s, 11),
        two_digits(s, 14),
        two_digits(s, 17),
    ]
}

/// Where the `j`-th number of a stamp stands.
spec fn place(j: int) -> int {
    if j <= 1 {
        2 * j
    } else {
        3 * j - 1
    }
}

/// Of two stamps whose numbers first differ at the `j`-th, the one with the lower number
/// there comes first.
proof fn lemma_lower_part(a: Seq<char>, b: Seq<char>, j: int)
    requires
        is_stamp(a),
        is_stamp(b),
        0 <= j < 7,
        forall|i: int| 0 <= i < j ==> numbers(a)[i] == numbers(b)[i],
        numbers(a)[j] < numbers(b)[j],
    ensures
        text::precedes(a, b),
{
    assert forall|i: int| 0 <= i < place(j) implies a[i] == b[i] by {
        let n = if i < 2 {
            0int
        } else if i < 5 {
            1
        } else if i < 8 {
            2
        } else if i < 11 {
            3
        } else if i < 14 {
            4
        } else {
            5
        };
        assert(n < j);
        assert(numbers(a)[n] == numbers(b)[n]);
        lemma_same_number(a, b, place(n));
    }
    lemma_lower_number(a, b, place(j));
}

/// The earlier of two days has the earlier date.
proof fn lemma_dates_ordered(y1: int, m1: int, d1: int, y2: int, m2: int, d2: int)
    requires
        calendar::is_date(y1, m1, d1),
        calendar::is_date(y2, m2, d2),
        calendar::day_number(y1, m1, d1) < calendar::day_number(y2, m2, d2),
    ensures
        y1 < y2 || (y1 == y2 && (m1 < m2 || (m1 == m2 && d1 < d2))),
{
    calendar::lemma_day_in_year(y1, m1, d1);
    calendar::lemma_day_in_year(y2, m2, d2);
    if y2 < y1 {
        calendar::lemma_years_ordered(y2 + 1, y1);
    } else if y1 == y2 && m2 < m1 {
        calendar::lemma_months_ordered(y1, m2, m1);
    }
}

/// Of two times of day, the earlier one has the lower hour, or else the lower minute, or
/// else the lower second.
proof fn lemma_times_ordered(p: int, q: int)
    requires
        0 <= p < q < 86_400,
    ensures
        p / 3600 < q / 3600 || (p / 3600 == q / 3600 && ((p % 3600) / 60 < (q % 3600) / 60 || ((p
            % 3600) / 60 == (q % 3600) / 60 && p % 60 < q % 60))),
{
    lemma_time(p);
    lemma_time(q);
}

/// The year of a stamp.
spec fn stamp_year(s: Seq<char>) -> int {
    100 * two_digits(s, 0) + two_digits(s, 2)
}

/// Which number of two stamps differs first, where the dates differ.
proof fn lemma_earlier_date(x: Seq<char>, y: Seq<char>) -> (j: int)
    requires
        is_stamp(x),
        is_stamp(y),
        stamp_year(x) < stamp_year(y) || (stamp_year(x) == stamp_year(y) && (two_digits(x, 5)
            < two_digits(y, 5) || (two_digits(x, 5) == two_digits(y, 5) && two_digits(x, 8)
            < two_digits(y, 8)))),
    ensures
        0 <= j < 7,
        forall|i: int| 0 <= i < j ==> numbers(x)[i] == numbers(y)[i],
        numbers(x)[j] < numbers(y)[j],
{
    lemma_two_digit_range(x, 2);
    lemma_two_digit_range(y, 2);
    if stamp_year(x) < stamp_year(y) {
        if two_digits(x, 0) < two_digits(y, 0) {
            0
        } else {
            1
        }
    } else if two_digits(x, 5) < two_digits(y, 5) {
        2
    } else {
        3
    }
}

/// Which number of two stamps differs first, where only the times of day differ.
proof fn lemma_earlier_time(x: Seq<char>, y: Seq<char>) -> (j: int)
    requires
        is_stamp(x),
        is_stamp(y),
        stamp_year(x) == stamp_year(y),
        two_digits(x, 5) == two_digits(y, 5),
        two_digits(x, 8) == two_digits(y, 8),
        two_digits(x, 11) < two_digits(y, 11) || (two_digits(x, 11) == two_digits(y, 11) && (
        two_digits(x, 14) < two_digits(y, 14) || (two_digits(x, 14) == two_digits(y, 14)
            && two_digits(x, 17) < two_digits(y, 17)))),
    ensures
        0 <= j < 7,
        forall|i: int| 0 <= i < j ==> numbers(x)[i] == numbers(y)[i],
        numbers(x)[j] < numbers(y)[j],
{
    lemma_two_digit_range(x, 2);
    lemma_two_digit_range(y, 2);
    assert(two_digits(x, 0) == two_digits(y, 0) && two_digits(x, 2) == two_digits(y, 2));
    if two_digits(x, 11) < two_digits(y, 11) {
        4
    } else if two_digits(x, 14) < two_digits(y, 14) {
        5
    } else {
        6
    }
}

/// The stamp of an earlier second comes first.
proof fn lemma_earlier_stamp(a: int, b: int)
    requires
        has_four_digit_year(a),
        has_four_digit_year(b),
        a < b,
    ensures
        text::precedes(calendar::rfc3339(a), calendar::rfc3339(b)),
{
    lemma_year(a);
    lemma_year(b);
    lemma_parts(a);
    lemma_parts(b);
    let x = calendar::rfc3339(a);
    let y = calendar::rfc3339(b);
    let s = calendar::date_of(a / 86_400);
    let t = calendar::date_of(b / 86_400);
    if a / 86_400 < b / 86_400 {
        lemma_dates_ordered(s.0, s.1, s.2, t.0, t.1, t.2);
        let j = lemma_earlier_date(x, y);
        lemma_lower_part(x, y, j);
    } else {
        assert(a / 86_400 == b / 86_400 && a % 86_400 < b % 86_400);
        lemma_times_ordered(a % 86_400, b % 86_400);
        let j = lemma_earlier_time(x, y);
        lemma_lower_part(x, y, j);
    }
}

proof fn lemma_two_digit_range(s: Seq<char>, k: int)
    requires
        is_stamp(s),
        k == 2,
    ensures
        0 <= two_digits(s, k) < 100,
{
    assert(text::is_digit(s[k]) && text::is_digit(s[k + 1]));
}

/// Time stamps of the years 0 to 9999 sort as their seconds do, and different seconds have
/// different stamps.
pub proof fn law_stamps_sort_as_seconds(a: int, b: int)
    requires
        has_four_digit_year(a),
        has_four_digit_year(b),
    ensures
        a < b <==> text::precedes(calendar::rfc3339(a), calendar::rfc3339(b)),
        a == b <==> calendar::rfc3339(a) == calendar::rfc3339(b),
{
    let x = calendar::rfc3339(a);
    let y = calendar::rfc3339(b);
    law_stamp_reads_back(a);
    law_stamp_reads_back(b);
    text::law_order_irreflexive(x);
    if a < b {
        lemma_earlier_stamp(a, b);
    } else if b < a {
        lemma_earlier_stamp(b, a);
        if text::precedes(x, y) {
            text::law_order_transitive(x, y, x);
        }
    }
}

} // verus!
