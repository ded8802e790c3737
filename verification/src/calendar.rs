//! Points in time, as seconds since the start of 1970, written as dates.
use crate::text;
use crate::text::{all_digits, decimal, in_order, is_digit, padded};
use vstd::prelude::*;

verus! {

pub const SECONDS_PER_DAY: u64 = 86_400;

/// A year with a leap day.
pub open spec fn leap(year: int) -> bool {
    (year % 4 == 0 && year % 100 != 0) || year % 400 == 0
}

pub open spec fn year_days(year: int) -> int {
    if leap(year) {
        366
    } else {
        365
    }
}

pub open spec fn month_days(year: int, month: int) -> int {
    if month == 2 {
        if leap(year) {
            29
        } else {
            28
        }
    } else if month == 4 || month == 6 || month == 9 || month == 11 {
        30
    } else {
        31
    }
}

/// The number of days from the start of 1970 to the start of `year`.
pub open spec fn days_before_year(year: int) -> int
    decreases year - 1970,
{
    if year <= 1970 {
        0
    } else {
        days_before_year(year - 1) + year_days(year - 1)
    }
}

/// The number of days from the start of `year` to the start of `month`.
pub open spec fn days_before_month(year: int, month: int) -> int
    decreases month,
{
    if month <= 1 {
        0
    } else {
        days_before_month(year, month - 1) + month_days(year, month - 1)
    }
}

/// A day, as the calendar names it.
pub struct Date {
    pub year: int,
    pub month: int,
    pub day: int,
}

/// A day of the calendar, not before 1970.
pub open spec fn is_date(date: Date) -> bool {
    1970 <= date.year && 1 <= date.month <= 12 && 1 <= date.day <= month_days(
        date.year,
        date.month,
    )
}

/// The number of days from the start of 1970 to `date`.
pub open spec fn day_number(date: Date) -> int {
    days_before_year(date.year) + days_before_month(date.year, date.month) + date.day - 1
}

pub open spec fn is_day(date: Date, days: int) -> bool {
    is_date(date) && day_number(date) == days
}

/// The day that comes `days` after the first of January 1970.
pub open spec fn date_of(days: int) -> Date {
    choose|date: Date| is_day(date, days)
}

/// `a` comes before `b` in the calendar.
pub open spec fn earlier(a: Date, b: Date) -> bool {
    a.year < b.year || (a.year == b.year && (a.month < b.month || (a.month == b.month && a.day
        < b.day)))
}

proof fn lemma_months_fill_year(year: int, month: int)
    requires
        1 <= month <= 13,
    ensures
        0 <= days_before_month(year, month) <= year_days(year),
        month <= 12 ==> days_before_month(year, month) + month_days(year, month) <= year_days(year),
        month == 13 ==> days_before_month(year, month) == year_days(year),
{
    reveal_with_fuel(days_before_month, 14);
}

proof fn lemma_months_increase(year: int, a: int, b: int)
    requires
        1 <= a < b,
    ensures
        days_before_month(year, a) + month_days(year, a) <= days_before_month(year, b),
    decreases b,
{
    if a < b - 1 {
        lemma_months_increase(year, a, b - 1);
    }
}

proof fn lemma_years_increase(a: int, b: int)
    requires
        1970 <= a < b,
    ensures
        days_before_year(a) + year_days(a) <= days_before_year(b),
    decreases b,
{
    if a < b - 1 {
        lemma_years_increase(a, b - 1);
    }
}

/// Days are counted in the order of the calendar.
pub proof fn law_days_are_counted_in_order(a: Date, b: Date)
    requires
        is_date(a),
        is_date(b),
    ensures
        earlier(a, b) <==> day_number(a) < day_number(b),
        a == b <==> day_number(a) == day_number(b),
{
    if earlier(a, b) {
        lemma_date_order(a, b);
    } else if earlier(b, a) {
        lemma_date_order(b, a);
    }
}

proof fn lemma_date_order(a: Date, b: Date)
    requires
        is_date(a),
        is_date(b),
        earlier(a, b),
    ensures
        day_number(a) < day_number(b),
{
    lemma_months_fill_year(a.year, a.month);
    lemma_months_fill_year(b.year, b.month);
    if a.year < b.year {
        lemma_years_increase(a.year, b.year);
    } else if a.month < b.month {
        lemma_months_increase(a.year, a.month, b.month);
    }
}

fn is_leap(year: i64) -> (b: bool)
    requires
        year >= 0,
    ensures
        b == leap(year as int),
{
    (year % 4 == 0 && year % 100 != 0) || year % 400 == 0
}

fn days_in_month(year: i64, month: u32) -> (days: i64)
    requires
        year >= 0,
    ensures
        days == month_days(year as int, month as int),
{
    if month == 2 {
        if is_leap(year) {
            29
        } else {
            28
        }
    } else if month == 4 || month == 6 || month == 9 || month == 11 {
        30
    } else {
        31
    }
}

/// The day that comes `days` after the first of January 1970, as year, month and day. For a
/// negative number the day overflows in January 1970.
pub fn days_since_epoch_to_ymd(days: i64) -> (date: (i64, u32, u32))
    ensures
        days >= 0 ==> is_day(
            (Date { year: date.0 as int, month: date.1 as int, day: date.2 as int }),
            days as int,
        ),
        days < 0 ==> date == (1970i64, 1u32, (days + 1) as u32),
{
    let mut year: i64 = 1970;
    let mut remaining: i64 = days;
    let mut length: i64 = if is_leap(year) {
        366
    } else {
        365
    };
    while remaining >= length
        invariant
            year >= 1970,
            length == year_days(year as int),
            days < 0 ==> year == 1970 && remaining == days,
            days >= 0 ==> remaining >= 0,
            days_before_year(year as int) + remaining == days,
            (year - 1970) * 365 + remaining <= days,
        decreases remaining,
    {
        remaining -= length;
        year += 1;
        length = if is_leap(year) {
            366
        } else {
            365
        };
    }
    let mut month: u32 = 1;
    let ghost rest = remaining;
    while month < 12 && remaining >= days_in_month(year, month)
        invariant
            year >= 1970,
            1 <= month <= 12,
            rest < year_days(year as int),
            rest >= 0 ==> remaining >= 0,
            rest < 0 ==> month == 1 && remaining == rest,
            days_before_month(year as int, month as int) + remaining == rest,
        decreases 12 - month,
    {
        remaining -= days_in_month(year, month);
        month += 1;
    }
    proof {
        lemma_months_fill_year(year as int, month as int);
        lemma_months_fill_year(year as int, 13);
        reveal_with_fuel(days_before_month, 2);
    }
    (year, month, (remaining + 1) as u32)
}

/// The time of day with seconds, and the date before it, in digits.
pub open spec fn timestamp_text(unix_secs: int) -> Seq<char> {
    let date = date_of(unix_secs / 86_400);
    let seconds = unix_secs % 86_400;
    padded(date.year as nat, 4) + padded(date.month as nat, 2) + padded(date.day as nat, 2) + seq![
        '_',
    ] + padded((seconds / 3600) as nat, 2) + padded(((seconds % 3600) / 60) as nat, 2) + padded(
        (seconds % 60) as nat,
        2,
    )
}

/// The point in time as `YYYYMMDD_hhmmss`.
pub fn timestamp_prefix(unix_secs: u64) -> (s: String)
    ensures
        s@ == timestamp_text(unix_secs as int),
{
    let days: u64 = unix_secs / SECONDS_PER_DAY;
    let seconds: u64 = unix_secs % SECONDS_PER_DAY;
    let (year, month, day) = days_since_epoch_to_ymd(days as i64);
    proof {
        let date = Date { year: year as int, month: month as int, day: day as int };
        assert(is_day(date, days as int));
        assert(is_day(date_of(days as int), days as int));
        law_days_are_counted_in_order(date, date_of(days as int));
    }
    let mut s = String::new();
    text::push_padded(&mut s, year as u64, 4);
    text::push_padded(&mut s, month as u64, 2);
    text::push_padded(&mut s, day as u64, 2);
    s.push('_');
    text::push_padded(&mut s, seconds / 3600, 2);
    text::push_padded(&mut s, (seconds % 3600) / 60, 2);
    text::push_padded(&mut s, seconds % 60, 2);
    assert(s@ =~= timestamp_text(unix_secs as int));
    s
}

/// The point in time with milliseconds.
pub fn timestamp_with_millis(unix_secs: u64, millis: u32) -> (s: String)
    ensures
        s@ == timestamp_text(unix_secs as int) + seq!['.'] + padded(millis as nat, 3),
{
    let mut s = timestamp_prefix(unix_secs);
    s.push('.');
    text::push_padded(&mut s, millis as u64, 3);
    assert(s@ =~= timestamp_text(unix_secs as int) + seq!['.'] + padded(millis as nat, 3));
    s
}

pub open spec fn ten_to(width: nat) -> nat
    decreases width,
{
    if width == 0 {
        1
    } else {
        10 * ten_to((width - 1) as nat)
    }
}

proof fn lemma_padded_fits(n: nat, width: nat)
    requires
        width >= 1,
        n < ten_to(width),
    ensures
        decimal(n).len() <= width,
        padded(n, width).len() == width,
    decreases width,
{
    reveal_with_fuel(ten_to, 2);
    if n >= 10 {
        lemma_padded_fits(n / 10, (width - 1) as nat);
    }
}

proof fn lemma_padded_step(n: nat, width: nat)
    requires
        width >= 2,
        n < ten_to(width),
    ensures
        padded(n, width) == padded(n / 10, (width - 1) as nat) + seq![
            text::digit_char((n % 10) as int),
        ],
{
    lemma_padded_fits(n, width);
    lemma_padded_fits(n / 10, (width - 1) as nat);
    assert(padded(n, width) =~= padded(n / 10, (width - 1) as nat) + seq![
        text::digit_char((n % 10) as int),
    ]);
}

proof fn lemma_order_of_parts(a: Seq<char>, b: Seq<char>, x: Seq<char>, y: Seq<char>)
    requires
        a.len() == b.len(),
    ensures
        in_order(a + x, b + y) == (if a == b {
            in_order(x, y)
        } else {
            in_order(a, b)
        }),
    decreases a.len(),
{
    if a.len() == 0 {
        assert(a =~= b);
        assert(a + x =~= x);
        assert(b + y =~= y);
    } else {
        let p = a.drop_first();
        let q = b.drop_first();
        assert((a + x).drop_first() =~= p + x);
        assert((b + y).drop_first() =~= q + y);
        lemma_order_of_parts(p, q, x, y);
        if a[0] == b[0] {
            assert(a == b <==> p == q) by {
                assert(a =~= seq![a[0]] + p);
                assert(b =~= seq![b[0]] + q);
            }
        }
    }
}

proof fn lemma_padded_order(a: nat, b: nat, width: nat)
    requires
        width >= 1,
        a < b < ten_to(width),
    ensures
        in_order(padded(a, width), padded(b, width)),
        !in_order(padded(b, width), padded(a, width)),
        padded(a, width) != padded(b, width),
    decreases width,
{
    reveal_with_fuel(ten_to, 2);
    lemma_padded_fits(a, width);
    lemma_padded_fits(b, width);
    if width == 1 {
        reveal_with_fuel(in_order, 2);
        assert(padded(a, width)[0] != padded(b, width)[0]);
    } else {
        lemma_padded_step(a, width);
        lemma_padded_step(b, width);
        let w = (width - 1) as nat;
        let x = seq![text::digit_char((a % 10) as int)];
        let y = seq![text::digit_char((b % 10) as int)];
        lemma_padded_fits(a / 10, w);
        lemma_padded_fits(b / 10, w);
        lemma_order_of_parts(padded(a / 10, w), padded(b / 10, w), x, y);
        lemma_order_of_parts(padded(b / 10, w), padded(a / 10, w), y, x);
        if a / 10 < b / 10 {
            lemma_padded_order(a / 10, b / 10, w);
            assert(padded(a, width).take(w as int) =~= padded(a / 10, w));
            assert(padded(b, width).take(w as int) =~= padded(b / 10, w));
        } else {
            reveal_with_fuel(in_order, 2);
            assert(x[0] < y[0]);
            assert(padded(a, width)[w as int] == x[0]);
            assert(padded(b, width)[w as int] == y[0]);
        }
    }
}


proof fn lemma_field_order(a: nat, b: nat, width: nat, x: Seq<char>, y: Seq<char>)
    requires
        width >= 1,
        a < ten_to(width),
        b < ten_to(width),
    ensures
        in_order(padded(a, width) + x, padded(b, width) + y) == (a < b || (a == b && in_order(
            x,
            y,
        ))),
{
    lemma_padded_fits(a, width);
    lemma_padded_fits(b, width);
    lemma_order_of_parts(padded(a, width), padded(b, width), x, y);
    if a < b {
        lemma_padded_order(a, b, width);
    } else if b < a {
        lemma_padded_order(b, a, width);
    }
}

/// The day of a point in time exists, and is a day of the calendar.
pub proof fn law_every_day_has_a_date(days: int)
    requires
        0 <= days,
    ensures
        is_day(date_of(days), days),
    decreases days,
{
    let date = lemma_some_date(days);
    assert(is_day(date, days));
}

proof fn lemma_some_date(days: int) -> (date: Date)
    requires
        0 <= days,
    ensures
        is_day(date, days),
    decreases days,
{
    if days == 0 {
        Date { year: 1970, month: 1, day: 1 }
    } else {
        let before = lemma_some_date(days - 1);
        lemma_months_fill_year(before.year, 13);
        reveal_with_fuel(days_before_month, 2);
        if before.day < month_days(before.year, before.month) {
            Date { day: before.day + 1, ..before }
        } else if before.month < 12 {
            Date { month: before.month + 1, day: 1, ..before }
        } else {
            Date { year: before.year + 1, month: 1, day: 1 }
        }
    }
}

proof fn lemma_timestamp_fields(t: int)
    requires
        0 <= t,
        date_of(t / 86_400).year <= 9999,
    ensures
        ({
            let date = date_of(t / 86_400);
            let seconds = t % 86_400;
            &&& is_day(date, t / 86_400)
            &&& 1970 <= date.year < ten_to(4)
            &&& 1 <= date.month < ten_to(2)
            &&& 1 <= date.day < ten_to(2)
            &&& 0 <= seconds / 3600 < ten_to(2)
            &&& 0 <= (seconds % 3600) / 60 < ten_to(2)
            &&& 0 <= seconds % 60 < ten_to(2)
        }),
{
    law_every_day_has_a_date(t / 86_400);
    reveal_with_fuel(ten_to, 5);
}

/// The digits of a date and a time of day.
spec fn fields_text(date: Date, hour: nat, minute: nat, second: nat) -> Seq<char> {
    padded(date.year as nat, 4) + padded(date.month as nat, 2) + padded(date.day as nat, 2) + seq![
        '_',
    ] + padded(hour, 2) + padded(minute, 2) + padded(second, 2)
}

spec fn fields_fit(date: Date, hour: nat, minute: nat, second: nat) -> bool {
    &&& 0 <= date.year < ten_to(4)
    &&& 0 <= date.month < ten_to(2)
    &&& 0 <= date.day < ten_to(2)
    &&& hour < ten_to(2)
    &&& minute < ten_to(2)
    &&& second < ten_to(2)
}

spec fn time_text(hour: nat, minute: nat, second: nat) -> Seq<char> {
    padded(hour, 2) + (padded(minute, 2) + padded(second, 2))
}

spec fn date_text(date: Date, rest: Seq<char>) -> Seq<char> {
    padded(date.year as nat, 4) + (padded(date.month as nat, 2) + (padded(date.day as nat, 2) + (seq![
        '_',
    ] + rest)))
}

proof fn lemma_fields_text(date: Date, hour: nat, minute: nat, second: nat)
    ensures
        fields_text(date, hour, minute, second) == date_text(
            date,
            time_text(hour, minute, second),
        ),
{
    let a = padded(date.year as nat, 4);
    let b = padded(date.month as nat, 2);
    let c = padded(date.day as nat, 2);
    let d = padded(hour, 2);
    let e = padded(minute, 2);
    let f = padded(second, 2);
    assert(a + b + c + seq!['_'] + d + e + f =~= a + (b + (c + (seq!['_'] + (d + (e + f))))));
}

proof fn lemma_time_order(h: nat, m: nat, s: nat, k: nat, n: nat, t: nat)
    requires
        h < ten_to(2),
        m < ten_to(2),
        s < ten_to(2),
        k < ten_to(2),
        n < ten_to(2),
        t < ten_to(2),
    ensures
        in_order(time_text(h, m, s), time_text(k, n, t)) == (h < k || (h == k && (m < n || (m == n
            && s <= t)))),
{
    let x = padded(s, 2);
    let y = padded(t, 2);
    let nothing = Seq::<char>::empty();
    assert(in_order(x, y) == (s <= t)) by {
        assert(x + nothing =~= x);
        assert(y + nothing =~= y);
        lemma_field_order(s, t, 2, nothing, nothing);
    }
    let a = padded(m, 2) + x;
    let b = padded(n, 2) + y;
    assert(in_order(a, b) == (m < n || (m == n && s <= t))) by {
        lemma_field_order(m, n, 2, x, y);
    }
    lemma_field_order(h, k, 2, a, b);
}

proof fn lemma_date_text_order(p: Date, q: Date, x: Seq<char>, y: Seq<char>)
    requires
        0 <= p.year < ten_to(4),
        0 <= p.month < ten_to(2),
        0 <= p.day < ten_to(2),
        0 <= q.year < ten_to(4),
        0 <= q.month < ten_to(2),
        0 <= q.day < ten_to(2),
    ensures
        in_order(date_text(p, x), date_text(q, y)) == (earlier(p, q) || (p == q && in_order(x, y))),
{
    let a4 = seq!['_'] + x;
    let b4 = seq!['_'] + y;
    let bar = seq!['_'];
    assert(in_order(a4, b4) == in_order(x, y)) by {
        lemma_order_of_parts(bar, bar, x, y);
    }
    let a3 = padded(p.day as nat, 2) + a4;
    let b3 = padded(q.day as nat, 2) + b4;
    assert(in_order(a3, b3) == (p.day < q.day || (p.day == q.day && in_order(x, y)))) by {
        lemma_field_order(p.day as nat, q.day as nat, 2, a4, b4);
    }
    let a2 = padded(p.month as nat, 2) + a3;
    let b2 = padded(q.month as nat, 2) + b3;
    assert(in_order(a2, b2) == (p.month < q.month || (p.month == q.month && in_order(a3, b3)))) by {
        lemma_field_order(p.month as nat, q.month as nat, 2, a3, b3);
    }
    lemma_field_order(p.year as nat, q.year as nat, 4, a2, b2);
}

proof fn lemma_fields_order(p: Date, h: nat, m: nat, s: nat, q: Date, k: nat, n: nat, t: nat)
    requires
        fields_fit(p, h, m, s),
        fields_fit(q, k, n, t),
    ensures
        in_order(fields_text(p, h, m, s), fields_text(q, k, n, t)) == (earlier(p, q) || (p == q && (h
            < k || (h == k && (m < n || (m == n && s <= t)))))),
{
    lemma_fields_text(p, h, m, s);
    lemma_fields_text(q, k, n, t);
    lemma_time_order(h, m, s, k, n, t);
    lemma_date_text_order(p, q, time_text(h, m, s), time_text(k, n, t));
}

/// Up to the year 9999, points in time are in the order of their texts.
pub proof fn law_timestamps_sort_by_time(a: int, b: int)
    requires
        0 <= a,
        0 <= b,
        date_of(a / 86_400).year <= 9999,
        date_of(b / 86_400).year <= 9999,
    ensures
        in_order(timestamp_text(a), timestamp_text(b)) <==> a <= b,
{
    lemma_timestamp_fields(a);
    lemma_timestamp_fields(b);
    let p = date_of(a / 86_400);
    let q = date_of(b / 86_400);
    let s = a % 86_400;
    let t = b % 86_400;
    law_days_are_counted_in_order(p, q);
    law_days_are_counted_in_order(q, p);
    lemma_fields_order(
        p,
        (s / 3600) as nat,
        ((s % 3600) / 60) as nat,
        (s % 60) as nat,
        q,
        (t / 3600) as nat,
        ((t % 3600) / 60) as nat,
        (t % 60) as nat,
    );
    assert(s == 3600 * (s / 3600) + 60 * ((s % 3600) / 60) + s % 60);
    assert(t == 3600 * (t / 3600) + 60 * ((t % 3600) / 60) + t % 60);
}

/// The text has the shape of a timestamp: eight digits, an underscore and six digits.
pub open spec fn is_timestamp(s: Seq<char>) -> bool {
    s.len() == 15 && all_digits(s.take(8)) && s[8] == '_' && all_digits(s.skip(9))
}

/// Up to the year 9999, a point in time is written as eight digits, an underscore and six digits.
pub proof fn law_timestamp_shape(t: int)
    requires
        0 <= t,
        date_of(t / 86_400).year <= 9999,
    ensures
        is_timestamp(timestamp_text(t)),
{
    lemma_timestamp_fields(t);
    let date = date_of(t / 86_400);
    let s = t % 86_400;
    let parts = seq![
        padded(date.year as nat, 4),
        padded(date.month as nat, 2),
        padded(date.day as nat, 2),
        padded((s / 3600) as nat, 2),
        padded(((s % 3600) / 60) as nat, 2),
        padded((s % 60) as nat, 2),
    ];
    lemma_padded_fits(date.year as nat, 4);
    lemma_padded_fits(date.month as nat, 2);
    lemma_padded_fits(date.day as nat, 2);
    lemma_padded_fits((s / 3600) as nat, 2);
    lemma_padded_fits(((s % 3600) / 60) as nat, 2);
    lemma_padded_fits((s % 60) as nat, 2);
    text::lemma_padded_digits(date.year as nat, 4);
    text::lemma_padded_digits(date.month as nat, 2);
    text::lemma_padded_digits(date.day as nat, 2);
    text::lemma_padded_digits((s / 3600) as nat, 2);
    text::lemma_padded_digits(((s % 3600) / 60) as nat, 2);
    text::lemma_padded_digits((s % 60) as nat, 2);
    let text = timestamp_text(t);
    assert(text.take(8) =~= parts[0] + parts[1] + parts[2]);
    assert(text.skip(9) =~= parts[3] + parts[4] + parts[5]);
    assert forall|i: int| 0 <= i < 8 implies is_digit(#[trigger] text.take(8)[i]) by {
        if i < 4 {
            assert(text.take(8)[i] == parts[0][i]);
        } else if i < 6 {
            assert(text.take(8)[i] == parts[1][i - 4]);
        } else {
            assert(text.take(8)[i] == parts[2][i - 6]);
        }
    }
    assert forall|i: int| 0 <= i < 6 implies is_digit(#[trigger] text.skip(9)[i]) by {
        if i < 2 {
            assert(text.skip(9)[i] == parts[3][i]);
        } else if i < 4 {
            assert(text.skip(9)[i] == parts[4][i - 2]);
        } else {
            assert(text.skip(9)[i] == parts[5][i - 4]);
        }
    }
}

/// A timestamp tells the date of its day, and then the hour, the minute and the second of it.
pub proof fn law_timestamp_tells_the_time(day: int, hour: int, minute: int, second: int)
    requires
        0 <= day,
        0 <= hour < 24,
        0 <= minute < 60,
        0 <= second < 60,
    ensures
        timestamp_text(day * 86_400 + hour * 3600 + minute * 60 + second) == padded(
            date_of(day).year as nat,
            4,
        ) + padded(date_of(day).month as nat, 2) + padded(date_of(day).day as nat, 2) + seq!['_']
            + padded(hour as nat, 2) + padded(minute as nat, 2) + padded(second as nat, 2),
        is_day(date_of(day), day),
{
    law_every_day_has_a_date(day);
    let t = day * 86_400 + hour * 3600 + minute * 60 + second;
    lemma_time_of_day(day, hour, minute, second);
    let date = date_of(t / 86_400);
    let seconds = t % 86_400;
    assert(date == date_of(day));
    assert(timestamp_text(t) == padded(date.year as nat, 4) + padded(date.month as nat, 2) + padded(
        date.day as nat,
        2,
    ) + seq!['_'] + padded((seconds / 3600) as nat, 2) + padded(((seconds % 3600) / 60) as nat, 2)
        + padded((seconds % 60) as nat, 2));
    assert((seconds / 3600) as nat == hour as nat);
    assert(((seconds % 3600) / 60) as nat == minute as nat);
    assert((seconds % 60) as nat == second as nat);
}

proof fn lemma_time_of_day(day: int, hour: int, minute: int, second: int)
    requires
        0 <= hour < 24,
        0 <= minute < 60,
        0 <= second < 60,
    ensures
        ({
            let t = day * 86_400 + hour * 3600 + minute * 60 + second;
            &&& t / 86_400 == day
            &&& (t % 86_400) / 3600 == hour
            &&& ((t % 86_400) % 3600) / 60 == minute
            &&& (t % 86_400) % 60 == second
        }),
{
}

/// A year has 365 days, one in four has one more, and of the years that end a century only each
/// fourth has; the months of a year are its days.
pub proof fn law_years_have_their_days(year: int)
    ensures
        year_days(year) == (if leap(year) {
            366int
        } else {
            365int
        }),
        year % 400 == 0 ==> leap(year),
        year % 100 == 0 && year % 400 != 0 ==> !leap(year),
        year % 4 == 0 && year % 100 != 0 ==> leap(year),
        year % 4 != 0 ==> !leap(year),
        month_days(year, 1) + month_days(year, 2) + month_days(year, 3) + month_days(year, 4)
            + month_days(year, 5) + month_days(year, 6) + month_days(year, 7) + month_days(year, 8)
            + month_days(year, 9) + month_days(year, 10) + month_days(year, 11) + month_days(
            year,
            12,
        ) == year_days(year),
        month_days(year, 2) == (if leap(year) {
            29int
        } else {
            28int
        }),
{
}

} // verus!
