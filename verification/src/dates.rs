//! Calendar dates in the local time zone.

#[allow(unused_imports)]
use crate::labels::meta_of;
use crate::labels::session_meta_on;
use crate::model::Session;
#[allow(unused_imports)]
use crate::number::{decimal, digit, is_digit, two_digits};
use vstd::prelude::*;

verus! {

/// The number of a day in the Gregorian calendar; the first of January 1970 is
/// day zero.
pub open spec fn day_number(y: int, m: int, d: int) -> int {
    let yy = if m <= 2 {
        y - 1
    } else {
        y
    };
    let mm = if m <= 2 {
        m + 9
    } else {
        m - 3
    };
    365 * yy + yy / 4 - yy / 100 + yy / 400 + (153 * mm + 2) / 5 + d - 719469
}

/// The date exists in the calendar.
pub open spec fn is_date(y: int, m: int, d: int) -> bool {
    let leap = y % 4 == 0 && (y % 100 != 0 || y % 400 == 0);
    &&& 1 <= m <= 12
    &&& 1 <= d <= (if m == 2 {
        if leap {
            29
        } else {
            28int
        }
    } else if m == 4 || m == 6 || m == 9 || m == 11 {
        30
    } else {
        31
    })
}

/// The date at a moment, for a clock that is `off` seconds ahead of universal
/// time.
pub open spec fn date_at(ms: int, off: int, y: int, m: int, d: int) -> bool {
    &&& -86_400 < off < 86_400
    &&& is_date(y, m, d)
    &&& day_number(y, m, d) == (ms / 1000 + off) / 86_400
}

/// A number with at least four digits.
pub open spec fn four_digits(n: nat) -> Seq<char> {
    if n < 1000 {
        seq!['0'] + (if n < 100 {
            seq!['0'] + two_digits(n)
        } else {
            decimal(n)
        })
    } else {
        decimal(n)
    }
}

/// A year; outside the four-digit years it has a sign.
pub open spec fn year_text(y: int) -> Seq<char> {
    if 0 <= y <= 9999 {
        four_digits(y as nat)
    } else if y > 0 {
        seq!['+'] + decimal(y as nat)
    } else {
        seq!['-'] + four_digits((-y) as nat)
    }
}

/// Year, month and day with hyphens.
pub open spec fn iso_text(y: int, m: int, d: int) -> Seq<char> {
    year_text(y) + "-"@ + two_digits(m as nat) + "-"@ + two_digits(d as nat)
}

/// The short name of a month.
pub open spec fn month_text(m: int) -> Seq<char> {
    if m == 1 {
        "Jan"@
    } else if m == 2 {
        "Feb"@
    } else if m == 3 {
        "Mar"@
    } else if m == 4 {
        "Apr"@
    } else if m == 5 {
        "May"@
    } else if m == 6 {
        "Jun"@
    } else if m == 7 {
        "Jul"@
    } else if m == 8 {
        "Aug"@
    } else if m == 9 {
        "Sep"@
    } else if m == 10 {
        "Oct"@
    } else if m == 11 {
        "Nov"@
    } else {
        "Dec"@
    }
}

/// Month, day and year in words, as in "Jun 4, 2026".
pub open spec fn long_text(y: int, m: int, d: int) -> Seq<char> {
    month_text(m) + " "@ + decimal(d as nat) + ", "@ + year_text(y)
}

/// The moments that have a date.
pub open spec fn has_date(ms: int) -> bool {
    -8_334_601_228_800_000 <= ms <= 8_210_266_876_799_999
}

/// `chrono::Local` with `timestamp_millis_opt`, `single` and `format`: the date
/// of a moment on this machine's clock. Moments in the calendar's range have
/// one, others have none. The clock is less than a day away from universal time;
/// how far depends on the machine and the moment, so that is not stated.
#[verifier::external_body]
fn local_date_text(ms: i64, fmt: &str) -> (r: Option<String>)
    requires
        fmt@ == "%Y-%m-%d"@ || fmt@ == "%b %-d, %Y"@,
    ensures
        r is Some <==> has_date(ms as int),
        r is Some && fmt@ == "%Y-%m-%d"@ ==> exists|off: int, y: int, m: int, d: int| #[trigger]
            date_at(ms as int, off, y, m, d) && r->0@ == iso_text(y, m, d),
        r is Some && fmt@ == "%b %-d, %Y"@ ==> exists|off: int, y: int, m: int, d: int| #[trigger]
            date_at(ms as int, off, y, m, d) && r->0@ == long_text(y, m, d),
{
    match chrono::TimeZone::timestamp_millis_opt(&chrono::Local, ms).single() {
        Some(d) => Some(d.format(fmt).to_string()),
        None => None,
    }
}

/// A time stamp as a signed number; the upper half of the range is negative.
pub open spec fn moment(ms: u64) -> int {
    if ms <= i64::MAX {
        ms as int
    } else {
        ms - 0x1_0000_0000_0000_0000
    }
}

fn to_moment(ms: u64) -> (r: i64)
    ensures
        r == moment(ms),
{
    let r: i64 = ms as i64;
    assert(ms <= 0x7fff_ffff_ffff_ffffu64 ==> (ms as i64) as int == ms as int) by (bit_vector);
    assert(ms > 0x7fff_ffff_ffff_ffffu64 ==> (ms as i64) as int == ms as int
        - 0x1_0000_0000_0000_0000) by (bit_vector);
    r
}

/// `s` is the date of a time stamp with hyphens, or the fallback where it has
/// none.
pub open spec fn is_iso_date(ms: u64, fallback: Seq<char>, s: Seq<char>) -> bool {
    if has_date(moment(ms)) {
        exists|off: int, y: int, m: int, d: int| #[trigger]
            date_at(moment(ms), off, y, m, d) && s == iso_text(y, m, d)
    } else {
        s == fallback
    }
}

/// `s` is the date of a time stamp in words, or nothing where it has none.
pub open spec fn is_long_date(ms: u64, s: Seq<char>) -> bool {
    if has_date(moment(ms)) {
        exists|off: int, y: int, m: int, d: int| #[trigger]
            date_at(moment(ms), off, y, m, d) && s == long_text(y, m, d)
    } else {
        s == Seq::<char>::empty()
    }
}

/// The local date of a time stamp with hyphens, or the fallback.
pub fn iso_date_or(ms: u64, fallback: &str) -> (r: String)
    ensures
        is_iso_date(ms, fallback@, r@),
{
    match local_date_text(to_moment(ms), "%Y-%m-%d") {
        Some(s) => s,
        None => fallback.to_string(),
    }
}

/// "YYYY-MM-DD" in local time; empty for a moment that has no date.
pub fn fmt_date_ms(ms: u64) -> (r: String)
    ensures
        is_iso_date(ms, Seq::empty(), r@),
{
    proof {
        reveal_strlit("");
        assert(""@ =~= Seq::<char>::empty());
    }
    iso_date_or(ms, "")
}

/// "Jun 4, 2026" in local time; empty for a moment that has no date.
pub fn fmt_date(ms: u64) -> (r: String)
    ensures
        is_long_date(ms, r@),
{
    match local_date_text(to_moment(ms), "%b %-d, %Y") {
        Some(s) => s,
        None => String::new(),
    }
}

/// The sidebar's second line: date, how long ago, and the length when known.
pub fn session_meta(s: &Session, now: u64) -> (r: String)
    ensures
        exists|date: Seq<char>| #[trigger]
            is_long_date(s.started_at, date) && r@ == meta_of(*s, date, now as nat),
{
    let date = fmt_date(s.started_at);
    session_meta_on(s, &date, now)
}

/// A character of a date with hyphens.
pub open spec fn date_char(c: char) -> bool {
    is_digit(c) || c == '-' || c == '+'
}

proof fn lemma_digits(n: nat)
    ensures
        forall|i: int| 0 <= i < decimal(n).len() ==> is_digit(#[trigger] decimal(n)[i]),
        forall|i: int| 0 <= i < two_digits(n).len() ==> is_digit(#[trigger] two_digits(n)[i]),
        forall|i: int| 0 <= i < four_digits(n).len() ==> is_digit(#[trigger] four_digits(n)[i]),
{
    crate::number::decimal_has_digits_only(n);
    let t = two_digits(n);
    assert forall|i: int| 0 <= i < t.len() implies is_digit(#[trigger] t[i]) by {
        if n < 10 && i > 0 {
            assert(t[i] == decimal(n)[i - 1]);
        }
    }
    let f = four_digits(n);
    assert forall|i: int| 0 <= i < f.len() implies is_digit(#[trigger] f[i]) by {
        if n < 100 {
            if i > 1 {
                assert(f[i] == t[i - 2]);
            }
        } else if n < 1000 {
            if i > 0 {
                assert(f[i] == decimal(n)[i - 1]);
            }
        }
    }
}

/// A date with hyphens holds digits, hyphens and signs only, so that it can
/// stand in a file name.
pub proof fn iso_dates_are_plain(y: int, m: int, d: int)
    requires
        is_date(y, m, d),
    ensures
        forall|i: int| 0 <= i < iso_text(y, m, d).len() ==> date_char(#[trigger] iso_text(y, m, d)[i]),
        iso_text(y, m, d).len() > 0,
{
    reveal_strlit("-");
    let t = iso_text(y, m, d);
    let a = year_text(y);
    let b = two_digits(m as nat);
    let c = two_digits(d as nat);
    lemma_digits(m as nat);
    lemma_digits(d as nat);
    if y >= 0 {
        lemma_digits(y as nat);
    } else {
        lemma_digits((-y) as nat);
    }
    assert forall|i: int| 0 <= i < a.len() implies date_char(#[trigger] a[i]) by {
        if y < 0 && i > 0 {
            assert(a[i] == four_digits((-y) as nat)[i - 1]);
        } else if y > 9999 && i > 0 {
            assert(a[i] == decimal(y as nat)[i - 1]);
        }
    }
    assert forall|i: int| 0 <= i < t.len() implies date_char(#[trigger] t[i]) by {
        if i < a.len() {
            assert(t[i] == a[i]);
        } else if i == a.len() {
            assert(t[i] == '-');
        } else if i <= a.len() + b.len() {
            assert(t[i] == b[i - a.len() - 1]);
        } else if i == a.len() + b.len() + 1 {
            assert(t[i] == '-');
        } else {
            assert(t[i] == c[i - a.len() - b.len() - 2]);
        }
    }
}

spec fn leaps(y: int) -> bool {
    y % 4 == 0 && (y % 100 != 0 || y % 400 == 0)
}

spec fn year_base(y: int) -> int {
    365 * y + y / 4 - y / 100 + y / 400
}

proof fn lemma_quarter(y: int)
    ensures
        y / 4 - (y - 1) / 4 == (if y % 4 == 0 {
            1int
        } else {
            0
        }),
{
}

proof fn lemma_century(y: int)
    ensures
        y / 100 - (y - 1) / 100 == (if y % 100 == 0 {
            1int
        } else {
            0
        }),
{
}

proof fn lemma_cycle(y: int)
    ensures
        y / 400 - (y - 1) / 400 == (if y % 400 == 0 {
            1int
        } else {
            0
        }),
        y % 400 == 0 ==> y % 100 == 0,
        y % 100 == 0 ==> y % 4 == 0,
{
}

proof fn lemma_year_length(y: int)
    ensures
        year_base(y) - year_base(y - 1) == (if leaps(y) {
            366int
        } else {
            365
        }),
{
    lemma_quarter(y);
    lemma_century(y);
    lemma_cycle(y);
}

proof fn lemma_day_number(y: int, m: int, d: int)
    ensures
        m <= 2 ==> day_number(y, m, d) == year_base(y - 1) + (153 * (m + 9) + 2) / 5 + d - 719469,
        m > 2 ==> day_number(y, m, d) == year_base(y) + (153 * (m - 3) + 2) / 5 + d - 719469,
{
}

/// Days are counted one by one: the next day of a month, the first of the next month
/// after the last of a month, and the first of January after the last of December.
pub proof fn days_follow_each_other(y: int, m: int, d: int)
    requires
        is_date(y, m, d),
    ensures
        is_date(y, m, d + 1) ==> day_number(y, m, d + 1) == day_number(y, m, d) + 1,
        !is_date(y, m, d + 1) && m < 12 ==> day_number(y, m + 1, 1) == day_number(y, m, d) + 1,
        !is_date(y, m, d + 1) && m == 12 ==> day_number(y + 1, 1, 1) == day_number(y, m, d) + 1,
        day_number(1970, 1, 1) == 0,
{
    lemma_day_number(y, m, d);
    lemma_day_number(y, m, d + 1);
    lemma_day_number(y, m + 1, 1);
    lemma_day_number(y + 1, 1, 1);
    if !is_date(y, m, d + 1) {
        lemma_month(y, m, d);
    }
}

proof fn lemma_month(y: int, m: int, d: int)
    requires
        is_date(y, m, d),
        !is_date(y, m, d + 1),
    ensures
        m < 12 ==> day_number(y, m + 1, 1) == day_number(y, m, d) + 1,
        m == 12 ==> day_number(y + 1, 1, 1) == day_number(y, m, d) + 1,
{
    let n = if m == 2 {
        if leaps(y) {
            29int
        } else {
            28int
        }
    } else if m == 4 || m == 6 || m == 9 || m == 11 {
        30int
    } else {
        31int
    };
    assert(d == n);
    lemma_day_number(y, m, n);
    lemma_day_number(y, m + 1, 1);
    lemma_day_number(y + 1, 1, 1);
    lemma_year_length(y);
}

/// February has a leap day every fourth year, but not in three of four centuries; the
/// other months have thirty days, or thirty-one.
pub proof fn months_have_their_days(y: int, m: int)
    requires
        1 <= m <= 12,
    ensures
        is_date(y, m, 1) && is_date(y, m, 28) && !is_date(y, m, 0) && !is_date(y, m, 32),
        is_date(y, 2, 29) <==> day_number(y + 1, 1, 1) - day_number(y, 1, 1) == 366,
        !is_date(y, 2, 29) <==> day_number(y + 1, 1, 1) - day_number(y, 1, 1) == 365,
        is_date(y, 2, 29) == is_date(y + 400, 2, 29),
        m != 2 ==> is_date(y, m, 30),
        !is_date(y, 13, 1) && !is_date(y, 0, 1),
{
    lemma_day_number(y, 1, 1);
    lemma_day_number(y + 1, 1, 1);
    lemma_year_length(y);
    assert(is_date(y, 2, 29) == leaps(y));
    assert((y + 400) % 4 == y % 4);
    assert((y + 400) % 100 == y % 100);
    assert((y + 400) % 400 == y % 400);
}

/// A date with hyphens has four digits for the year, two for the month and two for the
/// day, with leading zeros.
pub proof fn iso_dates_have_their_places(y: int, m: int, d: int)
    requires
        is_date(y, m, d),
        0 <= y <= 9999,
    ensures
        ({
            let t = iso_text(y, m, d);
            &&& t.len() == 10
            &&& t[4] == '-' && t[7] == '-'
            &&& t.subrange(0, 4) == two_digits((y / 100) as nat) + two_digits((y % 100) as nat)
            &&& t.subrange(5, 7) == two_digits(m as nat)
            &&& t.subrange(8, 10) == two_digits(d as nat)
        }),
{
    reveal_strlit("-");
    lemma_two(m as nat);
    lemma_two(d as nat);
    lemma_four(y as nat);
    lemma_two((y / 100) as nat);
    lemma_two((y % 100) as nat);
    let t = iso_text(y, m, d);
    let a = four_digits(y as nat);
    assert(t.subrange(0, 4) =~= a);
    assert(t.subrange(5, 7) =~= two_digits(m as nat));
    assert(t.subrange(8, 10) =~= two_digits(d as nat));
}

proof fn lemma_two(n: nat)
    requires
        n < 100,
    ensures
        two_digits(n).len() == 2,
{
    crate::number::short_numbers_are_padded(n);
    crate::number::digits_stand_by_weight(0, n % 10);
    if n >= 10 {
        crate::number::digits_stand_by_weight(n / 10, n % 10);
        crate::number::digits_stand_by_weight(0, n / 10);
    }
}

proof fn lemma_four(n: nat)
    requires
        n <= 9999,
    ensures
        four_digits(n) == two_digits(n / 100) + two_digits(n % 100),
{
    let h = n / 100;
    let l = n % 100;
    crate::number::short_numbers_are_padded(h);
    crate::number::short_numbers_are_padded(l);
    crate::number::digits_stand_by_weight(0, 0);
    crate::number::digits_stand_by_weight(l / 10, l % 10);
    crate::number::digits_stand_by_weight(h * 10 + l / 10, l % 10);
    crate::number::digits_stand_by_weight(h, l / 10);
    assert((h * 10 + l / 10) * 10 + l % 10 == n);
    assert((l / 10) * 10 + l % 10 == l);
    assert(four_digits(n) =~= two_digits(h) + two_digits(l));
}

/// A long date says the month's name, the day and the year; no two months share a name.
pub proof fn long_dates_say_month_day_and_year(y: int, m: int, d: int, k: int)
    requires
        is_date(y, m, d),
        1 <= k <= 12,
    ensures
        crate::pattern::begins(long_text(y, m, d), month_text(m) + " "@ + decimal(d as nat) + ", "@),
        crate::pattern::finishes(long_text(y, m, d), ", "@ + year_text(y)),
        month_text(m) == month_text(k) ==> m == k,
        month_text(m).len() == 3,
{
    let a = month_text(m) + " "@ + decimal(d as nat);
    assert(long_text(y, m, d) =~= a + (", "@ + year_text(y)));
    crate::pattern::texts_stand_where_their_characters_do(a, ", "@ + year_text(y), 0);
    crate::pattern::texts_stand_where_their_characters_do(a + ", "@, year_text(y), 0);
    reveal_strlit("Jan");
    reveal_strlit("Feb");
    reveal_strlit("Mar");
    reveal_strlit("Apr");
    reveal_strlit("May");
    reveal_strlit("Jun");
    reveal_strlit("Jul");
    reveal_strlit("Aug");
    reveal_strlit("Sep");
    reveal_strlit("Oct");
    reveal_strlit("Nov");
    reveal_strlit("Dec");
    let s = month_text(m);
    let t = month_text(k);
    if s == t {
        assert(s[0] == t[0] && s[1] == t[1] && s[2] == t[2]);
    }
}

/// A time is the signed number with the same sixty-four bits.
pub proof fn times_are_signed(ms: u64)
    ensures
        i64::MIN <= moment(ms) <= i64::MAX,
        moment(ms) == ms || moment(ms) + 0x1_0000_0000_0000_0000 == ms,
{
}

} // verus!
