//! How sizes and times are written for a reader.
use crate::text::{decimal, decimal_of, decimal_padded, zero_padded};
use crate::time::Timestamp;
use vstd::prelude::*;
use vstd::string::*;

verus! {

// ---------------------------------------------------------------------------
// Sizes
// ---------------------------------------------------------------------------

pub const KB: u128 = 1024;

pub const MB: u128 = 1_048_576;

pub const GB: u128 = 1_073_741_824;

pub const TB: u128 = 1_099_511_627_776;

/// Two to the power of 53: below it every integer has an exact double.
pub const EXACT_LIMIT: u128 = 9_007_199_254_740_992;

/// The integer nearest to `n / d`; of two equally near, the even one.
pub open spec fn nearest(n: int, d: int) -> int {
    let q = n / d;
    let r = n % d;
    if 2 * r < d || (2 * r == d && q % 2 == 0) {
        q
    } else {
        q + 1
    }
}

/// The distance between the doubles around `n`.
pub open spec fn spacing(n: nat) -> nat
    decreases n,
{
    if n < EXACT_LIMIT {
        1
    } else {
        2 * spacing(n / 2)
    }
}

/// The double nearest to `n`, which is an integer.
pub open spec fn as_double(n: nat) -> int {
    nearest(n as int, spacing(n) as int) * spacing(n)
}

/// The largest unit, up to a terabyte, that is no larger than `n`.
pub open spec fn unit_of(n: int) -> int {
    if n >= TB {
        TB as int
    } else if n >= GB {
        GB as int
    } else if n >= MB {
        MB as int
    } else {
        KB as int
    }
}

/// The label of a unit.
pub open spec fn unit_label(unit: int) -> Seq<char> {
    if unit == TB {
        "TB"@
    } else if unit == GB {
        "GB"@
    } else if unit == MB {
        "MB"@
    } else {
        "KB"@
    }
}

/// A byte count for a reader: whole bytes below 1024, and from there on one
/// decimal place in the largest unit that fits.
pub open spec fn size_text(bytes: nat) -> Seq<char> {
    if bytes < 1024 {
        decimal(bytes) + " B"@
    } else {
        let n = as_double(bytes);
        let unit = unit_of(n);
        let tenths = nearest(10 * n, unit);
        decimal((tenths / 10) as nat) + "."@ + decimal((tenths % 10) as nat) + " "@ + unit_label(
            unit,
        )
    }
}

fn round_div(n: u128, d: u128) -> (r: u128)
    requires
        0 < d,
        n < 0x1_0000_0000_0000_0000_0000_0000,
    ensures
        r == nearest(n as int, d as int),
{
    let q: u128 = n / d;
    let rest: u128 = n % d;
    proof {
        assert(q <= n) by (nonlinear_arith)
            requires
                q == n / d,
                0 < d,
        ;
        assert(rest < d);
    }
    if rest < d - rest || (rest == d - rest && q % 2 == 0) {
        q
    } else {
        q + 1
    }
}

proof fn spacing_bounds(n: nat)
    requires
        n <= u64::MAX,
    ensures
        1 <= spacing(n) <= 2048,
        n >= EXACT_LIMIT ==> spacing(n) * 0x10_0000_0000_0000 <= n,
    decreases n,
{
    if n >= EXACT_LIMIT {
        vstd::arithmetic::power2::lemma2_to64();
        spacing_small(n, 11);
        spacing_lower(n);
    }
}

proof fn spacing_small(n: nat, k: nat)
    requires
        n < EXACT_LIMIT * vstd::arithmetic::power2::pow2(k),
    ensures
        1 <= spacing(n) <= vstd::arithmetic::power2::pow2(k),
    decreases k,
{
    vstd::arithmetic::power2::lemma2_to64();
    if k > 0 {
        vstd::arithmetic::power2::lemma_pow2_unfold(k);
        if n >= EXACT_LIMIT {
            spacing_small(n / 2, (k - 1) as nat);
        }
    }
    if n < EXACT_LIMIT {
        vstd::arithmetic::power2::lemma_pow2_pos(k);
    }
}

proof fn spacing_lower(n: nat)
    requires
        n >= EXACT_LIMIT,
    ensures
        spacing(n) * 0x10_0000_0000_0000 <= n,
    decreases n,
{
    if n / 2 >= EXACT_LIMIT {
        spacing_lower(n / 2);
    } else {
        assert(spacing(n / 2) == 1);
    }
}

fn double_spacing(n: u128) -> (r: u128)
    requires
        n <= u64::MAX,
    ensures
        r == spacing(n as nat),
    decreases n,
{
    if n < EXACT_LIMIT {
        1
    } else {
        let half = double_spacing(n / 2);
        proof {
            spacing_bounds((n / 2) as nat);
        }
        2 * half
    }
}

/// Writes a byte count for a reader.
pub fn human_size(bytes: u64) -> (r: String)
    ensures
        r@ == size_text(bytes as nat),
{
    if bytes < 1024 {
        return decimal_of(bytes).concat(" B");
    }
    let n: u128 = bytes as u128;
    let step = double_spacing(n);
    proof {
        spacing_bounds(n as nat);
    }
    let q = round_div(n, step);
    proof {
        rounded_bounds(n as int, step as int);
    }
    let m: u128 = q * step;
    let (unit, label) = if m >= TB {
        (TB, "TB")
    } else if m >= GB {
        (GB, "GB")
    } else if m >= MB {
        (MB, "MB")
    } else {
        (KB, "KB")
    };
    let tenths = round_div(10 * m, unit);
    proof {
        assert(tenths / 10 <= u64::MAX) by {
            assert(tenths <= 10 * m / (unit as int) + 1);
            assert(10 * m / (unit as int) <= 10 * m / 1024) by (nonlinear_arith)
                requires
                    unit >= 1024,
                    m >= 0,
            ;
        }
    }
    let whole = decimal_of((tenths / 10) as u64);
    let tenth = decimal_of((tenths % 10) as u64);
    whole.concat(".").concat(tenth.as_str()).concat(" ").concat(label)
}

proof fn rounded_bounds(n: int, d: int)
    requires
        1 <= d <= 2048,
        1024 <= n <= u64::MAX,
    ensures
        0 <= nearest(n, d) * d <= n + 2048,
        0 <= nearest(n, d) <= n + 1,
{
    let q = n / d;
    let r = n % d;
    vstd::arithmetic::div_mod::lemma_fundamental_div_mod(n, d);
    assert(0 <= q <= n) by (nonlinear_arith)
        requires
            q == n / d,
            1 <= d,
            0 <= n,
    ;
    assert(d * q == q * d) by (nonlinear_arith);
    assert((q + 1) * d == q * d + d) by (nonlinear_arith);
    assert(0 <= q * d) by (nonlinear_arith)
        requires
            0 <= q,
            1 <= d,
    ;
}

// ---------------------------------------------------------------------------
// Dates
// ---------------------------------------------------------------------------

/// Whether a year has 366 days.
pub open spec fn is_leap(y: int) -> bool {
    y % 4 == 0 && (y % 100 != 0 || y % 400 == 0)
}

/// The number of days in a month.
pub open spec fn days_in_month(y: int, m: int) -> int {
    if m == 2 {
        if is_leap(y) {
            29
        } else {
            28
        }
    } else if m == 4 || m == 6 || m == 9 || m == 11 {
        30
    } else {
        31
    }
}

/// The number of days of a year before a month.
pub open spec fn days_before_month(y: int, m: int) -> int
    decreases m,
{
    if m <= 1 {
        0
    } else {
        days_before_month(y, m - 1) + days_in_month(y, m - 1)
    }
}

/// The number of days before a year, counted from the year zero.
pub open spec fn days_before_year(y: int) -> int {
    365 * y + (y + 3) / 4 - (y + 99) / 100 + (y + 399) / 400
}

/// Whether a date is one of the calendar.
pub open spec fn is_date(y: int, m: int, d: int) -> bool {
    1 <= m <= 12 && 1 <= d <= days_in_month(y, m)
}

/// The number of days from 1970-01-01 to a date.
pub open spec fn day_number(y: int, m: int, d: int) -> int {
    days_before_year(y) + days_before_month(y, m) + d - 1 - days_before_year(1970)
}

/// Every year is followed by the next one after 365 or 366 days.
pub proof fn years_follow_each_other(y: int)
    ensures
        days_before_year(y + 1) == days_before_year(y) + (if is_leap(y) {
            366int
        } else {
            365
        }),
{
}

/// Dates in order have day numbers in order: no two dates share one.
pub proof fn later_dates_have_larger_numbers(y1: int, m1: int, d1: int, y2: int, m2: int, d2: int)
    requires
        is_date(y1, m1, d1),
        is_date(y2, m2, d2),
        y1 < y2 || (y1 == y2 && (m1 < m2 || (m1 == m2 && d1 < d2))),
    ensures
        day_number(y1, m1, d1) < day_number(y2, m2, d2),
{
    months_add_up(y1);
    months_add_up(y2);
    if y1 < y2 {
        years_follow_each_other(y1);
        days_before_year_grows(y1 + 1, y2);
    }
}

proof fn days_before_year_grows(a: int, b: int)
    requires
        a <= b,
    ensures
        days_before_year(a) <= days_before_year(b),
    decreases b - a,
{
    if a < b {
        years_follow_each_other(a);
        days_before_year_grows(a + 1, b);
    }
}

proof fn months_add_up(y: int)
    ensures
        days_before_month(y, 1) == 0,
        days_before_month(y, 2) == 31,
        ({
            let l: int = if is_leap(y) {
                1
            } else {
                0
            };
            &&& days_before_month(y, 3) == 59 + l
            &&& days_before_month(y, 4) == 90 + l
            &&& days_before_month(y, 5) == 120 + l
            &&& days_before_month(y, 6) == 151 + l
            &&& days_before_month(y, 7) == 181 + l
            &&& days_before_month(y, 8) == 212 + l
            &&& days_before_month(y, 9) == 243 + l
            &&& days_before_month(y, 10) == 273 + l
            &&& days_before_month(y, 11) == 304 + l
            &&& days_before_month(y, 12) == 334 + l
        }),
{
    reveal_with_fuel(days_before_month, 13);
}

/// The number of days before the March of a year, counted from that of the
/// year zero.
spec fn days_before_march(y: int) -> int {
    365 * y + y / 4 - y / 100 + y / 400
}

proof fn march_is_after_february(y: int)
    ensures
        days_before_year(y) + 59 + (if is_leap(y) {
            1int
        } else {
            0
        }) == days_before_march(y) + 60,
{
}

proof fn march_cycle(era: int, yoe: int)
    requires
        0 <= yoe < 400,
    ensures
        days_before_march(400 * era + yoe) == 146097 * era + 365 * yoe + yoe / 4 - yoe / 100,
{
}

/// The year within an era and the day within that year, both from March on.
spec fn year_and_day(doe: int) -> (int, int) {
    let century = if doe / 36_524 > 3 {
        3
    } else {
        doe / 36_524
    };
    let in_century = doe - century * 36_524;
    let quad = in_century / 1461;
    let in_quad = in_century - quad * 1461;
    let year = if in_quad / 365 > 3 {
        3
    } else {
        in_quad / 365
    };
    (100 * century + 4 * quad + year, in_quad - year * 365)
}

proof fn year_and_day_add_up(doe: int)
    requires
        0 <= doe < 146_097,
    ensures
        ({
            let (yoe, doy) = year_and_day(doe);
            &&& 0 <= yoe < 400
            &&& 0 <= doy <= 365
            &&& doe == 365 * yoe + yoe / 4 - yoe / 100 + doy
            &&& doy == 365 ==> (yoe + 1) % 4 == 0 && ((yoe + 1) % 100 != 0 || yoe == 399)
        }),
{
    let century = if doe / 36_524 > 3 {
        3
    } else {
        doe / 36_524
    };
    let in_century = doe - century * 36_524;
    assert(0 <= in_century <= 36_524);
    assert(in_century == 36_524 ==> century == 3);
    let quad = in_century / 1461;
    let in_quad = in_century - quad * 1461;
    assert(0 <= quad <= 24);
    assert(0 <= in_quad < 1461);
    assert(quad == 24 && in_quad == 1460 ==> in_century == 36_524);
    let year = if in_quad / 365 > 3 {
        3
    } else {
        in_quad / 365
    };
    let doy = in_quad - year * 365;
    assert(0 <= doy <= 365);
    assert(doy == 365 ==> year == 3 && in_quad == 1460);
    let yoe = 100 * century + 4 * quad + year;
    assert(yoe / 4 == 25 * century + quad);
    assert(yoe / 100 == century);
}

/// The month and the day of the month, from the day of a March-based year.
spec fn month_and_day(doy: int) -> (int, int) {
    let mp = (5 * doy + 2) / 153;
    (
        if mp < 10 {
            mp + 3
        } else {
            mp - 9
        },
        doy - (153 * mp + 2) / 5 + 1,
    )
}

proof fn month_and_day_add_up(march_year: int, doy: int)
    requires
        0 <= doy <= 365,
        doy == 365 ==> is_leap(march_year + 1),
    ensures
        ({
            let (m, d) = month_and_day(doy);
            let y = if m <= 2 {
                march_year + 1
            } else {
                march_year
            };
            &&& is_date(y, m, d)
            &&& days_before_year(y) + days_before_month(y, m) + d - 1 == days_before_march(march_year)
                + 60 + doy
        }),
{
    months_add_up(march_year);
    months_add_up(march_year + 1);
    march_is_after_february(march_year);
    years_follow_each_other(march_year);
    let mp = (5 * doy + 2) / 153;
    assert(0 <= mp <= 11);
}

proof fn leap_after(march_year: int, era: int, yoe: int)
    requires
        march_year == yoe + era * 400,
        0 <= yoe < 400,
        (yoe + 1) % 4 == 0,
        (yoe + 1) % 100 != 0 || yoe == 399,
    ensures
        is_leap(march_year + 1),
{
}

/// The date that is `z` days after 1970-01-01.
pub fn civil_from_days(z: i64) -> (r: (i64, u32, u32))
    requires
        z <= i64::MAX - 719_468,
    ensures
        is_date(r.0 as int, r.1 as int, r.2 as int),
        day_number(r.0 as int, r.1 as int, r.2 as int) == z,
{
    let z0: i64 = z + 719_468;
    let shifted: i64 = if z0 >= 0 {
        z0
    } else {
        z0 - 146_096
    };
    let era: i64 = shifted / 146_097;
    assert(era as int == z0 as int / 146_097);
    let doe: i64 = z0 - era * 146_097;
    assert(0 <= doe < 146_097);
    let century: i64 = if doe / 36_524 > 3 {
        3
    } else {
        doe / 36_524
    };
    let in_century: i64 = doe - century * 36_524;
    let quad: i64 = in_century / 1461;
    let in_quad: i64 = in_century - quad * 1461;
    let year: i64 = if in_quad / 365 > 3 {
        3
    } else {
        in_quad / 365
    };
    let doy: i64 = in_quad - year * 365;
    let yoe: i64 = 100 * century + 4 * quad + year;
    let march_year: i64 = yoe + era * 400;
    let mp: i64 = (5 * doy + 2) / 153;
    let d: i64 = doy - (153 * mp + 2) / 5 + 1;
    let m: i64 = if mp < 10 {
        mp + 3
    } else {
        mp - 9
    };
    let y: i64 = if m <= 2 {
        march_year + 1
    } else {
        march_year
    };
    proof {
        year_and_day_add_up(doe as int);
        assert(year_and_day(doe as int) == (yoe as int, doy as int));
        march_cycle(era as int, yoe as int);
        if doy == 365 {
            leap_after(march_year as int, era as int, yoe as int);
        }
        month_and_day_add_up(march_year as int, doy as int);
        assert(month_and_day(doy as int) == (m as int, d as int));
        assert(days_before_year(1970) == 719_528);
    }
    (y, m as u32, d as u32)
}

/// The date that is `days` days after 1970-01-01.
pub open spec fn date_of(days: int) -> (int, int, int) {
    choose|t: (int, int, int)| #[trigger]
        is_date(t.0, t.1, t.2) && day_number(t.0, t.1, t.2) == days
}

/// A day has one date.
pub proof fn date_is(y: int, m: int, d: int)
    requires
        is_date(y, m, d),
    ensures
        date_of(day_number(y, m, d)) == (y, m, d),
{
    let t = (y, m, d);
    assert(is_date(t.0, t.1, t.2));
    let (a, b, c) = date_of(day_number(y, m, d));
    assert(is_date(a, b, c) && day_number(a, b, c) == day_number(y, m, d));
    if (a, b, c) != (y, m, d) {
        if a < y || (a == y && (b < m || (b == m && c < d))) {
            later_dates_have_larger_numbers(a, b, c, y, m, d);
        } else {
            later_dates_have_larger_numbers(y, m, d, a, b, c);
        }
    }
}

/// The text of a point in time, to the minute; nothing before 1970.
pub open spec fn time_text(t: Timestamp, y: int, m: int, d: int) -> Seq<char> {
    let of_day = t.secs % 86_400;
    zero_padded(decimal(y as nat), 4) + "-"@ + zero_padded(decimal(m as nat), 2) + "-"@
        + zero_padded(decimal(d as nat), 2) + " "@ + zero_padded(
        decimal((of_day as int / 3600) as nat),
        2,
    ) + ":"@ + zero_padded(decimal((of_day as int % 3600 / 60) as nat), 2)
}

/// Whether a text is that of a point in time.
pub open spec fn is_time_text(t: Timestamp, s: Seq<char>) -> bool {
    if t.secs < 0 {
        s.len() == 0
    } else {
        exists|y: int, m: int, d: int| #[trigger]
            is_date(y, m, d) && day_number(y, m, d) == t.secs as int / 86_400 && s == time_text(
                t,
                y,
                m,
                d,
            )
    }
}

/// Writes a point in time to the minute, in UTC.
pub fn format_system_time(time: Timestamp) -> (r: String)
    ensures
        is_time_text(time, r@),
{
    if time.secs < 0 {
        return String::new();
    }
    let days: i64 = time.secs / 86_400;
    let of_day: i64 = time.secs % 86_400;
    let (y, m, d) = civil_from_days(days);
    proof {
        year_is_positive(y as int, m as int, d as int);
    }
    let mut out = decimal_padded(y as u64, 4);
    out.append("-");
    out.append(decimal_padded(m as u64, 2).as_str());
    out.append("-");
    out.append(decimal_padded(d as u64, 2).as_str());
    out.append(" ");
    out.append(decimal_padded((of_day / 3600) as u64, 2).as_str());
    out.append(":");
    out.append(decimal_padded((of_day % 3600 / 60) as u64, 2).as_str());
    assert(is_date(y as int, m as int, d as int));
    assert(out@ == time_text(time, y as int, m as int, d as int));
    out
}

pub proof fn year_is_positive(y: int, m: int, d: int)
    requires
        is_date(y, m, d),
        day_number(y, m, d) >= 0,
    ensures
        y >= 1970,
{
    if y < 1970 {
        assert(is_date(1970, 1, 1));
        later_dates_have_larger_numbers(y, m, d, 1970, 1, 1);
        months_add_up(1970);
    }
}

/// A point in time has one text only.
pub proof fn time_text_is_unique(t: Timestamp, a: Seq<char>, b: Seq<char>)
    requires
        is_time_text(t, a),
        is_time_text(t, b),
    ensures
        a == b,
{
    if t.secs >= 0 {
        let (y1, m1, d1): (int, int, int) = choose|y: int, m: int, d: int| #[trigger]
            is_date(y, m, d) && day_number(y, m, d) == t.secs as int / 86_400 && a == time_text(
                t,
                y,
                m,
                d,
            );
        let (y2, m2, d2): (int, int, int) = choose|y: int, m: int, d: int| #[trigger]
            is_date(y, m, d) && day_number(y, m, d) == t.secs as int / 86_400 && b == time_text(
                t,
                y,
                m,
                d,
            );
        if y1 != y2 || m1 != m2 || d1 != d2 {
            if y1 < y2 || (y1 == y2 && (m1 < m2 || (m1 == m2 && d1 < d2))) {
                later_dates_have_larger_numbers(y1, m1, d1, y2, m2, d2);
            } else {
                later_dates_have_larger_numbers(y2, m2, d2, y1, m1, d1);
            }
        }
    } else {
        assert(a =~= b);
    }
}

/// Small sizes are whole bytes. Others have one decimal place: the tenths of
/// the unit that are nearest to them, in the largest of the units, each 1024
/// times the one before, that is no larger than the size.
pub proof fn sizes_are_rounded_to_tenths(bytes: nat)
    requires
        bytes < 9_007_199_254_740_992,
    ensures
        bytes < 1024 ==> size_text(bytes) == decimal(bytes) + " B"@,
        bytes >= 1024 ==> exists|tenths: nat|
            {
                let (unit, label) = if bytes < 1024 * 1024 {
                    (1024int, "KB"@)
                } else if bytes < 1024 * 1024 * 1024 {
                    (1024 * 1024int, "MB"@)
                } else if bytes < 1024 * 1024 * 1024 * 1024 {
                    (1024 * 1024 * 1024int, "GB"@)
                } else {
                    (1024 * 1024 * 1024 * 1024int, "TB"@)
                };
                &&& size_text(bytes) == #[trigger] decimal(tenths / 10) + "."@ + decimal(
                    tenths % 10,
                ) + " "@ + label
                &&& -unit <= 20 * bytes - 2 * tenths * unit <= unit
            },
{
    if bytes >= 1024 {
        assert(spacing(bytes) == 1);
        assert(as_double(bytes) == bytes) by {
            assert(bytes as int / 1 == bytes && bytes as int % 1 == 0);
            assert(nearest(bytes as int, 1) == bytes);
        }
        let n = bytes as int;
        let unit = unit_of(n);
        let t = nearest(10 * n, unit);
        let (q, r) = ((10 * n) / unit, (10 * n) % unit);
        vstd::arithmetic::div_mod::lemma_fundamental_div_mod(10 * n, unit);
        assert(0 <= q) by (nonlinear_arith)
            requires
                q == (10 * n) / unit,
                unit > 0,
                n >= 0,
        ;
        assert(0 <= r < unit);
        assert(2 * t * unit == 2 * (unit * q) || 2 * t * unit == 2 * (unit * q) + 2 * unit)
            by (nonlinear_arith)
            requires
                t == q || t == q + 1,
        ;
        assert(t == q ==> 2 * t * unit == 2 * (unit * q)) by (nonlinear_arith);
        assert(t == q + 1 ==> 2 * t * unit == 2 * (unit * q) + 2 * unit) by (nonlinear_arith);
        let tenths = t as nat;
        assert(size_text(bytes) == decimal(tenths / 10) + "."@ + decimal(tenths % 10) + " "@
            + unit_label(unit));
    }
}

/// The days of a year before each of its months.
pub proof fn months_have_their_days(y: int)
    ensures
        ({
            let leap = if y % 400 == 0 || (y % 4 == 0 && y % 100 != 0) {
                1int
            } else {
                0
            };
            &&& days_before_month(y, 1) == 0
            &&& days_before_month(y, 2) == 31
            &&& days_before_month(y, 3) == 59 + leap
            &&& days_before_month(y, 4) == 90 + leap
            &&& days_before_month(y, 5) == 120 + leap
            &&& days_before_month(y, 6) == 151 + leap
            &&& days_before_month(y, 7) == 181 + leap
            &&& days_before_month(y, 8) == 212 + leap
            &&& days_before_month(y, 9) == 243 + leap
            &&& days_before_month(y, 10) == 273 + leap
            &&& days_before_month(y, 11) == 304 + leap
            &&& days_before_month(y, 12) == 334 + leap
            &&& days_before_year(y + 1) - days_before_year(y) == 365 + leap
            &&& day_number(1970, 1, 1) == 0
        }),
{
    reveal_with_fuel(days_before_month, 13);
}

/// A point in time is written to the minute: year, month, day, hour, minute.
pub proof fn times_are_written_to_the_minute(
    t: Timestamp,
    y: int,
    m: int,
    d: int,
    h: nat,
    minute: nat,
    sec: nat,
)
    requires
        is_date(y, m, d),
        h < 24,
        minute < 60,
        sec < 60,
        t.secs >= 0,
        t.secs == day_number(y, m, d) * 86_400 + h * 3600 + minute * 60 + sec,
    ensures
        is_time_text(
            t,
            zero_padded(decimal(y as nat), 4) + "-"@ + zero_padded(decimal(m as nat), 2) + "-"@
                + zero_padded(decimal(d as nat), 2) + " "@ + zero_padded(decimal(h), 2) + ":"@
                + zero_padded(decimal(minute), 2),
        ),
{
    let of_day = h * 3600 + minute * 60 + sec;
    let days = day_number(y, m, d);
    assert(t.secs as int / 86_400 == days && t.secs as int % 86_400 == of_day)
        by (nonlinear_arith)
        requires
            t.secs == days * 86_400 + of_day,
            0 <= of_day < 86_400,
    ;
    assert(of_day / 3600 == h);
    assert(of_day % 3600 / 60 == minute);
    assert(is_date(y, m, d) && day_number(y, m, d) == t.secs as int / 86_400);
}

} // verus!
