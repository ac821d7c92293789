//! Dates of the Gregorian calendar, by their distance from 1970-01-01.

use vstd::prelude::*;

use crate::text::{chars_of, concat2, concat5, decimal, decimal_text};

verus! {

/// Whether a year has a day more.
pub open spec fn leap(y: int) -> bool {
    y % 4 == 0 && (y % 100 != 0 || y % 400 == 0)
}

/// How many days a month has.
pub open spec fn month_len(y: int, m: int) -> int {
    if m == 2 {
        if leap(y) {
            29
        } else {
            28
        }
    } else if m == 4 || m == 6 || m == 9 || m == 11 {
        30
    } else {
        31
    }
}

/// Whether there is such a date.
pub open spec fn valid_date(y: int, m: int, d: int) -> bool {
    1 <= m <= 12 && 1 <= d <= month_len(y, m)
}

/// How many days lie between the first day of year 1 and that of a year.
pub open spec fn days_to_year(y: int) -> int {
    365 * (y - 1) + (y - 1) / 4 - (y - 1) / 100 + (y - 1) / 400
}

/// How many days of a year lie before a month.
pub open spec fn days_to_month(y: int, m: int) -> int
    decreases m,
{
    if m <= 1 {
        0
    } else {
        days_to_month(y, m - 1) + month_len(y, m - 1)
    }
}

/// How many days lie between 1970-01-01 and a date.
pub open spec fn day_number(y: int, m: int, d: int) -> int {
    days_to_year(y) - days_to_year(1970) + days_to_month(y, m) + d - 1
}

/// Where the months begin, by the days of February.
proof fn lemma_months(y: int)
    ensures
        ({
            let l: int = if leap(y) {
                1
            } else {
                0
            };
            &&& days_to_month(y, 1) == 0
            &&& days_to_month(y, 2) == 31
            &&& days_to_month(y, 3) == 59 + l
            &&& days_to_month(y, 4) == 90 + l
            &&& days_to_month(y, 5) == 120 + l
            &&& days_to_month(y, 6) == 151 + l
            &&& days_to_month(y, 7) == 181 + l
            &&& days_to_month(y, 8) == 212 + l
            &&& days_to_month(y, 9) == 243 + l
            &&& days_to_month(y, 10) == 273 + l
            &&& days_to_month(y, 11) == 304 + l
            &&& days_to_month(y, 12) == 334 + l
        }),
{
    reveal_with_fuel(days_to_month, 13);
}

/// The year, counted from March, within 400 years, of a day within them.
pub open spec fn year_of_era(doe: int) -> int {
    (doe - doe / 1460 + doe / 36524 - doe / 146096) / 365
}

proof fn lemma_year_of_era(doe: int)
    requires
        0 <= doe <= 146096,
    ensures
        ({
            let yoe = year_of_era(doe);
            let start = 365 * yoe + yoe / 4 - yoe / 100;
            &&& 0 <= yoe <= 399
            &&& start <= doe <= start + 365
            &&& doe == start + 365 ==> (yoe + 1) % 4 == 0 && ((yoe + 1) % 100 != 0 || yoe + 1 == 400)
        }),
{
    let b = doe / 36524;
    let r = doe - 36524 * b;
    if b < 4 {
        let e = r / 1461;
        let t = r - 1461 * e;
        assert(0 <= e <= 24 && 0 <= t <= 1460);
        assert(e == 24 ==> t < 1460);
        let a = doe / 1460;
        assert(doe == 1460 * (25 * b + e) + (24 * b + e + t));
        let over: int = if 24 * b + e + t >= 1460 {
            1
        } else {
            0
        };
        assert(a == 25 * b + e + over);
        assert(doe / 146096 == 0);
        let n = doe - a + b;
        assert(n == 36500 * b + 1460 * e + t - over);
        let g = (t - over) / 365;
        assert(0 <= g <= 3);
        let yoe = year_of_era(doe);
        assert(yoe == 100 * b + 4 * e + g);
        assert(yoe / 4 == 25 * b + e);
        assert(yoe / 100 == b);
        assert(t - 365 * g <= 365);
        assert(t - 365 * g >= 0);
        if t - 365 * g == 365 {
            assert(g == 3 && t == 1460);
            assert(e < 24);
            assert((yoe + 1) % 4 == 0);
            assert((yoe + 1) % 100 == 4 * e + 4);
        }
    } else {
        assert(doe == 146096);
    }
}

/// Month and day of a day of the year, counted from March.
proof fn lemma_month_of_year(year: int, doy: int)
    requires
        0 <= doy <= 365,
        doy == 365 ==> leap(year + 1),
    ensures
        ({
            let mp = (5 * doy + 2) / 153;
            let d = doy - (153 * mp + 2) / 5 + 1;
            let m = if mp < 10 {
                mp + 3
            } else {
                mp - 9
            };
            let y = if m <= 2 {
                year + 1
            } else {
                year
            };
            &&& 0 <= mp <= 11
            &&& valid_date(y, m, d)
            &&& days_to_month(y, m) + d - 1 == if mp < 10 {
                days_to_month(year, 3) + doy
            } else {
                doy - 306
            }
        }),
{
    let mp = (5 * doy + 2) / 153;
    assert(0 <= mp <= 11);
    lemma_months(year);
    lemma_months(year + 1);
    if mp == 0 {
    } else if mp == 1 {
    } else if mp == 2 {
    } else if mp == 3 {
    } else if mp == 4 {
    } else if mp == 5 {
    } else if mp == 6 {
    } else if mp == 7 {
    } else if mp == 8 {
    } else if mp == 9 {
    } else if mp == 10 {
    } else {
        assert(mp == 11);
    }
}

/// The days from 0000-03-01 to the first of March of a year, two ways.
proof fn lemma_first_of_march(year: int)
    ensures
        365 * year + year / 4 - year / 100 + year / 400 == days_to_year(year + 1),
        days_to_year(year + 1) == days_to_year(year) + 365 + (if leap(year) {
            1int
        } else {
            0
        }),
{
    assert(year / 4 - (year - 1) / 4 == if year % 4 == 0 {
        1int
    } else {
        0
    });
    assert(year / 100 - (year - 1) / 100 == if year % 100 == 0 {
        1int
    } else {
        0
    });
    assert(year / 400 - (year - 1) / 400 == if year % 400 == 0 {
        1int
    } else {
        0
    });
}

proof fn lemma_era(era: int, yoe: int)
    requires
        0 <= yoe <= 399,
    ensures
        ({
            let year = yoe + era * 400;
            &&& year / 4 == yoe / 4 + 100 * era
            &&& year / 100 == yoe / 100 + 4 * era
            &&& year / 400 == era
            &&& (year + 1) % 4 == (yoe + 1) % 4
            &&& (year + 1) % 100 == (yoe + 1) % 100
            &&& (year + 1) % 400 == (yoe + 1) % 400
        }),
{
}

/// The date that is a day of an era of 400 years.
proof fn lemma_civil(era: int, doe: int)
    requires
        0 <= doe <= 146_096,
    ensures
        ({
            let yoe = year_of_era(doe);
            let year = yoe + era * 400;
            let doy = doe - (365 * yoe + yoe / 4 - yoe / 100);
            let mp = (5 * doy + 2) / 153;
            let d = doy - (153 * mp + 2) / 5 + 1;
            let m = if mp < 10 {
                mp + 3
            } else {
                mp - 9
            };
            let y = if m <= 2 {
                year + 1
            } else {
                year
            };
            &&& 0 <= yoe <= 399
            &&& 0 <= doy <= 365
            &&& 0 <= mp <= 11
            &&& valid_date(y, m, d)
            &&& day_number(y, m, d) == 146_097 * era + doe - 719_468
        }),
{
    lemma_year_of_era(doe);
    let yoe = year_of_era(doe);
    let year = yoe + era * 400;
    let doy = doe - (365 * yoe + yoe / 4 - yoe / 100);
    lemma_era(era, yoe);
    if doy == 365 {
        assert(leap(year + 1));
    }
    lemma_month_of_year(year, doy);
    lemma_first_of_march(year);
    lemma_months(year);
    assert(days_to_year(year + 1) == 146_097 * era + doe - doy);
    assert(days_to_year(1970) == 719_162);
}

/// The date of a day: year, month and day of the month.
pub fn civil_from_days(days: i64) -> (r: (i64, u32, u32))
    ensures
        valid_date(r.0 as int, r.1 as int, r.2 as int),
        day_number(r.0 as int, r.1 as int, r.2 as int) == days,
{
    let z: i128 = days as i128 + 719_468;
    let era: i128 = if z >= 0 {
        z / 146_097
    } else {
        -((146_096 - z) / 146_097)
    };
    let doe: i128 = z - era * 146_097;
    proof {
        lemma_civil(era as int, doe as int);
    }
    let yoe: i128 = (doe - doe / 1460 + doe / 36_524 - doe / 146_096) / 365;
    assert(yoe == year_of_era(doe as int));
    let year: i128 = yoe + era * 400;
    let doy: i128 = doe - (365 * yoe + yoe / 4 - yoe / 100);
    let mp: i128 = (5 * doy + 2) / 153;
    let d: i128 = doy - (153 * mp + 2) / 5 + 1;
    let m: i128 = if mp < 10 {
        mp + 3
    } else {
        mp - 9
    };
    let y: i128 = if m <= 2 {
        year + 1
    } else {
        year
    };
    (y as i64, m as u32, d as u32)
}

proof fn lemma_years_in_order(a: int, b: int)
    requires
        a <= b,
    ensures
        days_to_year(a) + 365 * (b - a) <= days_to_year(b),
    decreases b - a,
{
    if a < b {
        lemma_years_in_order(a, b - 1);
        lemma_first_of_march(b - 1);
    }
}

proof fn lemma_date_in_year(y: int, m: int, d: int)
    requires
        valid_date(y, m, d),
    ensures
        0 <= days_to_month(y, m) + d - 1 < 365 + (if leap(y) {
            1int
        } else {
            0
        }),
{
    lemma_months(y);
}

/// No two dates are the same day.
pub proof fn law_dates_are_distinct(y1: int, m1: int, d1: int, y2: int, m2: int, d2: int)
    requires
        valid_date(y1, m1, d1),
        valid_date(y2, m2, d2),
        day_number(y1, m1, d1) == day_number(y2, m2, d2),
    ensures
        y1 == y2 && m1 == m2 && d1 == d2,
{
    lemma_date_in_year(y1, m1, d1);
    lemma_date_in_year(y2, m2, d2);
    lemma_first_of_march(y1);
    lemma_first_of_march(y2);
    if y1 < y2 {
        lemma_years_in_order(y1 + 1, y2);
    }
    if y2 < y1 {
        lemma_years_in_order(y2 + 1, y1);
    }
    lemma_months(y1);
}

/// A number written with zeros in front, so that it has so many digits at least.
pub open spec fn zero_padded(n: nat, width: nat) -> Seq<char> {
    let digits = decimal(n);
    Seq::new(if digits.len() < width { (width - digits.len()) as nat } else { 0 }, |i: int| '0') + digits
}

fn pad_zeros(n: u64, width: usize) -> (r: String)
    ensures
        r@ == zero_padded(n as nat, width as nat),
{
    let digits = decimal_text(n);
    let have = chars_of(digits.as_str()).len();
    let mut zeros = String::new();
    let mut i: usize = have;
    proof {
        reveal_strlit("0");
        assert(zeros@ == Seq::new(0, |k: int| '0'));
    }
    while i < width
        invariant
            have <= i,
            i <= width || i == have,
            zeros@ == Seq::new((i - have) as nat, |k: int| '0'),
            "0"@ == seq!['0'],
        decreases width - i,
    {
        zeros.append("0");
        i += 1;
        assert(zeros@ == Seq::new((i - have) as nat, |k: int| '0'));
    }
    concat2(zeros.as_str(), digits.as_str())
}

/// A date as year, month and day with hyphens between.
pub open spec fn date_text(y: nat, m: nat, d: nat) -> Seq<char> {
    zero_padded(y, 4) + "-"@ + zero_padded(m, 2) + "-"@ + zero_padded(d, 2)
}

/// The date, in UTC, of a moment so many seconds after the beginning of 1970.
pub fn date_of(seconds: u64) -> (r: String)
    ensures
        exists|y: nat, m: nat, d: nat|
            #![trigger date_text(y, m, d)]
            valid_date(y as int, m as int, d as int) && day_number(y as int, m as int, d as int)
                == seconds as int / 86_400 && r@ == date_text(y, m, d),
{
    let days: i64 = (seconds / 86_400) as i64;
    let (y, m, d) = civil_from_days(days);
    proof {
        lemma_date_in_year(y as int, m as int, d as int);
        lemma_first_of_march(y as int);
        if y < 0 {
            lemma_years_in_order(y + 1, 0);
            assert(days_to_year(0) == -366);
            assert(days_to_year(1970) == 719_162);
        }
    }
    let r = concat5(
        pad_zeros(y as u64, 4).as_str(),
        "-",
        pad_zeros(m as u64, 2).as_str(),
        "-",
        pad_zeros(d as u64, 2).as_str(),
    );
    assert(r@ == date_text(y as nat, m as nat, d as nat));
    r
}

} // verus!
