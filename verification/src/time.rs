//! Civil date-time handling: the console's date-time entry grammar and its
//! conversion to Unix seconds (proleptic Gregorian, UTC).

use vstd::prelude::*;

use crate::render::chars_of;
use crate::render::digit_value;
use crate::render::{spec_all_digits, spec_digits_val, spec_is_digit};

verus! {

/// Whether `y` is a Gregorian leap year.
pub open spec fn spec_is_leap(y: int) -> bool {
    y % 4 == 0 && (y % 100 != 0 || y % 400 == 0)
}

/// Days in year `y`.
pub open spec fn spec_days_in_year(y: int) -> int {
    if spec_is_leap(y) {
        366
    } else {
        365
    }
}

/// Days from 0000-01-01 to the start of year `y`.
pub open spec fn spec_days_before_year(y: int) -> int
    decreases y,
{
    if y <= 0 {
        0
    } else {
        spec_days_before_year(y - 1) + spec_days_in_year(y - 1)
    }
}

/// Days in month `m` of year `y`, or 0 for an invalid month number.
pub open spec fn spec_days_in_month(y: int, m: int) -> int {
    if m == 1 {
        31
    } else if m == 2 {
        if spec_is_leap(y) {
            29
        } else {
            28
        }
    } else if m == 3 {
        31
    } else if m == 4 {
        30
    } else if m == 5 {
        31
    } else if m == 6 {
        30
    } else if m == 7 {
        31
    } else if m == 8 {
        31
    } else if m == 9 {
        30
    } else if m == 10 {
        31
    } else if m == 11 {
        30
    } else if m == 12 {
        31
    } else {
        0
    }
}

/// Days from the start of year `y` to the start of its month `m`.
pub open spec fn spec_days_before_month(y: int, m: int) -> int
    decreases m,
{
    if m <= 1 {
        0
    } else {
        spec_days_before_month(y, m - 1) + spec_days_in_month(y, m - 1)
    }
}

/// Days from 1970-01-01 to the civil date (y, m, d); negative for earlier
/// dates. 719528 is the day count from 0000-01-01 to the epoch.
pub open spec fn spec_epoch_days(y: int, m: int, d: int) -> int {
    spec_days_before_year(y) + spec_days_before_month(y, m) + (d - 1) - 719528
}

/// Unix seconds of the civil UTC instant (y, m, d, h, mi, s).
pub open spec fn spec_civil_secs(y: int, m: int, d: int, h: int, mi: int, s: int) -> int {
    spec_epoch_days(y, m, d) * 86400 + h * 3600 + mi * 60 + s
}

/// The civil fields the console accepts: a four-digit year and an existing
/// calendar date and time of day.
pub open spec fn spec_valid_civil(y: int, m: int, d: int, h: int, mi: int, s: int) -> bool {
    &&& 0 <= y <= 9999
    &&& 1 <= m <= 12
    &&& 1 <= d <= spec_days_in_month(y, m)
    &&& 0 <= h < 24
    &&& 0 <= mi < 60
    &&& 0 <= s < 60
}

/// Whether `y` is a leap year.
pub fn is_leap(y: u32) -> (r: bool)
    ensures
        r == spec_is_leap(y as int),
{
    (y % 4 == 0) && (y % 100 != 0 || y % 400 == 0)
}

/// Days in month `m` of year `y`.
pub fn days_in_month(y: u32, m: u32) -> (r: u32)
    ensures
        r == spec_days_in_month(y as int, m as int),
{
    if m == 1 {
        31
    } else if m == 2 {
        if is_leap(y) {
            29
        } else {
            28
        }
    } else if m == 3 {
        31
    } else if m == 4 {
        30
    } else if m == 5 {
        31
    } else if m == 6 {
        30
    } else if m == 7 {
        31
    } else if m == 8 {
        31
    } else if m == 9 {
        30
    } else if m == 10 {
        31
    } else if m == 11 {
        30
    } else if m == 12 {
        31
    } else {
        0
    }
}

fn days_before_year(y: u32) -> (r: u64)
    requires
        y <= 9999,
    ensures
        r == spec_days_before_year(y as int),
        r <= 366 * (y as u64),
{
    let mut acc: u64 = 0;
    let mut i: u32 = 0;
    while i < y
        invariant
            i <= y,
            y <= 9999,
            acc == spec_days_before_year(i as int),
            acc <= 366 * (i as u64),
        decreases y - i,
    {
        if is_leap(i) {
            acc += 366;
        } else {
            acc += 365;
        }
        i += 1;
    }
    acc
}

fn days_before_month(y: u32, m: u32) -> (r: u32)
    requires
        1 <= m <= 12,
    ensures
        r == spec_days_before_month(y as int, m as int),
        r <= 372,
{
    let mut acc: u32 = 0;
    let mut k: u32 = 1;
    while k < m
        invariant
            1 <= k <= m,
            m <= 12,
            acc == spec_days_before_month(y as int, k as int),
            acc <= 31 * (k as u32),
        decreases m - k,
    {
        acc += days_in_month(y, k);
        k += 1;
    }
    acc
}

/// Unix seconds of a valid civil UTC date-time.
pub fn civil_to_unix(y: u32, mo: u32, d: u32, h: u32, mi: u32, s: u32) -> (r: i64)
    requires
        spec_valid_civil(y as int, mo as int, d as int, h as int, mi as int, s as int),
    ensures
        r == spec_civil_secs(y as int, mo as int, d as int, h as int, mi as int, s as int),
{
    let days: i64 = days_before_year(y) as i64 + days_before_month(y, mo) as i64 + (d as i64 - 1)
        - 719528;
    days * 86400 + (h as i64) * 3600 + (mi as i64) * 60 + (s as i64)
}

/// The first position at or after `i` that does not hold a digit.
pub open spec fn spec_num_end(s: Seq<char>, i: int) -> int
    decreases s.len() - i,
{
    if i < 0 || i >= s.len() {
        i
    } else if !spec_is_digit(s[i]) {
        i
    } else {
        spec_num_end(s, i + 1)
    }
}

fn num_end(chars: &Vec<char>, i: usize) -> (r: usize)
    requires
        i <= chars@.len(),
    ensures
        r == spec_num_end(chars@, i as int),
        i <= r <= chars@.len(),
        forall|k: int| i <= k < r ==> spec_is_digit(#[trigger] chars@[k]),
        r < chars@.len() ==> !spec_is_digit(chars@[r as int]),
    decreases chars@.len() - i,
{
    if i < chars.len() {
        match digit_value(chars[i]) {
            Some(_) => num_end(chars, i + 1),
            None => i,
        }
    } else {
        i
    }
}

fn field_val(chars: &Vec<char>, i: usize, e: usize) -> (r: u32)
    requires
        i <= e <= chars@.len(),
        e - i <= 4,
        forall|k: int| i <= k < e ==> spec_is_digit(#[trigger] chars@[k]),
    ensures
        r == spec_digits_val(chars@.subrange(i as int, e as int)),
        r <= 9999,
{
    let mut acc: u32 = 0;
    let mut j: usize = i;
    proof {
        assert(chars@.subrange(i as int, i as int) =~= Seq::<char>::empty());
    }
    while j < e
        invariant
            i <= j <= e,
            e <= chars@.len(),
            e - i <= 4,
            forall|k: int| i <= k < e ==> spec_is_digit(#[trigger] chars@[k]),
            acc == spec_digits_val(chars@.subrange(i as int, j as int)),
            acc < (if j - i == 0 {
                1int
            } else if j - i == 1 {
                10int
            } else if j - i == 2 {
                100int
            } else if j - i == 3 {
                1000int
            } else {
                10000int
            }),
        decreases e - j,
    {
        let d = match digit_value(chars[j]) {
            Some(v) => v as u32,
            None => 0,
        };
        proof {
            let prev = chars@.subrange(i as int, j as int);
            let cur = chars@.subrange(i as int, j + 1);
            assert(cur.take(cur.len() - 1) =~= prev);
            assert(cur[cur.len() - 1] == chars@[j as int]);
        }
        acc = acc * 10 + d;
        j += 1;
    }
    acc
}

/// The date-time grammar the console accepts, and the instant an accepted
/// text denotes: a four-digit year, then `-month-day` with one or two
/// digits each, optionally followed by a time of day — a space and an hour,
/// `:minute` and `:second` each optional in turn, every omitted part zero.
/// The date must exist in the calendar and the time of day must be valid;
/// anything else is rejected.
pub open spec fn spec_parse_datetime(s: Seq<char>) -> Option<int> {
    if s.len() < 5 || !spec_all_digits(s.take(4)) || s[4] != '-' {
        None
    } else {
        let y = spec_digits_val(s.take(4));
        let me = spec_num_end(s, 5);
        if me - 5 < 1 || me - 5 > 2 || me >= s.len() || s[me] != '-' {
            None
        } else {
            let mo = spec_digits_val(s.subrange(5, me));
            let de = spec_num_end(s, me + 1);
            if de - (me + 1) < 1 || de - (me + 1) > 2 {
                None
            } else {
                let d = spec_digits_val(s.subrange(me + 1, de));
                match spec_parse_time_of_day(s, de) {
                    None => None,
                    Some(hms) => {
                        if spec_valid_civil(y, mo, d, hms.0, hms.1, hms.2) {
                            Some(spec_civil_secs(y, mo, d, hms.0, hms.1, hms.2))
                        } else {
                            None
                        }
                    },
                }
            }
        }
    }
}

/// The optional time-of-day part starting at `p`: nothing, ` H`, ` H:M` or
/// ` H:M:S`, each number one or two digits, omitted parts zero.
pub open spec fn spec_parse_time_of_day(s: Seq<char>, p: int) -> Option<(int, int, int)> {
    if p == s.len() {
        Some((0, 0, 0))
    } else if s[p] != ' ' {
        None
    } else {
        let he = spec_num_end(s, p + 1);
        if he - (p + 1) < 1 || he - (p + 1) > 2 {
            None
        } else {
            let h = spec_digits_val(s.subrange(p + 1, he));
            if he == s.len() {
                Some((h, 0, 0))
            } else if s[he] != ':' {
                None
            } else {
                let mie = spec_num_end(s, he + 1);
                if mie - (he + 1) < 1 || mie - (he + 1) > 2 {
                    None
                } else {
                    let mi = spec_digits_val(s.subrange(he + 1, mie));
                    if mie == s.len() {
                        Some((h, mi, 0))
                    } else if s[mie] != ':' {
                        None
                    } else {
                        let se = spec_num_end(s, mie + 1);
                        if se - (mie + 1) < 1 || se - (mie + 1) > 2 || se != s.len() {
                            None
                        } else {
                            Some((h, mi, spec_digits_val(s.subrange(mie + 1, se))))
                        }
                    }
                }
            }
        }
    }
}

/// Parses a date-time text in the console's entry grammar into Unix
/// seconds; rejected texts yield nothing.
pub fn parse_datetime(s: &str) -> (r: Option<i64>)
    ensures
        (match r {
            Some(v) => spec_parse_datetime(s@) == Some(v as int),
            None => spec_parse_datetime(s@) is None,
        }),
{
    let chars = chars_of(s);
    let n = chars.len();
    // Year: exactly four digits, then '-'.
    if n < 5 {
        return None;
    }
    let y_end = num_end(&chars, 0);
    if y_end < 4 {
        proof {
            let ye = y_end as int;
            assert(!spec_is_digit(s@[ye]));
            assert(s@.take(4)[ye] == s@[ye]);
            assert(!spec_all_digits(s@.take(4)));
        }
        return None;
    }
    proof {
        assert(spec_all_digits(s@.take(4)));
    }
    if chars[4] != '-' {
        return None;
    }
    proof {
        // Exactly four digits: position 4 holds '-', so the digit run from
        // 0 stops there.
        assert(spec_num_end(s@, 4) == 4);
        assert(y_end == 4) by {
            if y_end > 4 {
                assert(spec_is_digit(s@[4]));
            }
        }
    }
    let y = field_val(&chars, 0, 4);
    proof {
        assert(s@.subrange(0, 4) =~= s@.take(4));
    }
    // Month: one or two digits, then '-'.
    let me = num_end(&chars, 5);
    if me - 5 < 1 || me - 5 > 2 || me >= n {
        return None;
    }
    if chars[me] != '-' {
        return None;
    }
    let mo = field_val(&chars, 5, me);
    // Day: one or two digits.
    let de = num_end(&chars, me + 1);
    if de - (me + 1) < 1 || de - (me + 1) > 2 {
        return None;
    }
    let d = field_val(&chars, me + 1, de);
    // Time of day, each omitted part zero.
    let mut h: u32 = 0;
    let mut mi: u32 = 0;
    let mut sec: u32 = 0;
    if de == n {
    } else {
        if chars[de] != ' ' {
            return None;
        }
        let he = num_end(&chars, de + 1);
        if he - (de + 1) < 1 || he - (de + 1) > 2 {
            return None;
        }
        h = field_val(&chars, de + 1, he);
        if he == n {
        } else {
            if chars[he] != ':' {
                return None;
            }
            let mie = num_end(&chars, he + 1);
            if mie - (he + 1) < 1 || mie - (he + 1) > 2 {
                return None;
            }
            mi = field_val(&chars, he + 1, mie);
            if mie == n {
            } else {
                if chars[mie] != ':' {
                    return None;
                }
                let se = num_end(&chars, mie + 1);
                if se - (mie + 1) < 1 || se - (mie + 1) > 2 || se != n {
                    return None;
                }
                sec = field_val(&chars, mie + 1, se);
            }
        }
    }
    // Validate the calendar date and the time of day.
    if !(y <= 9999 && 1 <= mo && mo <= 12 && 1 <= d && d <= days_in_month(y, mo) && h < 24 && mi
        < 60 && sec < 60) {
        return None;
    }
    Some(civil_to_unix(y, mo, d, h, mi, sec))
}

} // verus!
