//! Maps a typed [`Instrument`] to a broker contract specification: security
//! type, exchange, currency, futures multiplier and the front-month expiry.
//! An index has no contract (it is data-only).
use chrono::{Datelike, NaiveDate, TimeDelta};

use vstd::prelude::*;

use crate::domain::{Instrument, InstrumentView};
use crate::text::{ends_with, ends_with_chars, prefix_chars, str_chars, string_chars, string_from_chars, string_of};

verus! {

/// Broker security type.
#[derive(Debug, Clone, Copy, PartialEq, Eq, Structural)]
pub enum SecType {
    Stock,
    Future,
    Forex,
    Crypto,
}

// ───────────────────────────── calendar dates ─────────────────────────────

/// Gregorian leap year.
pub open spec fn is_leap_year(y: int) -> bool {
    (y % 4 == 0 && y % 100 != 0) || y % 400 == 0
}

/// Days in month `m` of year `y`.
pub open spec fn days_in_month(y: int, m: int) -> int {
    if m == 2 {
        if is_leap_year(y) {
            29
        } else {
            28
        }
    } else if m == 4 || m == 6 || m == 9 || m == 11 {
        30
    } else {
        31
    }
}

/// A calendar date in the proleptic Gregorian calendar within the range of
/// `chrono::NaiveDate` (years -262143 ..= 262142).
pub open spec fn ymd_valid(y: int, m: int, d: int) -> bool {
    &&& -262143 <= y <= 262142
    &&& 1 <= m <= 12
    &&& 1 <= d <= days_in_month(y, m)
}

/// A calendar date.
#[derive(Debug, Clone, Copy, PartialEq, Eq, Structural)]
pub struct CivilDate {
    year: i32,
    month: u32,
    day: u32,
}

impl CivilDate {
    #[verifier::type_invariant]
    spec fn inv(self) -> bool {
        ymd_valid(self.year as int, self.month as int, self.day as int)
    }

    pub closed spec fn spec_year(self) -> i32 {
        self.year
    }

    pub closed spec fn spec_month(self) -> u32 {
        self.month
    }

    pub closed spec fn spec_day(self) -> u32 {
        self.day
    }

    /// The date `year-month-day`, if it exists.
    pub fn new(year: i32, month: u32, day: u32) -> (r: Option<Self>)
        ensures
            r is Some <==> ymd_valid(year as int, month as int, day as int),
            r matches Some(c) ==> c.spec_year() == year && c.spec_month() == month && c.spec_day()
                == day,
    {
        if year < -262143 || year > 262142 || month < 1 || month > 12 || day < 1 {
            return None;
        }
        let leap = (year % 4 == 0 && year % 100 != 0) || year % 400 == 0;
        let dim: u32 = if month == 2 {
            if leap {
                29
            } else {
                28
            }
        } else if month == 4 || month == 6 || month == 9 || month == 11 {
            30
        } else {
            31
        };
        if day > dim {
            return None;
        }
        Some(CivilDate { year, month, day })
    }

    pub fn year(&self) -> (y: i32)
        ensures
            y == self.spec_year(),
            -262143 <= y <= 262142,
    {
        proof {
            use_type_invariant(self);
        }
        self.year
    }

    pub fn month(&self) -> (m: u32)
        ensures
            m == self.spec_month(),
            1 <= m <= 12,
    {
        proof {
            use_type_invariant(self);
        }
        self.month
    }

    pub fn day(&self) -> (d: u32)
        ensures
            d == self.spec_day(),
            1 <= d <= days_in_month(self.spec_year() as int, self.spec_month() as int),
            d <= 31,
    {
        proof {
            use_type_invariant(self);
        }
        self.day
    }
}

/// Days from 0001-01-01 to the first day of year `y` of the proleptic
/// Gregorian calendar (negative before it).
pub open spec fn days_before_year(y: int) -> int {
    365 * (y - 1) + (y - 1) / 4 - (y - 1) / 100 + (y - 1) / 400
}

/// Days from the first day of year `y` to the first day of its month `m`.
pub open spec fn days_before_month(y: int, m: int) -> int {
    let base: int = if m <= 1 {
        0
    } else if m == 2 {
        31
    } else if m == 3 {
        59
    } else if m == 4 {
        90
    } else if m == 5 {
        120
    } else if m == 6 {
        151
    } else if m == 7 {
        181
    } else if m == 8 {
        212
    } else if m == 9 {
        243
    } else if m == 10 {
        273
    } else if m == 11 {
        304
    } else {
        334
    };
    if m > 2 && is_leap_year(y) {
        base + 1
    } else {
        base
    }
}

/// The day number of `y-m-d`: days since 0001-01-01.
pub open spec fn day_number(y: int, m: int, d: int) -> int {
    days_before_year(y) + days_before_month(y, m) + d - 1
}

/// The day numbers of the first and the last date chrono represents.
pub open spec fn first_day_number() -> int {
    day_number(-262143, 1, 1)
}

pub open spec fn last_day_number() -> int {
    day_number(262142, 12, 31)
}

/// The date `days` days after `y-m-d`, or `None` when `y-m-d` is not a date
/// or the result falls outside chrono's range. (The date with a given day
/// number is unique: see [`lemma_day_number_injective`].)
pub open spec fn spec_date_after_days(y: int, m: int, d: int, days: int) -> Option<(int, int, int)> {
    let target = day_number(y, m, d) + days;
    if ymd_valid(y, m, d) && first_day_number() <= target <= last_day_number() {
        Some(choose|t: (int, int, int)| ymd_valid(t.0, t.1, t.2) && day_number(t.0, t.1, t.2) == target)
    } else {
        None
    }
}

proof fn lemma_year_length(y: int)
    ensures
        days_before_year(y + 1) == days_before_year(y) + if is_leap_year(y) { 366int } else { 365int },
{
    assert(y / 4 - (y - 1) / 4 == if y % 4 == 0 { 1int } else { 0int });
    assert(y / 100 - (y - 1) / 100 == if y % 100 == 0 { 1int } else { 0int });
    assert(y / 400 - (y - 1) / 400 == if y % 400 == 0 { 1int } else { 0int });
}

proof fn lemma_years_increase(y1: int, y2: int)
    requires
        y1 < y2,
    ensures
        days_before_year(y1 + 1) <= days_before_year(y2),
    decreases y2 - y1,
{
    if y1 + 1 < y2 {
        lemma_year_length(y2 - 1);
        lemma_years_increase(y1, y2 - 1);
    }
}

proof fn lemma_month_offsets(y: int, m1: int, m2: int)
    requires
        1 <= m1 < m2 <= 12,
    ensures
        days_before_month(y, m1) + days_in_month(y, m1) <= days_before_month(y, m2),
{
}

proof fn lemma_in_year(y: int, m: int, d: int)
    requires
        1 <= m <= 12,
        1 <= d <= days_in_month(y, m),
    ensures
        0 <= days_before_month(y, m) + d - 1 < if is_leap_year(y) { 366int } else { 365int },
{
}

/// Law: distinct dates have distinct day numbers.
pub proof fn lemma_day_number_injective(y1: int, m1: int, d1: int, y2: int, m2: int, d2: int)
    requires
        ymd_valid(y1, m1, d1),
        ymd_valid(y2, m2, d2),
        day_number(y1, m1, d1) == day_number(y2, m2, d2),
    ensures
        y1 == y2 && m1 == m2 && d1 == d2,
{
    lemma_in_year(y1, m1, d1);
    lemma_in_year(y2, m2, d2);
    lemma_year_length(y1);
    lemma_year_length(y2);
    if y1 < y2 {
        lemma_years_increase(y1, y2);
    } else if y2 < y1 {
        lemma_years_increase(y2, y1);
    } else if m1 < m2 {
        lemma_month_offsets(y1, m1, m2);
    } else if m2 < m1 {
        lemma_month_offsets(y1, m2, m1);
    }
}

/// Every date chrono represents has a day number within its range.
proof fn lemma_day_number_in_range(y: int, m: int, d: int)
    requires
        ymd_valid(y, m, d),
    ensures
        first_day_number() <= day_number(y, m, d) <= last_day_number(),
{
    lemma_in_year(y, m, d);
    lemma_year_length(y);
    if -262143 < y {
        lemma_years_increase(-262143, y);
    }
    if y < 262142 {
        lemma_years_increase(y, 262142);
    }
    lemma_in_year(262142, 12, 31);
    lemma_year_length(262142);
}

/// Law: the date `days` days after a date is the date whose day number is
/// `days` more, whenever both are dates of chrono's range.
pub proof fn lemma_date_after_days_is(y: int, m: int, d: int, days: int, y2: int, m2: int, d2: int)
    requires
        ymd_valid(y, m, d),
        ymd_valid(y2, m2, d2),
        day_number(y2, m2, d2) == day_number(y, m, d) + days,
    ensures
        spec_date_after_days(y, m, d, days) == Some((y2, m2, d2)),
{
    lemma_day_number_in_range(y2, m2, d2);
    let t = (y2, m2, d2);
    assert(ymd_valid(t.0, t.1, t.2) && day_number(t.0, t.1, t.2) == day_number(y, m, d) + days);
    let c = choose|c: (int, int, int)| ymd_valid(c.0, c.1, c.2) && day_number(c.0, c.1, c.2) == day_number(y, m, d) + days;
    lemma_day_number_injective(c.0, c.1, c.2, y2, m2, d2);
}

/// `NaiveDate::from_ymd_opt`, then `checked_add_signed` with
/// `TimeDelta::try_days(days)`: when `y-m-d` is a date of chrono's range and
/// the date `days` days later (the one whose day number is `days` more) is too,
/// that date; otherwise `None`. (Out-of-range day counts make `try_days` or
/// `checked_add_signed` fail, and those lie far outside the range of dates.)
#[verifier::external_body]
fn date_after_days(y: i32, m: u32, d: u32, days: i64) -> (r: Option<(i32, u32, u32)>)
    ensures
        match r {
            Some((ry, rm, rd)) => ymd_valid(y as int, m as int, d as int) && ymd_valid(ry as int, rm as int, rd as int)
                && day_number(ry as int, rm as int, rd as int) == day_number(y as int, m as int, d as int) + days,
            None => !ymd_valid(y as int, m as int, d as int) || !(first_day_number() <= day_number(
                y as int,
                m as int,
                d as int,
            ) + days <= last_day_number()),
        },
{
    let start = match NaiveDate::from_ymd_opt(y, m, d) {
        Some(s) => s,
        None => return None,
    };
    let delta = match TimeDelta::try_days(days) {
        Some(t) => t,
        None => return None,
    };
    match start.checked_add_signed(delta) {
        Some(r) => Some((r.year(), r.month(), r.day())),
        None => None,
    }
}

/// The date `days` days after `date`, or `None` when chrono cannot represent it.
pub fn shift_days(date: &CivilDate, days: i64) -> (r: Option<CivilDate>)
    ensures
        match spec_date_after_days(
            date.spec_year() as int,
            date.spec_month() as int,
            date.spec_day() as int,
            days as int,
        ) {
            Some((y, m, d)) => r is Some && r->0.spec_year() == y && r->0.spec_month() == m
                && r->0.spec_day() == d,
            None => r is None,
        },
{
    let r = date_after_days(date.year(), date.month(), date.day(), days);
    proof {
        if let Some((ry, rm, rd)) = r {
            lemma_date_after_days_is(
                date.spec_year() as int,
                date.spec_month() as int,
                date.spec_day() as int,
                days as int,
                ry as int,
                rm as int,
                rd as int,
            );
        }
    }
    match r {
        Some((y, m, d)) => CivilDate::new(y, m, d),
        None => None,
    }
}

// ───────────────────────────── futures calendar ─────────────────────────────

/// Whether a root is one of the quarterly futures: equity index, bonds and
/// currencies.
pub open spec fn is_quarterly_root(root: Seq<char>) -> bool {
    ||| root == "ES"@
    ||| root == "NQ"@
    ||| root == "RTY"@
    ||| root == "YM"@
    ||| root == "MES"@
    ||| root == "MNQ"@
    ||| root == "ZB"@
    ||| root == "ZN"@
    ||| root == "6E"@
    ||| root == "6J"@
}

/// Contract months (1-indexed) of a futures root; none for a root the
/// calendar does not know.
pub open spec fn spec_expiry_months(root: Seq<char>) -> Seq<u32> {
    if root == "GC"@ {
        seq![2, 4, 6, 8, 10, 12]
    } else if root == "SI"@ || root == "HG"@ {
        seq![3, 5, 7, 9, 12]
    } else if root == "CL"@ || root == "NG"@ || root == "BTC"@ {
        seq![1, 2, 3, 4, 5, 6, 7, 8, 9, 10, 11, 12]
    } else if is_quarterly_root(root) {
        seq![3, 6, 9, 12]
    } else {
        Seq::<u32>::empty()
    }
}

/// Whether two character sequences are equal.
fn chars_eq(a: &Vec<char>, b: &Vec<char>) -> (r: bool)
    ensures
        r == (a@ == b@),
{
    if a.len() != b.len() {
        return false;
    }
    let mut i: usize = 0;
    while i < a.len()
        invariant
            i <= a@.len(),
            a@.len() == b@.len(),
            forall|j: int| 0 <= j < i ==> a@[j] == b@[j],
        decreases a@.len() - i,
    {
        if a[i] != b[i] {
            return false;
        }
        i = i + 1;
    }
    assert(a@ =~= b@);
    true
}

/// Whether `a` spells the literal `lit`.
fn is_lit(a: &Vec<char>, lit: &str) -> (r: bool)
    ensures
        r == (a@ == lit@),
{
    chars_eq(a, &str_chars(lit))
}

/// Contract months (1-indexed) for a futures root: gold bi-monthly, silver
/// and copper on their five months, energy and bitcoin monthly, equity index,
/// bond and currency futures quarterly, and none for an unknown root.
pub fn expiry_months(root: &str) -> (v: Vec<u32>)
    ensures
        v@ == spec_expiry_months(root@),
{
    let r = str_chars(root);
    if is_lit(&r, "GC") {
        vec![2, 4, 6, 8, 10, 12]
    } else if is_lit(&r, "SI") || is_lit(&r, "HG") {
        vec![3, 5, 7, 9, 12]
    } else if is_lit(&r, "CL") || is_lit(&r, "NG") || is_lit(&r, "BTC") {
        vec![1, 2, 3, 4, 5, 6, 7, 8, 9, 10, 11, 12]
    } else if is_lit(&r, "ES") || is_lit(&r, "NQ") || is_lit(&r, "RTY") || is_lit(&r, "YM")
        || is_lit(&r, "MES") || is_lit(&r, "MNQ") || is_lit(&r, "ZB") || is_lit(&r, "ZN")
        || is_lit(&r, "6E") || is_lit(&r, "6J") {
        vec![3, 6, 9, 12]
    } else {
        Vec::new()
    }
}

/// Law: the contract months of each known futures root: bitcoin, crude oil
/// and natural gas list every month; the equity-index, bond and currency
/// roots (ES, NQ, RTY, YM, MES, MNQ, ZB, ZN, 6E, 6J) are quarterly; gold is
/// bi-monthly; silver and copper trade March, May, July, September and
/// December.
pub proof fn lemma_expiry_calendars()
    ensures
        spec_expiry_months("BTC"@) == seq![1u32, 2, 3, 4, 5, 6, 7, 8, 9, 10, 11, 12],
        spec_expiry_months("CL"@) == seq![1u32, 2, 3, 4, 5, 6, 7, 8, 9, 10, 11, 12],
        spec_expiry_months("NG"@) == seq![1u32, 2, 3, 4, 5, 6, 7, 8, 9, 10, 11, 12],
        spec_expiry_months("ES"@) == seq![3u32, 6, 9, 12],
        spec_expiry_months("NQ"@) == seq![3u32, 6, 9, 12],
        spec_expiry_months("RTY"@) == seq![3u32, 6, 9, 12],
        spec_expiry_months("YM"@) == seq![3u32, 6, 9, 12],
        spec_expiry_months("MES"@) == seq![3u32, 6, 9, 12],
        spec_expiry_months("MNQ"@) == seq![3u32, 6, 9, 12],
        spec_expiry_months("ZB"@) == seq![3u32, 6, 9, 12],
        spec_expiry_months("ZN"@) == seq![3u32, 6, 9, 12],
        spec_expiry_months("6E"@) == seq![3u32, 6, 9, 12],
        spec_expiry_months("6J"@) == seq![3u32, 6, 9, 12],
        spec_expiry_months("GC"@) == seq![2u32, 4, 6, 8, 10, 12],
        spec_expiry_months("SI"@) == seq![3u32, 5, 7, 9, 12],
        spec_expiry_months("HG"@) == seq![3u32, 5, 7, 9, 12],
{
    reveal_strlit("ES");
    reveal_strlit("NQ");
    reveal_strlit("RTY");
    reveal_strlit("YM");
    reveal_strlit("MES");
    reveal_strlit("MNQ");
    reveal_strlit("ZB");
    reveal_strlit("ZN");
    reveal_strlit("6E");
    reveal_strlit("6J");
    reveal_strlit("GC");
    reveal_strlit("SI");
    reveal_strlit("HG");
    reveal_strlit("BTC");
    reveal_strlit("CL");
    reveal_strlit("NG");
    assert("ES"@[0] == 'E' && "ES"@[1] == 'S');
    assert("NQ"@[0] == 'N' && "NQ"@[1] == 'Q');
    assert("RTY"@[0] == 'R' && "RTY"@[1] == 'T');
    assert("YM"@[0] == 'Y' && "YM"@[1] == 'M');
    assert("MES"@[0] == 'M' && "MES"@[1] == 'E');
    assert("MNQ"@[0] == 'M' && "MNQ"@[1] == 'N');
    assert("ZB"@[0] == 'Z' && "ZB"@[1] == 'B');
    assert("ZN"@[0] == 'Z' && "ZN"@[1] == 'N');
    assert("6E"@[0] == '6' && "6E"@[1] == 'E');
    assert("6J"@[0] == '6' && "6J"@[1] == 'J');
    assert("GC"@[0] == 'G' && "GC"@[1] == 'C');
    assert("SI"@[0] == 'S' && "SI"@[1] == 'I');
    assert("HG"@[0] == 'H' && "HG"@[1] == 'G');
    assert("BTC"@[0] == 'B' && "BTC"@[1] == 'T');
    assert("CL"@[0] == 'C' && "CL"@[1] == 'L');
    assert("NG"@[0] == 'N' && "NG"@[1] == 'G');
}

/// The `YYYYMM` values of the contract months of years `year`, `year + 1`, ...
/// `year + count - 1`, in order.
pub open spec fn candidate_months(months: Seq<u32>, year: int, count: nat) -> Seq<int>
    decreases count,
{
    if count == 0 {
        Seq::<int>::empty()
    } else {
        months.map_values(|m: u32| year * 100 + m) + candidate_months(months, year + 1, (count - 1) as nat)
    }
}

/// The first element of `c` that is at least `bound`.
pub open spec fn first_at_least(c: Seq<int>, bound: int) -> Option<int>
    decreases c.len(),
{
    if c.len() == 0 {
        None
    } else if c[0] >= bound {
        Some(c[0])
    } else {
        first_at_least(c.drop_first(), bound)
    }
}

/// The front month: the first contract month, over this year and the next
/// two, whose `YYYYMM` is not before the cutoff's.
pub open spec fn spec_front_month_ym(root: Seq<char>, year: int, cutoff_year: int, cutoff_month: int) -> Option<int> {
    first_at_least(candidate_months(spec_expiry_months(root), year, 3), cutoff_year * 100 + cutoff_month)
}

proof fn lemma_candidate_months_empty(months: Seq<u32>, year: int, count: nat)
    requires
        months.len() == 0,
    ensures
        candidate_months(months, year, count).len() == 0,
    decreases count,
{
    if count > 0 {
        lemma_candidate_months_empty(months, year + 1, (count - 1) as nat);
    }
}

/// A root the calendar does not know has no front month, whatever the
/// cutoff.
pub proof fn lemma_unknown_root_has_no_front_month(root: Seq<char>, year: int, cutoff_year: int, cutoff_month: int)
    requires
        spec_expiry_months(root).len() == 0,
    ensures
        spec_front_month_ym(root, year, cutoff_year, cutoff_month) is None,
{
    lemma_candidate_months_empty(spec_expiry_months(root), year, 3);
}

proof fn lemma_first_at_least_concat(a: Seq<int>, b: Seq<int>, bound: int)
    ensures
        first_at_least(a + b, bound) == match first_at_least(a, bound) {
            Some(x) => Some(x),
            None => first_at_least(b, bound),
        },
    decreases a.len(),
{
    if a.len() == 0 {
        assert(a + b =~= b);
    } else {
        assert((a + b).drop_first() =~= a.drop_first() + b);
        lemma_first_at_least_concat(a.drop_first(), b, bound);
    }
}

proof fn lemma_first_at_least_none(c: Seq<int>, bound: int)
    requires
        forall|i: int| 0 <= i < c.len() ==> #[trigger] c[i] < bound,
    ensures
        first_at_least(c, bound) is None,
    decreases c.len(),
{
    if c.len() > 0 {
        assert forall|i: int| 0 <= i < c.drop_first().len() implies #[trigger] c.drop_first()[i] < bound by {
            assert(c.drop_first()[i] == c[i + 1]);
        }
        lemma_first_at_least_none(c.drop_first(), bound);
    }
}

proof fn lemma_first_at_least_hit(c: Seq<int>, bound: int, k: int)
    requires
        0 <= k < c.len(),
        c[k] >= bound,
        forall|i: int| 0 <= i < k ==> #[trigger] c[i] < bound,
    ensures
        first_at_least(c, bound) == Some(c[k]),
    decreases k,
{
    if k > 0 {
        assert forall|i: int| 0 <= i < k - 1 implies #[trigger] c.drop_first()[i] < bound by {
            assert(c.drop_first()[i] == c[i + 1]);
        }
        lemma_first_at_least_hit(c.drop_first(), bound, k - 1);
    }
}

proof fn lemma_row_below(months: Seq<u32>, yr: int, bound: int)
    requires
        forall|j: int| 0 <= j < months.len() ==> #[trigger] months[j] <= 12,
        yr * 100 + 12 < bound,
    ensures
        first_at_least(months.map_values(|m: u32| yr * 100 + m), bound) is None,
{
    let row = months.map_values(|m: u32| yr * 100 + m);
    assert forall|i: int| 0 <= i < row.len() implies #[trigger] row[i] < bound by {
        assert(months[i] <= 12);
    }
    lemma_first_at_least_none(row, bound);
}

proof fn lemma_row_hit(months: Seq<u32>, yr: int, cm: int, k: int)
    requires
        0 <= k < months.len(),
        months[k] >= cm,
        forall|j: int| 0 <= j < k ==> #[trigger] months[j] < cm,
    ensures
        first_at_least(months.map_values(|m: u32| yr * 100 + m), yr * 100 + cm) == Some(yr * 100 + months[k]),
{
    let row = months.map_values(|m: u32| yr * 100 + m);
    assert forall|i: int| 0 <= i < k implies #[trigger] row[i] < yr * 100 + cm by {
        assert(months[i] < cm);
    }
    lemma_first_at_least_hit(row, yr * 100 + cm, k);
}

/// The front month when the cutoff falls in this year or one of the next two
/// and its year lists month `months[k]`, the first listed month not before
/// the cutoff's month: that month of the cutoff's year.
proof fn lemma_front_month_in_cutoff_year(months: Seq<u32>, y: int, cy: int, cm: int, k: int)
    requires
        y <= cy <= y + 2,
        1 <= cm <= 12,
        forall|j: int| 0 <= j < months.len() ==> #[trigger] months[j] <= 12,
        0 <= k < months.len(),
        months[k] >= cm,
        forall|j: int| 0 <= j < k ==> #[trigger] months[j] < cm,
    ensures
        first_at_least(candidate_months(months, y, 3), cy * 100 + cm) == Some(cy * 100 + months[k]),
{
    let bound = cy * 100 + cm;
    let r0 = months.map_values(|m: u32| y * 100 + m);
    let r1 = months.map_values(|m: u32| (y + 1) * 100 + m);
    let r2 = months.map_values(|m: u32| (y + 2) * 100 + m);
    let e = candidate_months(months, y + 3, 0);
    assert(e.len() == 0);
    assert(candidate_months(months, y + 2, 1) == r2 + e);
    assert(candidate_months(months, y + 1, 2) == r1 + candidate_months(months, y + 2, 1));
    assert(candidate_months(months, y, 3) == r0 + candidate_months(months, y + 1, 2));
    lemma_first_at_least_concat(r0, candidate_months(months, y + 1, 2), bound);
    lemma_first_at_least_concat(r1, candidate_months(months, y + 2, 1), bound);
    lemma_first_at_least_concat(r2, e, bound);
    if cy == y {
        lemma_row_hit(months, y, cm, k);
    } else if cy == y + 1 {
        lemma_row_below(months, y, bound);
        lemma_row_hit(months, y + 1, cm, k);
    } else {
        lemma_row_below(months, y, bound);
        lemma_row_below(months, y + 1, bound);
        lemma_row_hit(months, y + 2, cm, k);
    }
}

/// Law: for bitcoin, crude oil and natural gas, which list every month, the
/// front month is the cutoff's own month, whenever the cutoff falls in this
/// year or one of the next two.
pub proof fn lemma_monthly_front_month(root: Seq<char>, y: int, cy: int, cm: int)
    requires
        root == "BTC"@ || root == "CL"@ || root == "NG"@,
        y <= cy <= y + 2,
        1 <= cm <= 12,
    ensures
        spec_front_month_ym(root, y, cy, cm) == Some(cy * 100 + cm),
{
    lemma_expiry_calendars();
    let months = spec_expiry_months(root);
    assert(months == seq![1u32, 2, 3, 4, 5, 6, 7, 8, 9, 10, 11, 12]);
    assert(months[cm - 1] == cm);
    lemma_front_month_in_cutoff_year(months, y, cy, cm, cm - 1);
}

/// Law: for the quarterly roots (equity index, bonds, currencies), the front
/// month is the first quarter month (March, June, September, December) not
/// before the cutoff's month, in the cutoff's year, whenever the cutoff falls
/// in this year or one of the next two.
pub proof fn lemma_quarterly_front_month(root: Seq<char>, y: int, cy: int, cm: int)
    requires
        root == "ES"@ || root == "NQ"@ || root == "RTY"@ || root == "YM"@ || root == "MES"@ || root
            == "MNQ"@ || root == "ZB"@ || root == "ZN"@ || root == "6E"@ || root == "6J"@,
        y <= cy <= y + 2,
        1 <= cm <= 12,
    ensures
        spec_front_month_ym(root, y, cy, cm) == Some(cy * 100 + 3 * ((cm + 2) / 3)),
{
    lemma_expiry_calendars();
    let months = spec_expiry_months(root);
    assert(months == seq![3u32, 6, 9, 12]);
    let k = (cm - 1) / 3;
    assert(months[k] == 3 * ((cm + 2) / 3));
    lemma_front_month_in_cutoff_year(months, y, cy, cm, k);
}

/// `n` in decimal, without leading zeros.
pub open spec fn decimal(n: nat) -> Seq<char>
    decreases n,
{
    if n < 10 {
        seq![digit_char(n)]
    } else {
        decimal(n / 10).push(digit_char(n % 10))
    }
}

/// The ASCII digit of `d < 10`.
pub open spec fn digit_char(d: nat) -> char {
    (('0' as u32) + d) as char
}

/// `k` copies of `'0'`.
pub open spec fn zeros(k: nat) -> Seq<char> {
    Seq::new(k, |i: int| '0')
}

/// `s` left-padded with zeros to at least `width` characters.
pub open spec fn zero_pad(s: Seq<char>, width: nat) -> Seq<char> {
    if s.len() < width {
        zeros((width - s.len()) as nat) + s
    } else {
        s
    }
}

/// `format!("{n:06}")`: at least six characters, zero-padded after the sign.
pub open spec fn fmt_06(n: int) -> Seq<char> {
    if n >= 0 {
        zero_pad(decimal(n as nat), 6)
    } else {
        seq!['-'] + zero_pad(decimal((-n) as nat), 5)
    }
}

/// The decimal digits of `n`.
fn decimal_chars(n: u32) -> (v: Vec<char>)
    ensures
        v@ == decimal(n as nat),
    decreases n,
{
    if n < 10 {
        let c = ((n + 48) as u8) as char;
        vec![c]
    } else {
        let mut v = decimal_chars(n / 10);
        let c = (((n % 10) + 48) as u8) as char;
        v.push(c);
        v
    }
}

/// `s` left-padded with zeros to `width` characters.
fn zero_pad_chars(s: &Vec<char>, width: usize) -> (v: Vec<char>)
    ensures
        v@ == zero_pad(s@, width as nat),
{
    let mut v: Vec<char> = Vec::new();
    if s.len() < width {
        let pad = width - s.len();
        let mut i: usize = 0;
        while i < pad
            invariant
                i <= pad,
                v@ == zeros(i as nat),
            decreases pad - i,
        {
            v.push('0');
            i = i + 1;
            assert(v@ =~= zeros(i as nat));
        }
    }
    let mut k: usize = 0;
    let ghost start = v@;
    while k < s.len()
        invariant
            k <= s@.len(),
            v@ == start + s@.take(k as int),
        decreases s@.len() - k,
    {
        v.push(s[k]);
        k = k + 1;
        assert(v@ =~= start + s@.take(k as int));
    }
    assert(s@.take(s@.len() as int) =~= s@);
    if s.len() >= width {
        assert(v@ =~= s@);
    }
    v
}

/// `format!("{n:06}")`.
fn format_06(n: i32) -> (s: String)
    ensures
        s@ == fmt_06(n as int),
{
    if n >= 0 {
        let d = decimal_chars(n as u32);
        let p = zero_pad_chars(&d, 6);
        string_from_chars(&p)
    } else {
        let m: u32 = if n == i32::MIN {
            2147483648u32
        } else {
            (-n) as u32
        };
        let d = decimal_chars(m);
        let p = zero_pad_chars(&d, 5);
        let mut v: Vec<char> = vec!['-'];
        let mut k: usize = 0;
        while k < p.len()
            invariant
                k <= p@.len(),
                v@ == seq!['-'] + p@.take(k as int),
            decreases p@.len() - k,
        {
            v.push(p[k]);
            k = k + 1;
            assert(v@ =~= seq!['-'] + p@.take(k as int));
        }
        assert(p@.take(p@.len() as int) =~= p@);
        string_from_chars(&v)
    }
}

/// The front-month `YYYYMM` for a futures root, given the year of today and
/// the date the contract must not expire before.
pub fn front_month_at(root: &str, today_year: i32, cutoff: &CivilDate) -> (r: Option<String>)
    requires
        -262143 <= today_year <= 262142,
    ensures
        match spec_front_month_ym(root@, today_year as int, cutoff.spec_year() as int, cutoff.spec_month() as int) {
            Some(ym) => r is Some && r->0@ == fmt_06(ym),
            None => r is None,
        },
{
    let months = expiry_months(root);
    if months.len() == 0 {
        proof {
            lemma_unknown_root_has_no_front_month(
                root@,
                today_year as int,
                cutoff.spec_year() as int,
                cutoff.spec_month() as int,
            );
        }
        return None;
    }
    let cutoff_ym: i32 = cutoff.year() * 100 + (cutoff.month() as i32);
    let ghost bound = cutoff_ym as int;
    let ghost all = candidate_months(months@, today_year as int, 3);
    let mut y: i32 = today_year;
    let ghost mut seen: Seq<int> = Seq::empty();
    while y <= today_year + 2
        invariant
            today_year <= y <= today_year + 3,
            -262143 <= today_year <= 262142,
            months@ == spec_expiry_months(root@),
            bound == cutoff_ym,
            bound == cutoff.spec_year() * 100 + cutoff.spec_month(),
            all == candidate_months(months@, today_year as int, 3),
            all == seen + candidate_months(months@, y as int, (today_year + 3 - y) as nat),
            forall|i: int| 0 <= i < seen.len() ==> #[trigger] seen[i] < bound,
        decreases today_year + 3 - y,
    {
        let ghost row = months@.map_values(|m: u32| y * 100 + m);
        assert(candidate_months(months@, y as int, (today_year + 3 - y) as nat) == row
            + candidate_months(months@, y + 1, (today_year + 3 - (y + 1)) as nat));
        let mut j: usize = 0;
        while j < months.len()
            invariant
                j <= months@.len(),
                today_year <= y <= today_year + 2,
                -262143 <= today_year <= 262142,
                bound == cutoff_ym,
                row == months@.map_values(|m: u32| y * 100 + m),
                months@ == spec_expiry_months(root@),
                all == candidate_months(months@, today_year as int, 3),
                all == seen + candidate_months(months@, y as int, (today_year + 3 - y) as nat),
                bound == cutoff.spec_year() * 100 + cutoff.spec_month(),
                forall|i: int| 0 <= i < seen.len() ==> #[trigger] seen[i] < bound,
                forall|i: int| 0 <= i < j ==> #[trigger] row[i] < bound,
            decreases months@.len() - j,
        {
            let m = months[j];
            assert(m <= 12);
            let ym: i32 = y * 100 + (m as i32);
            if ym >= cutoff_ym {
                proof {
                    let c = seen + candidate_months(months@, y as int, (today_year + 3 - y) as nat);
                    assert(c[seen.len() + j] == ym);
                    assert forall|i: int| 0 <= i < seen.len() + j implies #[trigger] c[i] < bound by {
                        if i < seen.len() {
                            assert(c[i] == seen[i]);
                        } else {
                            assert(c[i] == row[i - seen.len()]);
                        }
                    }
                    lemma_first_at_least_hit(c, bound, seen.len() + j);
                }
                return Some(format_06(ym));
            }
            j = j + 1;
        }
        proof {
            seen = seen + row;
            assert(all =~= seen + candidate_months(months@, y + 1, (today_year + 3 - (y + 1)) as nat));
        }
        y = y + 1;
    }
    proof {
        assert(all =~= seen);
        lemma_first_at_least_none(all, bound);
    }
    None
}

/// The front-month `YYYYMM` for a futures root, skipping any contract month
/// that is reached within `lookahead_days` of `today`.
pub fn front_month(root: &str, today: &CivilDate, lookahead_days: i64) -> (r: Option<String>)
    requires
        spec_expiry_months(root@).len() > 0 ==> spec_date_after_days(
            today.spec_year() as int,
            today.spec_month() as int,
            today.spec_day() as int,
            lookahead_days as int,
        ) is Some,
    ensures
        spec_expiry_months(root@).len() == 0 ==> r is None,
        spec_expiry_months(root@).len() > 0 ==> ({
            let cutoff = spec_date_after_days(
                today.spec_year() as int,
                today.spec_month() as int,
                today.spec_day() as int,
                lookahead_days as int,
            )->0;
            match spec_front_month_ym(root@, today.spec_year() as int, cutoff.0, cutoff.1) {
                Some(ym) => r is Some && r->0@ == fmt_06(ym),
                None => r is None,
            }
        }),
{
    if expiry_months(root).len() == 0 {
        return None;
    }
    match shift_days(today, lookahead_days) {
        Some(cutoff) => front_month_at(root, today.year(), &cutoff),
        None => None,
    }
}

/// Like [`front_month`], but `None` when the root is a known one and the
/// lookahead leaves chrono's date range, where `front_month` cannot be called.
pub fn checked_front_month(root: &str, today: &CivilDate, lookahead_days: i64) -> (r: Option<Option<String>>)
    ensures
        spec_expiry_months(root@).len() == 0 ==> r == Some(None::<String>),
        spec_expiry_months(root@).len() > 0 ==> match spec_date_after_days(
            today.spec_year() as int,
            today.spec_month() as int,
            today.spec_day() as int,
            lookahead_days as int,
        ) {
            Some(cutoff) => r is Some && match spec_front_month_ym(root@, today.spec_year() as int, cutoff.0, cutoff.1) {
                Some(ym) => r->0 is Some && r->0->0@ == fmt_06(ym),
                None => r->0 is None,
            },
            None => r is None,
        },
{
    if expiry_months(root).len() == 0 {
        return Some(None);
    }
    match shift_days(today, lookahead_days) {
        Some(cutoff) => Some(front_month_at(root, today.year(), &cutoff)),
        None => None,
    }
}

// ───────────────────────────── routing ─────────────────────────────

/// A fully-qualified contract ready for the order router.
#[derive(Debug, Clone)]
pub struct ContractSpec {
    pub sec_type: SecType,
    pub symbol: String,
    pub exchange: String,
    pub currency: String,
    /// Contract multiplier of a future (whole units).
    pub multiplier: Option<u64>,
    /// Front-month `YYYYMM` for futures.
    pub last_trade_ym: Option<String>,
}

/// Broker futures spec of a root: `(broker symbol, exchange, multiplier)`,
/// all quoted in USD.
pub open spec fn spec_futures_spec(root: Seq<char>) -> Option<(Seq<char>, Seq<char>, u64)> {
    if root == "ES"@ {
        Some(("ES"@, "CME"@, 50))
    } else if root == "NQ"@ {
        Some(("NQ"@, "CME"@, 20))
    } else if root == "RTY"@ {
        Some(("RTY"@, "CME"@, 50))
    } else if root == "YM"@ {
        Some(("YM"@, "CBOT"@, 5))
    } else if root == "MES"@ {
        Some(("MES"@, "CME"@, 5))
    } else if root == "MNQ"@ {
        Some(("MNQ"@, "CME"@, 2))
    } else if root == "GC"@ {
        Some(("GC"@, "COMEX"@, 100))
    } else if root == "SI"@ {
        Some(("SI"@, "COMEX"@, 5000))
    } else if root == "HG"@ {
        Some(("HG"@, "COMEX"@, 25000))
    } else if root == "CL"@ {
        Some(("CL"@, "NYMEX"@, 1000))
    } else if root == "NG"@ {
        Some(("NG"@, "NYMEX"@, 10000))
    } else if root == "ZB"@ {
        Some(("ZB"@, "CBOT"@, 1000))
    } else if root == "ZN"@ {
        Some(("ZN"@, "CBOT"@, 1000))
    } else if root == "6E"@ {
        Some(("EUR"@, "CME"@, 125000))
    } else if root == "6J"@ {
        Some(("JPY"@, "CME"@, 12500000))
    } else if root == "BTC"@ {
        Some(("BTC"@, "CME"@, 5))
    } else {
        None
    }
}

/// The futures spec of a root, if it is one the router knows.
fn futures_spec(root: &str) -> (r: Option<(&'static str, &'static str, u64)>)
    ensures
        match spec_futures_spec(root@) {
            Some((sym, exch, mult)) => r matches Some((a, b, c)) && a@ == sym && b@ == exch && c == mult,
            None => r is None,
        },
{
    let r = str_chars(root);
    if is_lit(&r, "ES") {
        Some(("ES", "CME", 50))
    } else if is_lit(&r, "NQ") {
        Some(("NQ", "CME", 20))
    } else if is_lit(&r, "RTY") {
        Some(("RTY", "CME", 50))
    } else if is_lit(&r, "YM") {
        Some(("YM", "CBOT", 5))
    } else if is_lit(&r, "MES") {
        Some(("MES", "CME", 5))
    } else if is_lit(&r, "MNQ") {
        Some(("MNQ", "CME", 2))
    } else if is_lit(&r, "GC") {
        Some(("GC", "COMEX", 100))
    } else if is_lit(&r, "SI") {
        Some(("SI", "COMEX", 5000))
    } else if is_lit(&r, "HG") {
        Some(("HG", "COMEX", 25000))
    } else if is_lit(&r, "CL") {
        Some(("CL", "NYMEX", 1000))
    } else if is_lit(&r, "NG") {
        Some(("NG", "NYMEX", 10000))
    } else if is_lit(&r, "ZB") {
        Some(("ZB", "CBOT", 1000))
    } else if is_lit(&r, "ZN") {
        Some(("ZN", "CBOT", 1000))
    } else if is_lit(&r, "6E") {
        Some(("EUR", "CME", 125000))
    } else if is_lit(&r, "6J") {
        Some(("JPY", "CME", 12500000))
    } else if is_lit(&r, "BTC") {
        Some(("BTC", "CME", 5))
    } else {
        None
    }
}

/// `s` with every trailing repetition of `p` removed (`str::trim_end_matches`).
pub open spec fn trim_end_matches(s: Seq<char>, p: Seq<char>) -> Seq<char>
    decreases s.len(),
{
    if p.len() > 0 && ends_with(s, p) {
        trim_end_matches(s.take(s.len() - p.len()), p)
    } else {
        s
    }
}

/// `str::trim_end_matches` with a non-empty pattern.
fn trim_end_matches_chars(s: &Vec<char>, p: &Vec<char>) -> (r: Vec<char>)
    requires
        p@.len() > 0,
    ensures
        r@ == trim_end_matches(s@, p@),
    decreases s@.len(),
{
    if ends_with_chars(s, p) {
        let shorter = prefix_chars(s, s.len() - p.len());
        assert(shorter@ == s@.take(s@.len() - p@.len()));
        trim_end_matches_chars(&shorter, p)
    } else {
        prefix_chars(s, s.len())
    }
}

/// Whether routing `i` needs the front month, i.e. it is a future the router
/// knows.
pub open spec fn needs_front_month(i: InstrumentView) -> bool {
    i matches InstrumentView::Future { root, .. } && spec_futures_spec(root) is Some
}

/// The date whose month a routed future must not expire before: 15 days
/// after `today`.
pub open spec fn route_cutoff(today: CivilDate) -> Option<(int, int, int)> {
    spec_date_after_days(today.spec_year() as int, today.spec_month() as int, today.spec_day() as int, 15)
}

/// The contract `route` builds: its security type, symbol, exchange,
/// currency and multiplier.
pub open spec fn spec_route_fields(i: InstrumentView) -> Option<(SecType, Seq<char>, Seq<char>, Seq<char>, Option<u64>)> {
    match i {
        InstrumentView::Index { .. } => None,
        InstrumentView::Equity { symbol } => Some((SecType::Stock, symbol, "SMART"@, "USD"@, None)),
        InstrumentView::Forex { base, quote } => Some((SecType::Forex, base, "IDEALPRO"@, quote, None)),
        InstrumentView::Crypto { symbol } => Some(
            (SecType::Crypto, trim_end_matches(symbol, "-USD"@), "PAXOS"@, "USD"@, None),
        ),
        InstrumentView::Future { root, .. } => match spec_futures_spec(root) {
            Some((sym, exch, mult)) => Some((SecType::Future, sym, exch, "USD"@, Some(mult))),
            None => None,
        },
    }
}

/// The contract fields `route` gives a future with root `root`.
pub open spec fn route_future(yf: Seq<char>, root: Seq<char>) -> Option<(SecType, Seq<char>, Seq<char>, Seq<char>, Option<u64>)> {
    spec_route_fields(InstrumentView::Future { root, yf })
}

/// Law: the contract routed for each known futures root is on that root's
/// exchange, in US dollars, with the exchange's contract multiplier: ES 50,
/// NQ 20, RTY 50, YM 5, MES 5, MNQ 2, GC 100, SI 5000, HG 25000, CL 1000,
/// NG 10000, ZB 1000, ZN 1000, 6E (as EUR) 125000, 6J (as JPY) 12500000,
/// BTC 5.
pub proof fn lemma_futures_multipliers(yf: Seq<char>)
    ensures
        route_future(yf, "ES"@) == Some((SecType::Future, "ES"@, "CME"@, "USD"@, Some(50u64))),
        route_future(yf, "NQ"@) == Some((SecType::Future, "NQ"@, "CME"@, "USD"@, Some(20u64))),
        route_future(yf, "RTY"@) == Some((SecType::Future, "RTY"@, "CME"@, "USD"@, Some(50u64))),
        route_future(yf, "YM"@) == Some((SecType::Future, "YM"@, "CBOT"@, "USD"@, Some(5u64))),
        route_future(yf, "MES"@) == Some((SecType::Future, "MES"@, "CME"@, "USD"@, Some(5u64))),
        route_future(yf, "MNQ"@) == Some((SecType::Future, "MNQ"@, "CME"@, "USD"@, Some(2u64))),
        route_future(yf, "GC"@) == Some((SecType::Future, "GC"@, "COMEX"@, "USD"@, Some(100u64))),
        route_future(yf, "SI"@) == Some((SecType::Future, "SI"@, "COMEX"@, "USD"@, Some(5000u64))),
        route_future(yf, "HG"@) == Some((SecType::Future, "HG"@, "COMEX"@, "USD"@, Some(25000u64))),
        route_future(yf, "CL"@) == Some((SecType::Future, "CL"@, "NYMEX"@, "USD"@, Some(1000u64))),
        route_future(yf, "NG"@) == Some((SecType::Future, "NG"@, "NYMEX"@, "USD"@, Some(10000u64))),
        route_future(yf, "ZB"@) == Some((SecType::Future, "ZB"@, "CBOT"@, "USD"@, Some(1000u64))),
        route_future(yf, "ZN"@) == Some((SecType::Future, "ZN"@, "CBOT"@, "USD"@, Some(1000u64))),
        route_future(yf, "6E"@) == Some((SecType::Future, "EUR"@, "CME"@, "USD"@, Some(125000u64))),
        route_future(yf, "6J"@) == Some((SecType::Future, "JPY"@, "CME"@, "USD"@, Some(12500000u64))),
        route_future(yf, "BTC"@) == Some((SecType::Future, "BTC"@, "CME"@, "USD"@, Some(5u64))),
{
    reveal_strlit("6E");
    reveal_strlit("6J");
    reveal_strlit("BTC");
    reveal_strlit("CBOT");
    reveal_strlit("CL");
    reveal_strlit("CME");
    reveal_strlit("COMEX");
    reveal_strlit("ES");
    reveal_strlit("EUR");
    reveal_strlit("GC");
    reveal_strlit("HG");
    reveal_strlit("JPY");
    reveal_strlit("MES");
    reveal_strlit("MNQ");
    reveal_strlit("NG");
    reveal_strlit("NQ");
    reveal_strlit("NYMEX");
    reveal_strlit("RTY");
    reveal_strlit("SI");
    reveal_strlit("USD");
    reveal_strlit("YM");
    reveal_strlit("ZB");
    reveal_strlit("ZN");
    assert("ES"@[0] == 'E' && "ES"@[1] == 'S');
    assert("NQ"@[0] == 'N' && "NQ"@[1] == 'Q');
    assert("RTY"@[0] == 'R' && "RTY"@[1] == 'T');
    assert("YM"@[0] == 'Y' && "YM"@[1] == 'M');
    assert("MES"@[0] == 'M' && "MES"@[1] == 'E');
    assert("MNQ"@[0] == 'M' && "MNQ"@[1] == 'N');
    assert("GC"@[0] == 'G' && "GC"@[1] == 'C');
    assert("SI"@[0] == 'S' && "SI"@[1] == 'I');
    assert("HG"@[0] == 'H' && "HG"@[1] == 'G');
    assert("CL"@[0] == 'C' && "CL"@[1] == 'L');
    assert("NG"@[0] == 'N' && "NG"@[1] == 'G');
    assert("ZB"@[0] == 'Z' && "ZB"@[1] == 'B');
    assert("ZN"@[0] == 'Z' && "ZN"@[1] == 'N');
    assert("6E"@[0] == '6' && "6E"@[1] == 'E');
    assert("6J"@[0] == '6' && "6J"@[1] == 'J');
    assert("BTC"@[0] == 'B' && "BTC"@[1] == 'T');
}

/// Route an instrument to a broker contract. An index is data-only and has
/// none, nor has a future whose root the router does not know. A future's
/// contract carries its front month, skipping months reached within 15 days.
pub fn route(instrument: &Instrument, today: &CivilDate) -> (r: Option<ContractSpec>)
    requires
        needs_front_month(instrument@) ==> route_cutoff(*today) is Some,
    ensures
        match spec_route_fields(instrument@) {
            Some((sec_type, symbol, exchange, currency, multiplier)) => {
                &&& r is Some
                &&& r->0.sec_type == sec_type
                &&& r->0.symbol@ == symbol
                &&& r->0.exchange@ == exchange
                &&& r->0.currency@ == currency
                &&& r->0.multiplier == multiplier
                &&& if needs_front_month(instrument@) {
                    let cutoff = route_cutoff(*today)->0;
                    match instrument@ {
                        InstrumentView::Future { root, .. } => match spec_front_month_ym(
                            root,
                            today.spec_year() as int,
                            cutoff.0,
                            cutoff.1,
                        ) {
                            Some(ym) => r->0.last_trade_ym is Some && r->0.last_trade_ym->0@ == fmt_06(ym),
                            None => r->0.last_trade_ym is None,
                        },
                        _ => true,
                    }
                } else {
                    r->0.last_trade_ym is None
                }
            },
            None => r is None,
        },
{
    match instrument {
        Instrument::Index { .. } => None,
        Instrument::Equity { symbol } => Some(ContractSpec {
            sec_type: SecType::Stock,
            symbol: symbol.clone(),
            exchange: string_of("SMART"),
            currency: string_of("USD"),
            multiplier: None,
            last_trade_ym: None,
        }),
        Instrument::Forex { base, quote } => Some(ContractSpec {
            sec_type: SecType::Forex,
            symbol: base.clone(),
            exchange: string_of("IDEALPRO"),
            currency: quote.clone(),
            multiplier: None,
            last_trade_ym: None,
        }),
        Instrument::Crypto { symbol } => {
            let s = string_chars(symbol);
            proof {
                reveal_strlit("-USD");
            }
            let trimmed = trim_end_matches_chars(&s, &str_chars("-USD"));
            Some(ContractSpec {
                sec_type: SecType::Crypto,
                symbol: string_from_chars(&trimmed),
                exchange: string_of("PAXOS"),
                currency: string_of("USD"),
                multiplier: None,
                last_trade_ym: None,
            })
        },
        Instrument::Future { root, .. } => {
            match futures_spec(root.as_str()) {
                Some((sym, exch, mult)) => Some(ContractSpec {
                    sec_type: SecType::Future,
                    symbol: string_of(sym),
                    exchange: string_of(exch),
                    currency: string_of("USD"),
                    multiplier: Some(mult),
                    last_trade_ym: front_month(root.as_str(), today, 15),
                }),
                None => None,
            }
        },
    }
}

/// Like [`route`], but `None` when `today` is too close to the end of chrono's
/// date range to look 15 days ahead for a future, where `route` cannot be
/// called.
pub fn checked_route(instrument: &Instrument, today: &CivilDate) -> (r: Option<Option<ContractSpec>>)
    ensures
        needs_front_month(instrument@) && route_cutoff(*today) is None ==> r is None,
        !(needs_front_month(instrument@) && route_cutoff(*today) is None) ==> r is Some,
        r matches Some(c) ==> match spec_route_fields(instrument@) {
            Some((sec_type, symbol, exchange, currency, multiplier)) => {
                &&& c is Some
                &&& c->0.sec_type == sec_type
                &&& c->0.symbol@ == symbol
                &&& c->0.exchange@ == exchange
                &&& c->0.currency@ == currency
                &&& c->0.multiplier == multiplier
                &&& if needs_front_month(instrument@) {
                    let cutoff = route_cutoff(*today)->0;
                    match instrument@ {
                        InstrumentView::Future { root, .. } => match spec_front_month_ym(
                            root,
                            today.spec_year() as int,
                            cutoff.0,
                            cutoff.1,
                        ) {
                            Some(ym) => c->0.last_trade_ym is Some && c->0.last_trade_ym->0@ == fmt_06(ym),
                            None => c->0.last_trade_ym is None,
                        },
                        _ => true,
                    }
                } else {
                    c->0.last_trade_ym is None
                }
            },
            None => c is None,
        },
{
    let needs = match instrument {
        Instrument::Future { root, .. } => futures_spec(root.as_str()).is_some(),
        _ => false,
    };
    if needs {
        match shift_days(today, 15) {
            Some(_) => Some(route(instrument, today)),
            None => None,
        }
    } else {
        Some(route(instrument, today))
    }
}

} // verus!
