//! Calendar dates with leap-year-aware day arithmetic.
//!
//! A `Date` is a plain `{ day, month, year }` triple ordered
//! lexicographically by year, then month, then day.  The type does not
//! validate itself: arithmetic on out-of-range fields is total and
//! deterministic, but only dates satisfying [`Date::valid`] are guaranteed
//! meaningful results (construction sites are responsible for validity).

use vstd::prelude::*;

verus! {

/// One calendar day: `day` in 1..=31, `month` in 1..=12, `year` unsigned.
#[derive(Clone, Copy, Debug)]
pub struct Date {
    pub day: u8,
    pub month: u8,
    pub year: u16,
}

/// The Gregorian leap-year rule.
pub open spec fn spec_is_leap_year(y: int) -> bool {
    (y % 4 == 0 && y % 100 != 0) || y % 400 == 0
}

/// Number of days in year `y`.
pub open spec fn spec_year_length(y: int) -> int {
    if spec_is_leap_year(y) {
        366
    } else {
        365
    }
}

/// Number of days in month `m` of year `y`, by the standard Gregorian
/// table, with February lengthened to 29 in leap years.  Months outside
/// 1..=12 get the default length 31, so the function is total.
pub open spec fn spec_month_length(m: int, y: int) -> int {
    if m == 2 {
        if spec_is_leap_year(y) {
            29
        } else {
            28
        }
    } else if m == 4 || m == 6 || m == 9 || m == 11 {
        30
    } else {
        31
    }
}

/// Days in year `y` that lie strictly before month `m` (so 0 for January).
pub open spec fn days_before_month(m: int, y: int) -> int
    decreases m,
{
    if m <= 1 {
        0
    } else {
        days_before_month(m - 1, y) + spec_month_length(m - 1, y)
    }
}

/// Days in years 0, 1, ..., `y - 1`.
pub open spec fn days_before_year(y: int) -> int
    decreases y,
{
    if y <= 0 {
        0
    } else {
        days_before_year(y - 1) + spec_year_length(y - 1)
    }
}

/// Absolute position of a date in the calendar, counted in days.
/// Differences of day numbers are elapsed-day counts.
pub open spec fn spec_day_number(d: Date) -> int {
    days_before_year(d.year as int) + days_before_month(d.month as int, d.year as int)
        + d.day as int
}

/// Magnitude of the elapsed-day count between two dates.
pub open spec fn spec_difference(a: Date, b: Date) -> int {
    if spec_day_number(a) >= spec_day_number(b) {
        spec_day_number(a) - spec_day_number(b)
    } else {
        spec_day_number(b) - spec_day_number(a)
    }
}

/// Strict lexicographic order: year, then month, then day.
pub open spec fn spec_lt(a: Date, b: Date) -> bool {
    ||| a.year < b.year
    ||| (a.year == b.year && a.month < b.month)
    ||| (a.year == b.year && a.month == b.month && a.day < b.day)
}

/// Non-strict lexicographic order.
pub open spec fn spec_le(a: Date, b: Date) -> bool {
    spec_lt(a, b) || a == b
}

impl Date {
    /// A fully valid calendar date: month in range and day within the
    /// month's actual length.
    pub open spec fn valid(self) -> bool {
        &&& 1 <= self.month <= 12
        &&& 1 <= self.day
        &&& self.day as int <= spec_month_length(self.month as int, self.year as int)
    }
}

/// Whether `year` is a Gregorian leap year.
pub fn is_leap_year(year: &u16) -> (r: bool)
    ensures
        r == spec_is_leap_year(*year as int),
{
    ((year % 4 == 0) && (year % 100 != 0)) || (year % 400 == 0)
}

/// Length in days of month `month` of year `year`; months outside 1..=12
/// get the default length 31.
pub fn month_length(month: &u8, year: &u16) -> (r: u8)
    ensures
        r as int == spec_month_length(*month as int, *year as int),
{
    if *month == 2 {
        if is_leap_year(year) {
            29
        } else {
            28
        }
    } else if *month == 4 || *month == 6 || *month == 9 || *month == 11 {
        30
    } else {
        31
    }
}

proof fn lemma_days_before_month_bounds(m: int, y: int)
    requires
        0 <= m,
    ensures
        0 <= days_before_month(m, y) <= 31 * m,
    decreases m,
{
    if m > 1 {
        lemma_days_before_month_bounds(m - 1, y);
    }
}

proof fn lemma_days_before_year_bounds(y: int)
    requires
        0 <= y,
    ensures
        0 <= days_before_year(y) <= 366 * y,
    decreases y,
{
    if y > 0 {
        lemma_days_before_year_bounds(y - 1);
    }
}

/// Absolute day number of `d`, computed by summing whole-year lengths,
/// then whole-month lengths within the year, then the day of month.
fn day_number(d: &Date) -> (r: u64)
    ensures
        r == spec_day_number(*d),
{
    let mut acc: u64 = 0;
    let mut y: u16 = 0;
    while y < d.year
        invariant
            y <= d.year,
            acc == days_before_year(y as int),
            acc <= 366 * (y as int),
        decreases d.year - y,
    {
        if is_leap_year(&y) {
            acc = acc + 366;
        } else {
            acc = acc + 365;
        }
        y = y + 1;
    }
    let mut m: u8 = 1;
    while m < d.month
        invariant
            1 <= m,
            m == 1 || m <= d.month,
            acc == days_before_year(d.year as int) + days_before_month(m as int, d.year as int),
            acc <= 366 * (d.year as int) + 31 * (m as int),
        decreases d.month - m,
    {
        proof {
            lemma_days_before_year_bounds(d.year as int);
            lemma_days_before_month_bounds(m as int, d.year as int);
        }
        acc = acc + month_length(&m, &d.year) as u64;
        m = m + 1;
    }
    proof {
        lemma_days_before_year_bounds(d.year as int);
        lemma_days_before_month_bounds(m as int, d.year as int);
        assert(days_before_month(0, d.year as int) == days_before_month(1, d.year as int));
    }
    acc + d.day as u64
}

impl Date {
    /// Magnitude of the elapsed-day count between `self` and `other`,
    /// leap-year aware.  Symmetric in its two arguments, and zero exactly
    /// on equal dates when both are valid.
    pub fn difference(&self, other: &Self) -> (r: u64)
        ensures
            r == spec_difference(*self, *other),
    {
        let a = day_number(self);
        let b = day_number(other);
        if a >= b {
            a - b
        } else {
            b - a
        }
    }
}

/// The day-count difference does not depend on the order of its arguments.
pub proof fn lemma_difference_symmetric(a: Date, b: Date)
    ensures
        spec_difference(a, b) == spec_difference(b, a),
{
}

proof fn lemma_days_before_month_monotone(m1: int, m2: int, y: int)
    requires
        m1 <= m2,
    ensures
        days_before_month(m1, y) <= days_before_month(m2, y),
    decreases m2 - m1,
{
    if m1 < m2 {
        lemma_days_before_month_monotone(m1, m2 - 1, y);
    }
}

proof fn lemma_days_before_year_monotone(y1: int, y2: int)
    requires
        y1 <= y2,
    ensures
        days_before_year(y1) <= days_before_year(y2),
    decreases y2 - y1,
{
    if y1 < y2 {
        lemma_days_before_year_monotone(y1, y2 - 1);
    }
}

/// The month lengths of a year sum to that year's length.
proof fn lemma_year_months(y: int)
    ensures
        days_before_month(13, y) == spec_year_length(y),
{
    reveal_with_fuel(days_before_month, 14);
}

/// On valid dates the day number is strictly monotone in the
/// lexicographic date order.
proof fn lemma_day_number_increases(a: Date, b: Date)
    requires
        a.valid(),
        b.valid(),
        spec_lt(a, b),
    ensures
        spec_day_number(a) < spec_day_number(b),
{
    let ay = a.year as int;
    let by = b.year as int;
    let am = a.month as int;
    let bm = b.month as int;
    if ay < by {
        assert(days_before_month(am, ay) + a.day as int <= days_before_month(am + 1, ay));
        lemma_days_before_month_monotone(am + 1, 13, ay);
        lemma_year_months(ay);
        assert(days_before_year(ay) + spec_year_length(ay) == days_before_year(ay + 1));
        lemma_days_before_year_monotone(ay + 1, by);
        lemma_days_before_month_bounds(bm, by);
    } else if am < bm {
        assert(days_before_month(am, ay) + a.day as int <= days_before_month(am + 1, ay));
        lemma_days_before_month_monotone(am + 1, bm, ay);
    }
}

/// On valid dates the day count between two dates is zero exactly when
/// the dates are equal.
pub proof fn lemma_difference_zero(a: Date, b: Date)
    requires
        a.valid(),
        b.valid(),
    ensures
        (spec_difference(a, b) == 0) <==> (a == b),
{
    if a != b {
        if spec_lt(a, b) {
            lemma_day_number_increases(a, b);
        } else {
            assert(spec_lt(b, a));
            lemma_day_number_increases(b, a);
        }
    }
}

/// On valid dates the lexicographic order and the day-number order agree.
pub proof fn lemma_le_iff_day_number_le(a: Date, b: Date)
    requires
        a.valid(),
        b.valid(),
    ensures
        spec_le(a, b) <==> spec_day_number(a) <= spec_day_number(b),
{
    if a != b {
        if spec_lt(a, b) {
            lemma_day_number_increases(a, b);
        } else {
            assert(spec_lt(b, a));
            lemma_day_number_increases(b, a);
        }
    }
}

/// The last representable date; day arithmetic saturates here.
pub open spec fn max_date() -> Date {
    (Date { day: 31, month: 12, year: 0xffff })
}

/// No valid date lies beyond `max_date`.
pub proof fn lemma_day_number_bounded(d: Date)
    requires
        d.valid(),
    ensures
        spec_day_number(d) <= spec_day_number(max_date()),
{
    if d != max_date() {
        assert(spec_lt(d, max_date()));
        lemma_day_number_increases(d, max_date());
    }
}

/// The calendar day after `d`, saturating at `max_date`.
pub open spec fn spec_next_day(d: Date) -> Date {
    if (d.day as int) < spec_month_length(d.month as int, d.year as int) {
        (Date { day: (d.day + 1) as u8, month: d.month, year: d.year })
    } else if d.month < 12 {
        (Date { day: 1, month: (d.month + 1) as u8, year: d.year })
    } else if d.year < 0xffff {
        (Date { day: 1, month: 1, year: (d.year + 1) as u16 })
    } else {
        d
    }
}

/// `d` moved `n` days forward, saturating at `max_date`.
pub open spec fn spec_plus_days(d: Date, n: nat) -> Date
    decreases n,
{
    if n == 0 {
        d
    } else {
        spec_plus_days(spec_next_day(d), (n - 1) as nat)
    }
}

proof fn lemma_next_day_valid(d: Date)
    requires
        d.valid(),
    ensures
        spec_next_day(d).valid(),
        spec_day_number(spec_next_day(d)) == if d == max_date() {
            spec_day_number(d)
        } else {
            spec_day_number(d) + 1
        },
{
    let y = d.year as int;
    let m = d.month as int;
    if (d.day as int) < spec_month_length(m, y) {
    } else if d.month < 12 {
        assert(days_before_month(m + 1, y) == days_before_month(m, y) + spec_month_length(m, y));
    } else if d.year < 0xffff {
        assert(days_before_month(13, y) == days_before_month(12, y) + spec_month_length(12, y));
        lemma_year_months(y);
    }
}

proof fn lemma_plus_days_valid(d: Date, n: nat)
    requires
        d.valid(),
    ensures
        spec_plus_days(d, n).valid(),
        spec_day_number(spec_plus_days(d, n)) == if spec_day_number(d) + n <= spec_day_number(
            max_date(),
        ) {
            spec_day_number(d) + n
        } else {
            spec_day_number(max_date())
        },
    decreases n,
{
    lemma_day_number_bounded(d);
    if n > 0 {
        lemma_next_day_valid(d);
        lemma_plus_days_valid(spec_next_day(d), (n - 1) as nat);
    }
}

proof fn lemma_plus_days_succ(d: Date, n: nat)
    ensures
        spec_plus_days(d, (n + 1) as nat) == spec_next_day(spec_plus_days(d, n)),
    decreases n,
{
    reveal_with_fuel(spec_plus_days, 3);
    if n > 0 {
        lemma_plus_days_succ(spec_next_day(d), (n - 1) as nat);
    }
}

fn next_day(d: &Date) -> (r: Date)
    requires
        d.valid(),
    ensures
        r == spec_next_day(*d),
{
    let ml = month_length(&d.month, &d.year);
    if d.day < ml {
        Date { day: d.day + 1, month: d.month, year: d.year }
    } else if d.month < 12 {
        Date { day: 1, month: d.month + 1, year: d.year }
    } else if d.year < 0xffff {
        Date { day: 1, month: 1, year: d.year + 1 }
    } else {
        *d
    }
}

impl Date {
    /// The date `n` days after `self`, saturating at the last
    /// representable date.
    pub fn plus_days(&self, n: u16) -> (r: Date)
        requires
            self.valid(),
        ensures
            r == spec_plus_days(*self, n as nat),
            r.valid(),
    {
        let mut cur = *self;
        let mut i: u16 = 0;
        while i < n
            invariant
                i <= n,
                cur == spec_plus_days(*self, i as nat),
                cur.valid(),
            decreases n - i,
        {
            proof {
                lemma_next_day_valid(cur);
                lemma_plus_days_succ(*self, i as nat);
            }
            cur = next_day(&cur);
            i = i + 1;
        }
        cur
    }

    /// Moving a valid date forward never moves its day number back, and
    /// moves it forward by exactly `n` days while the calendar does not
    /// saturate.
    pub proof fn lemma_plus_days_day_number(d: Date, n: nat)
        requires
            d.valid(),
        ensures
            spec_plus_days(d, n).valid(),
            spec_day_number(spec_plus_days(d, n)) == if spec_day_number(d) + n
                <= spec_day_number(max_date()) {
                spec_day_number(d) + n
            } else {
                spec_day_number(max_date())
            },
    {
        lemma_plus_days_valid(d, n);
    }

    /// Runtime check for [`Date::valid`].
    pub fn is_valid(&self) -> (r: bool)
        ensures
            r == self.valid(),
    {
        1 <= self.month && self.month <= 12 && 1 <= self.day && self.day <= month_length(
            &self.month,
            &self.year,
        )
    }

    /// Today's date, from the system clock.
    ///
    /// Relies on chrono's `Local::now` and the `Datelike` accessors:
    /// `day()` is documented to range over 1..=31 and `month()` over
    /// 1..=12, so the cast to `u8` keeps the value; nothing is promised
    /// of the year beyond what fits in `u16`.
    #[verifier::external_body]
    pub fn current() -> (r: Self)
        ensures
            1 <= r.day <= 31,
            1 <= r.month <= 12,
    {
        let now = chrono::offset::Local::now();
        Date {
            day: chrono::Datelike::day(&now) as u8,
            month: chrono::Datelike::month(&now) as u8,
            year: chrono::Datelike::year(&now) as u16,
        }
    }
}

impl PartialEq for Date {
    fn eq(&self, other: &Self) -> (r: bool) {
        self.day == other.day && self.month == other.month && self.year == other.year
    }
}

impl vstd::std_specs::cmp::PartialEqSpecImpl for Date {
    open spec fn obeys_eq_spec() -> bool {
        true
    }

    open spec fn eq_spec(&self, other: &Self) -> bool {
        self.day == other.day && self.month == other.month && self.year == other.year
    }
}

impl PartialOrd for Date {
    /// Total order: year, then month, then day, each ascending.
    fn partial_cmp(&self, other: &Self) -> (r: Option<core::cmp::Ordering>) {
        if self.year < other.year {
            Some(core::cmp::Ordering::Less)
        } else if self.year > other.year {
            Some(core::cmp::Ordering::Greater)
        } else if self.month < other.month {
            Some(core::cmp::Ordering::Less)
        } else if self.month > other.month {
            Some(core::cmp::Ordering::Greater)
        } else if self.day < other.day {
            Some(core::cmp::Ordering::Less)
        } else if self.day > other.day {
            Some(core::cmp::Ordering::Greater)
        } else {
            Some(core::cmp::Ordering::Equal)
        }
    }
}

impl vstd::std_specs::cmp::PartialOrdSpecImpl for Date {
    open spec fn obeys_partial_cmp_spec() -> bool {
        true
    }

    open spec fn partial_cmp_spec(&self, other: &Self) -> Option<core::cmp::Ordering> {
        if spec_lt(*self, *other) {
            Some(core::cmp::Ordering::Less)
        } else if *self == *other {
            Some(core::cmp::Ordering::Equal)
        } else {
            Some(core::cmp::Ordering::Greater)
        }
    }
}

} // verus!
