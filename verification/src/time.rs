use vstd::prelude::*;

verus! {

/// A civil UTC instant with second precision.
///
/// The tool only ever serves years 2000 through 9999: the asset host's
/// path scheme encodes the year as `year - 2000`, so earlier years are
/// rejected at the edge and later years do not fit four digits.
#[derive(Debug, Clone, Copy, PartialEq, Eq, Structural)]
pub struct Timestamp {
    pub year: u32,
    pub month: u32,
    pub day: u32,
    pub hour: u32,
    pub minute: u32,
    pub second: u32,
}

pub open spec fn spec_is_leap_year(y: int) -> bool {
    (y % 4 == 0 && y % 100 != 0) || y % 400 == 0
}

pub open spec fn spec_days_in_month(y: int, m: int) -> int {
    if m == 2 {
        if spec_is_leap_year(y) {
            29
        } else {
            28
        }
    } else if m == 4 || m == 6 || m == 9 || m == 11 {
        30
    } else {
        31
    }
}

pub open spec fn spec_days_in_year(y: int) -> int {
    if spec_is_leap_year(y) {
        366
    } else {
        365
    }
}

/// Days from 2000-01-01 to the first day of year `y` (for `y >= 2000`).
pub open spec fn days_before_year(y: int) -> int
    decreases y,
{
    if y <= 2000 {
        0
    } else {
        days_before_year(y - 1) + spec_days_in_year(y - 1)
    }
}

/// Days from the first of month 1 to the first of month `m` within year `y`.
pub open spec fn days_before_month(y: int, m: int) -> int
    decreases m,
{
    if m <= 1 {
        0
    } else {
        days_before_month(y, m - 1) + spec_days_in_month(y, m - 1)
    }
}

/// Days from 2000-01-01 to the date of `t`.
pub open spec fn day_index(t: Timestamp) -> int {
    days_before_year(t.year as int) + days_before_month(t.year as int, t.month as int) + t.day - 1
}

/// Day of the week, with Sunday as 0; 2000-01-01 was a Saturday.
pub open spec fn spec_weekday(t: Timestamp) -> int {
    (day_index(t) + 6) % 7
}

impl Timestamp {
    pub open spec fn valid(self) -> bool {
        &&& 2000 <= self.year <= 9999
        &&& 1 <= self.month <= 12
        &&& 1 <= self.day <= spec_days_in_month(self.year as int, self.month as int)
        &&& self.hour < 24
        &&& self.minute < 60
        &&& self.second < 60
    }

    /// Strict lexicographic order over (year, month, day, hour, minute, second).
    pub open spec fn spec_lt(self, o: Timestamp) -> bool {
        if self.year != o.year {
            self.year < o.year
        } else if self.month != o.month {
            self.month < o.month
        } else if self.day != o.day {
            self.day < o.day
        } else if self.hour != o.hour {
            self.hour < o.hour
        } else if self.minute != o.minute {
            self.minute < o.minute
        } else {
            self.second < o.second
        }
    }

    /// Strict order over the date components alone.
    pub open spec fn date_lt(self, o: Timestamp) -> bool {
        if self.year != o.year {
            self.year < o.year
        } else if self.month != o.month {
            self.month < o.month
        } else {
            self.day < o.day
        }
    }

    pub open spec fn same_date(self, o: Timestamp) -> bool {
        self.year == o.year && self.month == o.month && self.day == o.day
    }

    /// Executable counterpart of `valid`, for callers outside the
    /// verified world that must test an instant before handing it in.
    pub fn is_valid(&self) -> (b: bool)
        ensures
            b == self.valid(),
    {
        2000 <= self.year && self.year <= 9999 && 1 <= self.month && self.month <= 12 && 1
            <= self.day && self.day <= days_in_month(self.year, self.month) && self.hour < 24
            && self.minute < 60 && self.second < 60
    }

    /// Executable counterpart of `spec_lt`.
    pub fn lt(&self, o: &Timestamp) -> (b: bool)
        ensures
            b == self.spec_lt(*o),
    {
        if self.year != o.year {
            self.year < o.year
        } else if self.month != o.month {
            self.month < o.month
        } else if self.day != o.day {
            self.day < o.day
        } else if self.hour != o.hour {
            self.hour < o.hour
        } else if self.minute != o.minute {
            self.minute < o.minute
        } else {
            self.second < o.second
        }
    }
}

pub fn is_leap_year(y: u32) -> (b: bool)
    ensures
        b == spec_is_leap_year(y as int),
{
    (y % 4 == 0 && y % 100 != 0) || y % 400 == 0
}

pub fn days_in_month(y: u32, m: u32) -> (d: u32)
    requires
        1 <= m <= 12,
    ensures
        d == spec_days_in_month(y as int, m as int),
{
    if m == 2 {
        if is_leap_year(y) {
            29
        } else {
            28
        }
    } else if m == 4 || m == 6 || m == 9 || m == 11 {
        30
    } else {
        31
    }
}

proof fn lemma_days_before_year_bound(y: int)
    requires
        2000 <= y <= 10000,
    ensures
        0 <= days_before_year(y) <= (y - 2000) * 366,
    decreases y,
{
    if y > 2000 {
        lemma_days_before_year_bound(y - 1);
        assert((y - 1 - 2000) * 366 + 366 == (y - 2000) * 366) by (nonlinear_arith);
    }
}

proof fn lemma_days_before_month_bound(y: int, m: int)
    requires
        1 <= m <= 13,
    ensures
        0 <= days_before_month(y, m) <= 31 * (m - 1),
    decreases m,
{
    if m > 1 {
        lemma_days_before_month_bound(y, m - 1);
        assert(31 * (m - 2) + 31 == 31 * (m - 1)) by (nonlinear_arith);
    }
}

/// Day of the week of `t`'s date, with Sunday as 0.
pub fn weekday(t: &Timestamp) -> (w: u32)
    requires
        t.valid(),
    ensures
        w == spec_weekday(*t),
{
    let mut days: u32 = 0;
    let mut y: u32 = 2000;
    while y < t.year
        invariant
            2000 <= y <= t.year <= 9999,
            days == days_before_year(y as int),
            days <= (y - 2000) * 366,
        decreases t.year - y,
    {
        proof {
            lemma_days_before_year_bound(y as int + 1);
        }
        days = days + if is_leap_year(y) {
            366
        } else {
            365
        };
        y = y + 1;
    }
    let mut m: u32 = 1;
    while m < t.month
        invariant
            t.valid(),
            1 <= m <= t.month,
            days == days_before_year(t.year as int) + days_before_month(t.year as int, m as int),
            days_before_year(t.year as int) <= (t.year - 2000) * 366,
            days_before_month(t.year as int, m as int) <= 31 * (m - 1),
        decreases t.month - m,
    {
        proof {
            lemma_days_before_year_bound(t.year as int);
            lemma_days_before_month_bound(t.year as int, m as int + 1);
        }
        days = days + days_in_month(t.year, m);
        m = m + 1;
    }
    proof {
        lemma_days_before_year_bound(t.year as int);
        lemma_days_before_month_bound(t.year as int, t.month as int);
    }
    let idx = days + (t.day - 1);
    (idx + 6) % 7
}

/// The date immediately after `t`'s date, at midnight.
pub fn day_after(t: &Timestamp) -> (r: Timestamp)
    requires
        t.valid(),
        t.year < 10000,
    ensures
        r.year <= 10000,
        r.year < 10000 ==> r.valid(),
        r.hour == 0 && r.minute == 0 && r.second == 0,
        t.date_lt(r),
        // nothing lies strictly between the two dates
        forall|v: Timestamp| v.valid() && t.date_lt(v) ==> !v.date_lt(r),
{
    let (y, m, d) = (t.year, t.month, t.day);
    if d < days_in_month(y, m) {
        Timestamp { year: y, month: m, day: d + 1, hour: 0, minute: 0, second: 0 }
    } else if m < 12 {
        Timestamp { year: y, month: m + 1, day: 1, hour: 0, minute: 0, second: 0 }
    } else {
        Timestamp { year: y + 1, month: 1, day: 1, hour: 0, minute: 0, second: 0 }
    }
}

} // verus!
