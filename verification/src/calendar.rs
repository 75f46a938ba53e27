//! The Gregorian calendar, extended to all years: days by number, where 0001-01-01 is day 1.

use vstd::prelude::*;

use crate::text::{all_digits, digits, digits_value, lemma_digits_are_read};

verus! {

pub open spec fn is_leap(year: int) -> bool {
    year % 4 == 0 && (year % 100 != 0 || year % 400 == 0)
}

/// The length of a year in days.
pub open spec fn year_days(year: int) -> int {
    if is_leap(year) {
        366
    } else {
        365
    }
}

/// The length of a month in days.
pub open spec fn month_days(year: int, month: int) -> int {
    if month == 2 {
        if is_leap(year) {
            29
        } else {
            28
        }
    } else if month == 4 || month == 6 || month == 9 || month == 11 {
        30
    } else {
        31
    }
}

/// The number of days before a year.
pub open spec fn days_before_year(year: int) -> int {
    let n = year - 1;
    365 * n + n / 4 - n / 100 + n / 400
}

/// The number of days of a year before a month.
pub open spec fn days_before_month(year: int, month: int) -> int
    decreases month,
{
    if month <= 1 {
        0
    } else {
        days_before_month(year, month - 1) + month_days(year, month - 1)
    }
}

/// A date.
pub struct Date {
    pub year: int,
    pub month: int,
    pub day: int,
}

impl Date {
    /// There is such a date.
    pub open spec fn is_valid(self) -> bool {
        1 <= self.month <= 12 && 1 <= self.day <= month_days(self.year, self.month)
    }

    /// The number of the day.
    pub open spec fn number(self) -> int {
        days_before_year(self.year) + days_before_month(self.year, self.month) + self.day
    }

    /// The day after.
    pub open spec fn next(self) -> Date {
        if self.day < month_days(self.year, self.month) {
            Date { day: self.day + 1, ..self }
        } else if self.month < 12 {
            Date { month: self.month + 1, day: 1, ..self }
        } else {
            Date { year: self.year + 1, month: 1, day: 1 }
        }
    }

    /// The day before.
    pub open spec fn previous(self) -> Date {
        if self.day > 1 {
            Date { day: self.day - 1, ..self }
        } else if self.month > 1 {
            Date {
                month: self.month - 1,
                day: month_days(self.year, self.month - 1),
                ..self
            }
        } else {
            Date { year: self.year - 1, month: 12, day: 31 }
        }
    }
}

/// The date of a day.
pub open spec fn date_of(day: int) -> Date {
    choose|date: Date| #[trigger] date.is_valid() && date.number() == day
}

proof fn lemma_year(year: int)
    ensures
        days_before_year(year + 1) == days_before_year(year) + year_days(year),
{
    let n = year - 1;
    assert((n + 1) / 4 == n / 4 + if (n + 1) % 4 == 0 {
        1int
    } else {
        0int
    });
    assert((n + 1) / 100 == n / 100 + if (n + 1) % 100 == 0 {
        1int
    } else {
        0int
    });
    assert((n + 1) / 400 == n / 400 + if (n + 1) % 400 == 0 {
        1int
    } else {
        0int
    });
    assert((n + 1) % 400 == 0 ==> (n + 1) % 100 == 0);
    assert((n + 1) % 100 == 0 ==> (n + 1) % 4 == 0);
}

proof fn lemma_months(year: int)
    ensures
        days_before_month(year, 12) + 31 == year_days(year),
{
    reveal_with_fuel(days_before_month, 12);
}

proof fn lemma_month_end(year: int, month: int)
    requires
        1 <= month <= 12,
    ensures
        0 <= days_before_month(year, month),
        days_before_month(year, month) + month_days(year, month) <= year_days(year),
{
    reveal_with_fuel(days_before_month, 12);
}

proof fn lemma_neighbours(date: Date)
    requires
        date.is_valid(),
    ensures
        date.next().is_valid(),
        date.next().number() == date.number() + 1,
        date.previous().is_valid(),
        date.previous().number() == date.number() - 1,
{
    lemma_year(date.year);
    lemma_year(date.year - 1);
    lemma_months(date.year);
    lemma_months(date.year - 1);
}

proof fn lemma_years_ascend(a: int, b: int)
    requires
        a <= b,
    ensures
        days_before_year(a) + (b - a) * 365 <= days_before_year(b),
    decreases b - a,
{
    if a < b {
        lemma_years_ascend(a, b - 1);
        lemma_year(b - 1);
    }
}

proof fn lemma_months_ascend(year: int, a: int, b: int)
    requires
        1 <= a < b <= 12,
    ensures
        days_before_month(year, a) + month_days(year, a) <= days_before_month(year, b),
    decreases b - a,
{
    if a + 1 < b {
        lemma_months_ascend(year, a, b - 1);
    }
}

/// Different dates are different days.
pub proof fn lemma_dates_differ(a: Date, b: Date)
    requires
        a.is_valid(),
        b.is_valid(),
        a.number() == b.number(),
    ensures
        a == b,
{
    lemma_month_end(a.year, a.month);
    lemma_month_end(b.year, b.month);
    if a.year < b.year {
        lemma_years_ascend(a.year + 1, b.year);
        lemma_year(a.year);
    } else if b.year < a.year {
        lemma_years_ascend(b.year + 1, a.year);
        lemma_year(b.year);
    } else if a.month < b.month {
        lemma_months_ascend(a.year, a.month, b.month);
    } else if b.month < a.month {
        lemma_months_ascend(a.year, b.month, a.month);
    }
}

/// Every day has a date.
pub proof fn lemma_date_exists(day: int)
    ensures
        date_of(day).is_valid(),
        date_of(day).number() == day,
    decreases
        (if day >= 1 {
            day
        } else {
            2 - day
        }),
{
    if day == 1 {
        let first = Date { year: 1, month: 1, day: 1 };
        assert(first.is_valid() && first.number() == 1);
    } else if day > 1 {
        lemma_date_exists(day - 1);
        lemma_neighbours(date_of(day - 1));
        let date = date_of(day - 1).next();
        assert(date.is_valid() && date.number() == day);
    } else {
        lemma_date_exists(day + 1);
        lemma_neighbours(date_of(day + 1));
        let date = date_of(day + 1).previous();
        assert(date.is_valid() && date.number() == day);
    }
}

/// A date is the date of its day.
pub proof fn lemma_date_of(date: Date)
    requires
        date.is_valid(),
    ensures
        date_of(date.number()) == date,
{
    lemma_date_exists(date.number());
    lemma_dates_differ(date, date_of(date.number()));
}

/// A number below 100 as two digits.
pub open spec fn two_digits(n: nat) -> Seq<char> {
    if n < 10 {
        "0"@ + digits(n, 10)
    } else {
        digits(n, 10)
    }
}

/// A number as at least three digits.
pub open spec fn three_digits(n: nat) -> Seq<char> {
    if n < 100 {
        "0"@ + two_digits(n)
    } else {
        digits(n, 10)
    }
}

/// A number as at least four digits.
pub open spec fn four_digits(n: nat) -> Seq<char> {
    if n < 1000 {
        "0"@ + three_digits(n)
    } else {
        digits(n, 10)
    }
}

/// A year as at least four digits, with a sign where it is not one of 0 to 9999.
pub open spec fn year_label(year: int) -> Seq<char> {
    if year < 0 {
        "-"@ + four_digits((-year) as nat)
    } else if year <= 9999 {
        four_digits(year as nat)
    } else {
        "+"@ + four_digits(year as nat)
    }
}

/// A day as year, month and day of the month.
pub open spec fn date_label(day: int) -> Seq<char> {
    let date = date_of(day);
    year_label(date.year) + "-"@ + two_digits(date.month as nat) + "-"@ + two_digits(
        date.day as nat,
    )
}

proof fn lemma_zero_in_front(d: Seq<char>)
    requires
        all_digits(d),
    ensures
        all_digits("0"@ + d),
        digits_value("0"@ + d) == digits_value(d),
        ("0"@ + d).len() == d.len() + 1,
    decreases d.len(),
{
    reveal_strlit("0");
    let s = "0"@ + d;
    assert forall|i: int| 0 <= i < s.len() implies '0' <= #[trigger] s[i] <= '9' by {
        if i > 0 {
            assert(s[i] == d[i - 1]);
        }
    }
    if d.len() > 0 {
        lemma_all_but_last(d);
        lemma_zero_in_front(d.drop_last());
        assert(s.drop_last() =~= "0"@ + d.drop_last());
        assert(s.last() == d.last());
    } else {
        assert(s.drop_last() =~= Seq::<char>::empty());
        assert(digits_value(s.drop_last()) == 0);
        assert(s.last() == '0');
    }
}

proof fn lemma_all_but_last(d: Seq<char>)
    requires
        all_digits(d),
        d.len() > 0,
    ensures
        all_digits(d.drop_last()),
{
    assert forall|i: int| 0 <= i < d.drop_last().len() implies '0' <= #[trigger] d.drop_last()[i]
        <= '9' by {
        assert(d.drop_last()[i] == d[i]);
    }
}

/// Two, three and four digits are as many, and are read as the number they were written for.
pub proof fn lemma_fixed_digits(n: nat)
    ensures
        all_digits(two_digits(n)) && digits_value(two_digits(n)) == n,
        all_digits(three_digits(n)) && digits_value(three_digits(n)) == n,
        all_digits(four_digits(n)) && digits_value(four_digits(n)) == n,
        n < 100 ==> two_digits(n).len() == 2,
        n < 1_000 ==> three_digits(n).len() == 3,
        n < 10_000 ==> four_digits(n).len() == 4,
{
    lemma_digits_are_read(n);
    reveal_with_fuel(digits, 5);
    lemma_zero_in_front(digits(n, 10));
    lemma_zero_in_front(two_digits(n));
    lemma_zero_in_front(three_digits(n));
}

/// The text of a date is its year, its month and its day of the month.
pub proof fn lemma_date_label(date: Date)
    requires
        date.is_valid(),
        0 <= date.year <= 9_999,
    ensures
        ({
            let label = date_label(date.number());
            &&& label.len() == 10
            &&& digits_value(label.subrange(0, 4)) == date.year
            &&& label[4] == '-'
            &&& digits_value(label.subrange(5, 7)) == date.month
            &&& label[7] == '-'
            &&& digits_value(label.subrange(8, 10)) == date.day
        }),
{
    reveal_strlit("-");
    lemma_date_of(date);
    lemma_fixed_digits(date.year as nat);
    lemma_fixed_digits(date.month as nat);
    lemma_fixed_digits(date.day as nat);
    let label = date_label(date.number());
    assert(label.subrange(0, 4) =~= four_digits(date.year as nat));
    assert(label.subrange(5, 7) =~= two_digits(date.month as nat));
    assert(label.subrange(8, 10) =~= two_digits(date.day as nat));
}

} // verus!
