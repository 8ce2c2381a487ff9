//! Calendar dates of the proleptic Gregorian calendar and the
//! `YYYY-MM-DD` text that names a day.

use chrono::{Datelike, NaiveDate};
use vstd::arithmetic::div_mod::lemma_fundamental_div_mod_converse;
use vstd::prelude::*;

verus! {

/// Earliest year a journal day can have. A day's file is named
/// `YYYY-MM-DD` with a four-digit year, so the years that a name can hold
/// bound the calendar: navigation stops at the two ends of this range
/// and nowhere else.
pub const MIN_YEAR: i32 = 0;

/// Latest year a journal day can have (the largest four-digit year).
pub const MAX_YEAR: i32 = 9999;

/// A day as (year, month, day).
pub type Ymd = (int, int, int);

pub open spec fn is_leap_year(y: int) -> bool {
    y % 4 == 0 && (y % 100 != 0 || y % 400 == 0)
}

pub open spec fn days_in_month(y: int, m: int) -> int {
    if m == 2 {
        if is_leap_year(y) { 29 } else { 28 }
    } else if m == 4 || m == 6 || m == 9 || m == 11 {
        30
    } else {
        31
    }
}

/// A real day of the calendar, whatever its year.
pub open spec fn is_calendar_day(d: Ymd) -> bool {
    1 <= d.1 <= 12 && 1 <= d.2 <= days_in_month(d.0, d.1)
}

/// A day that a journal can hold.
pub open spec fn in_range(d: Ymd) -> bool {
    is_calendar_day(d) && MIN_YEAR <= d.0 <= MAX_YEAR
}

/// The calendar day after `d`.
pub open spec fn next_day(d: Ymd) -> Ymd {
    if d.2 < days_in_month(d.0, d.1) {
        (d.0, d.1, d.2 + 1)
    } else if d.1 < 12 {
        (d.0, d.1 + 1, 1)
    } else {
        (d.0 + 1, 1, 1)
    }
}

/// The calendar day before `d`.
pub open spec fn prev_day(d: Ymd) -> Ymd {
    if d.2 > 1 {
        (d.0, d.1, d.2 - 1)
    } else if d.1 > 1 {
        (d.0, d.1 - 1, days_in_month(d.0, d.1 - 1))
    } else {
        (d.0 - 1, 12, 31)
    }
}

/// A number that tells the days of the range apart.
pub open spec fn day_code(d: Ymd) -> u64 {
    (d.0 * 10000 + d.1 * 100 + d.2) as u64
}

/// Different days of the range have different codes.
pub proof fn lemma_day_code_unique(a: Ymd, b: Ymd)
    requires
        in_range(a),
        in_range(b),
        day_code(a) == day_code(b),
    ensures
        a == b,
{
    assert(a.0 * 10000 + a.1 * 100 + a.2 == b.0 * 10000 + b.1 * 100 + b.2);
}

/// Going a day forward and then a day back, or back and then forward,
/// comes back to the same day.
pub proof fn lemma_next_prev_inverse(d: Ymd)
    requires
        is_calendar_day(d),
    ensures
        is_calendar_day(next_day(d)),
        is_calendar_day(prev_day(d)),
        prev_day(next_day(d)) == d,
        next_day(prev_day(d)) == d,
        next_day(d) != d,
{
}

/// The model of a day given as machine integers.
pub open spec fn ymd_of(t: (i32, u32, u32)) -> Ymd {
    (t.0 as int, t.1 as int, t.2 as int)
}

/// The character of the decimal digit `n`.
pub open spec fn digit(n: int) -> char {
    (n + 48) as char
}

/// `n` below a hundred, as two digits.
pub open spec fn two_digits(n: int) -> Seq<char> {
    seq![digit(n / 10), digit(n % 10)]
}

/// `n` below ten thousand, as four digits.
pub open spec fn four_digits(n: int) -> Seq<char> {
    seq![digit(n / 1000), digit((n / 100) % 10), digit((n / 10) % 10), digit(n % 10)]
}

/// The name of a day: `YYYY-MM-DD`, each part zero-padded.
pub open spec fn key_text(d: Ymd) -> Seq<char> {
    four_digits(d.0) + seq!['-'] + two_digits(d.1) + seq!['-'] + two_digits(d.2)
}

/// A day of the journal. Every value is a real calendar day in
/// `MIN_YEAR..=MAX_YEAR`.
#[derive(Clone, Copy, Debug, PartialEq, Eq, Hash)]
pub struct Date {
    year: i32,
    month: u32,
    day: u32,
}

impl View for Date {
    type V = Ymd;

    closed spec fn view(&self) -> Ymd {
        (self.year as int, self.month as int, self.day as int)
    }
}

/// Relies on chrono's `NaiveDate::from_ymd_opt` (a date for each real
/// calendar day of years -262143..=262142) and `NaiveDate::succ_opt` (the
/// next calendar day, `None` only after the last of those years), read back
/// through `Datelike`'s `year`, `month` and `day`.
#[verifier::external_body]
fn chrono_succ(y: i32, m: u32, d: u32) -> (r: Option<(i32, u32, u32)>)
    requires
        in_range(ymd_of((y, m, d))),
    ensures
        r is Some,
        ymd_of(r.unwrap()) == next_day(ymd_of((y, m, d))),
{
    let date = NaiveDate::from_ymd_opt(y, m, d)?;
    let next = date.succ_opt()?;
    Some((next.year(), next.month(), next.day()))
}

/// Relies on chrono's `NaiveDate::from_ymd_opt` (as above) and
/// `NaiveDate::pred_opt` (the previous calendar day, `None` only before the
/// first of those years), read back through `Datelike`'s accessors.
#[verifier::external_body]
fn chrono_pred(y: i32, m: u32, d: u32) -> (r: Option<(i32, u32, u32)>)
    requires
        in_range(ymd_of((y, m, d))),
    ensures
        r is Some,
        ymd_of(r.unwrap()) == prev_day(ymd_of((y, m, d))),
{
    let date = NaiveDate::from_ymd_opt(y, m, d)?;
    let prev = date.pred_opt()?;
    Some((prev.year(), prev.month(), prev.day()))
}


/// `n` written with the digits `a`, `b`, `c`, `d`.
proof fn lemma_digits_of(n: int, a: int, b: int, c: int, d: int)
    requires
        0 <= a <= 9,
        0 <= b <= 9,
        0 <= c <= 9,
        0 <= d <= 9,
        n == 1000 * a + 100 * b + 10 * c + d,
    ensures
        n / 1000 == a,
        (n / 100) % 10 == b,
        (n / 10) % 10 == c,
        n % 10 == d,
        (10 * c + d) / 10 == c,
        (10 * c + d) % 10 == d,
{
    lemma_fundamental_div_mod_converse(n, 1000, a, 100 * b + 10 * c + d);
    lemma_fundamental_div_mod_converse(n, 100, 10 * a + b, 10 * c + d);
    lemma_fundamental_div_mod_converse(10 * a + b, 10, a, b);
    lemma_fundamental_div_mod_converse(n, 10, 100 * a + 10 * b + c, d);
    lemma_fundamental_div_mod_converse(100 * a + 10 * b + c, 10, 10 * a + b, c);
    lemma_fundamental_div_mod_converse(10 * c + d, 10, c, d);
}

/// The four digits of a year below ten thousand.
proof fn lemma_four_digits_range(n: int)
    requires
        0 <= n <= 9999,
    ensures
        0 <= n / 1000 <= 9,
        0 <= (n / 100) % 10 <= 9,
        0 <= (n / 10) % 10 <= 9,
        0 <= n % 10 <= 9,
        n == 1000 * (n / 1000) + 100 * ((n / 100) % 10) + 10 * ((n / 10) % 10) + n % 10,
{
    let a = n / 1000;
    let h = n / 100;
    let t = n / 10;
    assert(n == 10 * t + n % 10);
    assert(t == 10 * h + t % 10);
    assert(h == 10 * a + h % 10) by {
        assert(n == 1000 * a + n % 1000);
        assert(n % 1000 == 100 * ((n % 1000) / 100) + (n % 1000) % 100);
    }
}

/// The two digits of a number below a hundred.
proof fn lemma_two_digits_range(n: int)
    requires
        0 <= n <= 99,
    ensures
        0 <= n / 10 <= 9,
        0 <= n % 10 <= 9,
        n == 10 * (n / 10) + n % 10,
{
}

fn digit_str(n: u32) -> (r: &'static str)
    requires
        n < 10,
    ensures
        r@ == seq![digit(n as int)],
{
    proof {
        reveal_strlit("0");
        reveal_strlit("1");
        reveal_strlit("2");
        reveal_strlit("3");
        reveal_strlit("4");
        reveal_strlit("5");
        reveal_strlit("6");
        reveal_strlit("7");
        reveal_strlit("8");
        reveal_strlit("9");
    }
    match n {
        0 => "0",
        1 => "1",
        2 => "2",
        3 => "3",
        4 => "4",
        5 => "5",
        6 => "6",
        7 => "7",
        8 => "8",
        _ => "9",
    }
}

/// The value of a decimal digit character.
fn digit_value(c: char) -> (r: Option<u32>)
    ensures
        r matches Some(v) ==> v < 10 && c == digit(v as int),
        r is None ==> forall|k: int| 0 <= k <= 9 ==> c != digit(k),
{
    if '0' <= c && c <= '9' {
        Some(c as u32 - 48)
    } else {
        None
    }
}

fn month_length(y: i32, m: u32) -> (r: u32)
    requires
        0 <= y,
        1 <= m <= 12,
    ensures
        r as int == days_in_month(y as int, m as int),
{
    if m == 2 {
        if y % 4 == 0 && (y % 100 != 0 || y % 400 == 0) {
            29
        } else {
            28
        }
    } else if m == 4 || m == 6 || m == 9 || m == 11 {
        30
    } else {
        31
    }
}

impl Date {
    #[verifier::type_invariant]
    pub open spec fn inv(self) -> bool {
        in_range(self@)
    }

    /// The day `year-month-day`, if it is a real day within the range.
    pub fn new(year: i32, month: u32, day: u32) -> (r: Option<Date>)
        ensures
            r is Some <==> in_range((year as int, month as int, day as int)),
            r matches Some(d) ==> d@ == (year as int, month as int, day as int),
    {
        if year < MIN_YEAR || year > MAX_YEAR || month < 1 || month > 12 || day < 1 {
            return None;
        }
        if day > month_length(year, month) {
            return None;
        }
        Some(Date { year, month, day })
    }



    /// Every day's name has ten characters.
    pub proof fn lemma_key_length(t: Ymd)
        ensures
            key_text(t).len() == 10,
            key_text(t)[4] == '-',
            key_text(t)[7] == '-',
    {
    }

    /// The day that `text` names, if it is exactly the `YYYY-MM-DD` name
    /// of a day in the range.
    pub fn parse_key(text: &str) -> (r: Option<Date>)
        ensures
            r matches Some(d) ==> text@ == key_text(d@),
            r is None ==> forall|t: Ymd| in_range(t) ==> text@ != key_text(t),
    {
        proof {
            assert forall|t: Ymd| in_range(t) implies {
                let k = key_text(t);
                &&& k.len() == 10
                &&& k[4] == '-'
                &&& k[7] == '-'
                &&& k[0] == digit(t.0 / 1000) && 0 <= t.0 / 1000 <= 9
                &&& k[1] == digit((t.0 / 100) % 10) && 0 <= (t.0 / 100) % 10 <= 9
                &&& k[2] == digit((t.0 / 10) % 10) && 0 <= (t.0 / 10) % 10 <= 9
                &&& k[3] == digit(t.0 % 10) && 0 <= t.0 % 10 <= 9
                &&& k[5] == digit(t.1 / 10) && 0 <= t.1 / 10 <= 9
                &&& k[6] == digit(t.1 % 10) && 0 <= t.1 % 10 <= 9
                &&& k[8] == digit(t.2 / 10) && 0 <= t.2 / 10 <= 9
                &&& k[9] == digit(t.2 % 10) && 0 <= t.2 % 10 <= 9
            } by {
                lemma_four_digits_range(t.0);
                lemma_two_digits_range(t.1);
                lemma_two_digits_range(t.2);
            }
        }
        if text.unicode_len() != 10 {
            return None;
        }
        if text.get_char(4) != '-' || text.get_char(7) != '-' {
            return None;
        }
        let y0 = match digit_value(text.get_char(0)) { Some(v) => v, None => return None };
        let y1 = match digit_value(text.get_char(1)) { Some(v) => v, None => return None };
        let y2 = match digit_value(text.get_char(2)) { Some(v) => v, None => return None };
        let y3 = match digit_value(text.get_char(3)) { Some(v) => v, None => return None };
        let m0 = match digit_value(text.get_char(5)) { Some(v) => v, None => return None };
        let m1 = match digit_value(text.get_char(6)) { Some(v) => v, None => return None };
        let d0 = match digit_value(text.get_char(8)) { Some(v) => v, None => return None };
        let d1 = match digit_value(text.get_char(9)) { Some(v) => v, None => return None };
        let year = 1000 * y0 + 100 * y1 + 10 * y2 + y3;
        let month = 10 * m0 + m1;
        let day = 10 * d0 + d1;
        proof {
            lemma_digits_of(year as int, y0 as int, y1 as int, y2 as int, y3 as int);
            lemma_digits_of(month as int, 0, 0, m0 as int, m1 as int);
            lemma_digits_of(day as int, 0, 0, d0 as int, d1 as int);
            assert(text@ =~= key_text((year as int, month as int, day as int)));
            assert forall|t: Ymd| in_range(t) && text@ == key_text(t) implies t == (
                year as int,
                month as int,
                day as int,
            ) by {
                lemma_four_digits_range(t.0);
                lemma_two_digits_range(t.1);
                lemma_two_digits_range(t.2);
            }
        }
        Date::new(year as i32, month, day)
    }

    pub fn year(&self) -> (r: i32)
        ensures
            r as int == self@.0,
    {
        self.year
    }

    pub fn month(&self) -> (r: u32)
        ensures
            r as int == self@.1,
    {
        self.month
    }

    pub fn day(&self) -> (r: u32)
        ensures
            r as int == self@.2,
    {
        self.day
    }

    /// The name of this day, `YYYY-MM-DD`.
    pub fn key(&self) -> (r: String)
        ensures
            r@ == key_text(self@),
    {
        proof {
            use_type_invariant(self);
            lemma_four_digits_range(self.year as int);
            lemma_two_digits_range(self.month as int);
            lemma_two_digits_range(self.day as int);
        }
        let y = self.year as u32;
        let mut s = String::from_str(digit_str(y / 1000));
        s.append(digit_str((y / 100) % 10));
        s.append(digit_str((y / 10) % 10));
        s.append(digit_str(y % 10));
        s.append("-");
        s.append(digit_str(self.month / 10));
        s.append(digit_str(self.month % 10));
        s.append("-");
        s.append(digit_str(self.day / 10));
        s.append(digit_str(self.day % 10));
        proof {
            reveal_strlit("-");
            assert(s@ =~= key_text(self@));
        }
        s
    }

    /// The number that tells this day apart from the others.
    pub fn code(&self) -> (r: u64)
        ensures
            r == day_code(self@),
    {
        proof {
            use_type_invariant(self);
        }
        self.year as u64 * 10000 + self.month as u64 * 100 + self.day as u64
    }

    /// The day after this one; `None` past the last day of `MAX_YEAR`.
    pub fn next(&self) -> (r: Option<Date>)
        ensures
            r is Some <==> in_range(next_day(self@)),
            r matches Some(n) ==> n@ == next_day(self@),
    {
        proof {
            use_type_invariant(self);
        }
        match chrono_succ(self.year, self.month, self.day) {
            Some((y, m, d)) => Date::new(y, m, d),
            None => None,
        }
    }

    /// The day before this one; `None` before the first day of `MIN_YEAR`.
    pub fn prev(&self) -> (r: Option<Date>)
        ensures
            r is Some <==> in_range(prev_day(self@)),
            r matches Some(n) ==> n@ == prev_day(self@),
    {
        proof {
            use_type_invariant(self);
        }
        match chrono_pred(self.year, self.month, self.day) {
            Some((y, m, d)) => Date::new(y, m, d),
            None => None,
        }
    }
}

} // verus!
