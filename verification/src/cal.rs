//! Calendar rendering: the text of one month, weeks starting on Monday,
//! one day optionally highlighted.

use chrono::Datelike;
use vstd::prelude::*;
use vstd::string::StrSliceExecFns;
use vstd::string::StringExecFns;
use crate::render::dec_of;
use crate::render::left_padded;
use crate::render::padded_usize;
use crate::render::spaces;

verus! {

/// Gregorian leap year.
pub open spec fn is_leap_year(y: int) -> bool {
    y % 4 == 0 && (y % 100 != 0 || y % 400 == 0)
}

/// Days in a month of the Gregorian calendar.
pub open spec fn days_in_month_of(y: int, m: int) -> int {
    if m == 2 {
        if is_leap_year(y) {
            29
        } else {
            28
        }
    } else if m == 4 || m == 6 || m == 9 || m == 11 {
        30
    } else {
        31
    }
}

/// How many days the given month has.
pub fn days_in_month(year: i32, month: u32) -> (r: u32)
    requires
        1 <= year,
        1 <= month <= 12,
    ensures
        r == days_in_month_of(year as int, month as int),
        28 <= r <= 31,
{
    if month == 2 {
        if year % 4 == 0 && (year % 100 != 0 || year % 400 == 0) {
            29
        } else {
            28
        }
    } else if month == 4 || month == 6 || month == 9 || month == 11 {
        30
    } else {
        31
    }
}

/// What chrono reports as the weekday of the first day of a month,
/// counted with Monday as zero.
pub uninterp spec fn weekday_of_month_start(year: int, month: int) -> nat;

/// Relies on `chrono::NaiveDate::from_ymd_opt`, `NaiveDate::weekday` and
/// `Weekday::num_days_from_monday`: the weekday of a date is a function of
/// the date alone and lies between zero and six, and the first day of any
/// month 1 to 12 of a year chrono represents (years 1 to 9999 amply so)
/// is a valid date.
#[verifier::external_body]
fn month_start_weekday(year: i32, month: u32) -> (r: Option<u32>)
    ensures
        r matches Some(w) ==> w == weekday_of_month_start(year as int, month as int) && w < 7,
        (1 <= month <= 12 && 1 <= year <= 9999) ==> r is Some,
{
    match chrono::NaiveDate::from_ymd_opt(year, month, 1) {
        Some(d) => Some(d.weekday().num_days_from_monday()),
        None => None,
    }
}

/// The English name of a month.
pub open spec fn month_name_of(m: int) -> Seq<char> {
    if m == 1 {
        "January"@
    } else if m == 2 {
        "February"@
    } else if m == 3 {
        "March"@
    } else if m == 4 {
        "April"@
    } else if m == 5 {
        "May"@
    } else if m == 6 {
        "June"@
    } else if m == 7 {
        "July"@
    } else if m == 8 {
        "August"@
    } else if m == 9 {
        "September"@
    } else if m == 10 {
        "October"@
    } else if m == 11 {
        "November"@
    } else {
        "December"@
    }
}

/// The English name of a month.
pub fn month_name(month: u32) -> (r: &'static str)
    requires
        1 <= month <= 12,
    ensures
        r@ == month_name_of(month as int),
{
    if month == 1 {
        "January"
    } else if month == 2 {
        "February"
    } else if month == 3 {
        "March"
    } else if month == 4 {
        "April"
    } else if month == 5 {
        "May"
    } else if month == 6 {
        "June"
    } else if month == 7 {
        "July"
    } else if month == 8 {
        "August"
    } else if month == 9 {
        "September"
    } else if month == 10 {
        "October"
    } else if month == 11 {
        "November"
    } else {
        "December"
    }
}

/// `s` centered in width `w`: the spare spaces split evenly, the odd one
/// going to the right.
pub open spec fn centered(s: Seq<char>, w: nat) -> Seq<char> {
    if s.len() >= w {
        s
    } else {
        let pad = (w - s.len()) as nat;
        Seq::new(pad / 2, |i: int| ' ') + s + Seq::new((pad - pad / 2) as nat, |i: int| ' ')
    }
}

/// Center `s` in a width-`w` field.
fn center_in(s: &str, w: usize) -> (r: String)
    ensures
        r@ == centered(s@, w as nat),
{
    let n = s.unicode_len();
    if n >= w {
        return String::from_str(s);
    }
    let pad = w - n;
    let mut out = spaces(pad / 2);
    out.append(s);
    let right = spaces(pad - pad / 2);
    out.append(right.as_str());
    proof {
        assert(out@ =~= centered(s@, w as nat));
    }
    out
}

/// One day's cell: the day number left-aligned to three columns, wrapped
/// in the blue highlight escape codes when it is the highlighted day.
pub open spec fn day_cell(d: nat, today: nat) -> Seq<char> {
    if d == today {
        "\x1b[34m"@ + left_padded(dec_of(d), 3) + "\x1b[0m"@
    } else {
        left_padded(dec_of(d), 3)
    }
}

/// The cells of days 1 to `upto` in order, with a newline before every day
/// that falls on a Monday (`first_w` is the first day's weekday, Monday
/// counted as zero).
pub open spec fn day_cells(first_w: nat, upto: nat, today: nat) -> Seq<char>
    decreases upto,
{
    if upto == 0 {
        Seq::<char>::empty()
    } else {
        day_cells(first_w, (upto - 1) as nat, today) + (if (first_w + upto - 1) % 7 == 0 {
            seq!['\n']
        } else {
            Seq::<char>::empty()
        }) + day_cell(upto, today)
    }
}

/// A month's full text: its name centered over the grid, the first week
/// indented three columns per missing day, then every day in a
/// three-column cell, weeks broken before each Monday.
pub open spec fn month_text(name: Seq<char>, first_w: nat, days: nat, today: nat) -> Seq<char> {
    centered(name, 21) + seq!['\n'] + Seq::new(3 * first_w, |i: int| ' ') + day_cells(
        first_w,
        days,
        today,
    ) + seq!['\n']
}

/// Render one month, highlighting `day` where it names a day of the month
/// (zero highlights nothing).
pub fn print_month(year: i32, month: u32, day: u32) -> (r: String)
    requires
        1 <= year <= 9999,
        1 <= month <= 12,
    ensures
        r@ == month_text(
            month_name_of(month as int),
            weekday_of_month_start(year as int, month as int),
            days_in_month_of(year as int, month as int) as nat,
            day as nat,
        ),
{
    let first_w = match month_start_weekday(year, month) {
        Some(w) => w,
        None => {
            proof {
                assert(false);
            }
            0
        },
    };
    let days = days_in_month(year, month);
    let name = month_name(month);
    let ghost fw = first_w as nat;
    let ghost today = day as nat;
    let mut out = center_in(name, 21);
    out.append("\n");
    let indent = spaces(3 * first_w as usize);
    out.append(indent.as_str());
    let ghost head = centered(name@, 21) + seq!['\n'] + Seq::new(3 * fw, |i: int| ' ');
    proof {
        reveal_strlit("\n");
        assert("\n"@ =~= seq!['\n']);
        assert(out@ =~= head + day_cells(fw, 0, today));
    }
    let mut d: u32 = 1;
    while d <= days
        invariant
            fw == first_w as nat,
            today == day as nat,
            first_w < 7,
            28 <= days <= 31,
            1 <= d <= days + 1,
            out@ == head + day_cells(fw, (d - 1) as nat, today),
        decreases days + 1 - d,
    {
        if (first_w + d - 1) % 7 == 0 {
            out.append("\n");
        }
        let cell = padded_usize(d as usize, 3);
        if d == day {
            out.append("\x1b[34m");
            out.append(cell.as_str());
            out.append("\x1b[0m");
        } else {
            out.append(cell.as_str());
        }
        proof {
            reveal_strlit("\n");
            assert("\n"@ =~= seq!['\n']);
            assert(out@ =~= head + day_cells(fw, d as nat, today));
        }
        d += 1;
    }
    out.append("\n");
    proof {
        reveal_strlit("\n");
        assert("\n"@ =~= seq!['\n']);
        assert(out@ =~= month_text(
            month_name_of(month as int),
            weekday_of_month_start(year as int, month as int),
            days_in_month_of(year as int, month as int) as nat,
            day as nat,
        ));
    }
    out
}

} // verus!
