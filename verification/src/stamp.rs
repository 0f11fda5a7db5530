//! The names of the directories that hold the clips of failed batches.
use crate::clips;
use crate::paths;
use crate::text;
use vstd::prelude::*;
use vstd::utf8::*;

verus! {

/// How a time is written: year, month and day, a `T`, hour, minute and second.
pub const STAMP_FORMAT: &'static str = "%Y%m%dT%H%M%S";

/// A time as a clock on the wall shows it.
#[derive(Debug, Clone, Copy, PartialEq, Eq)]
pub struct LocalTime {
    pub year: i32,
    pub month: u32,
    pub day: u32,
    pub hour: u32,
    pub minute: u32,
    pub second: u32,
}

/// Whether a year of the Gregorian calendar has a 29th of February.
pub open spec fn is_leap(year: int) -> bool {
    year % 4 == 0 && (year % 100 != 0 || year % 400 == 0)
}

/// The number of days of a month.
pub open spec fn days_in(year: int, month: int) -> int {
    if month == 2 {
        if is_leap(year) {
            29
        } else {
            28
        }
    } else if month == 4 || month == 6 || month == 9 || month == 11 {
        30
    } else {
        31
    }
}

/// Whether there is such a time, in the range of years that dates are kept for.
pub open spec fn is_time(t: LocalTime) -> bool {
    &&& -262143 <= t.year <= 262142
    &&& 1 <= t.month <= 12
    &&& 1 <= t.day <= days_in(t.year as int, t.month as int)
    &&& t.hour < 24
    &&& t.minute < 60
    &&& t.second < 60
}

/// A decimal digit.
pub open spec fn digit(n: int) -> char {
    ('0' as int + n) as char
}

/// A number in decimal digits, with zeros before it up to a width.
pub open spec fn padded(n: nat, width: nat) -> Seq<char>
    decreases n + width,
{
    if n < 10 && width <= 1 {
        seq![digit(n as int)]
    } else {
        padded(
            n / 10,
            if width > 0 {
                (width - 1) as nat
            } else {
                0
            },
        ).push(digit((n % 10) as int))
    }
}

/// A year in four digits; one that needs more, or lies before the year 0, with its sign.
pub open spec fn year_text(year: int) -> Seq<char> {
    if 0 <= year <= 9999 {
        padded(year as nat, 4)
    } else if year < 0 {
        seq!['-'] + padded((-year) as nat, 4)
    } else {
        seq!['+'] + padded(year as nat, 4)
    }
}

/// How a time is written.
pub open spec fn stamp_text(t: LocalTime) -> Seq<char> {
    year_text(t.year as int) + padded(t.month as nat, 2) + padded(t.day as nat, 2) + seq!['T']
        + padded(t.hour as nat, 2) + padded(t.minute as nat, 2) + padded(t.second as nat, 2)
}

/// Writes a time with `chrono`'s `NaiveDateTime::format`. `NaiveDate::from_ymd_opt` and
/// `NaiveDate::and_hms_opt` give a time exactly where there is one, and the format's `%Y`, `%m`,
/// `%d`, `%H`, `%M` and `%S` stand for zero-padded numbers, the year with a sign where it has not
/// four digits.
#[verifier::external_body]
fn format_time(t: LocalTime, format: &str) -> (text: Option<String>)
    requires
        format@ == STAMP_FORMAT@,
    ensures
        text is Some <==> is_time(t),
        text matches Some(s) ==> s@ == stamp_text(t),
{
    let date = chrono::NaiveDate::from_ymd_opt(t.year, t.month, t.day)?;
    let time = date.and_hms_opt(t.hour, t.minute, t.second)?;
    Some(time.format(format).to_string())
}

/// The name of the directory for a batch that failed at a time, where there is such a time.
pub fn failure_stamp(t: LocalTime) -> (stamp: Option<String>)
    ensures
        stamp is Some <==> is_time(t),
        stamp matches Some(s) ==> s@ == stamp_text(t),
{
    format_time(t, STAMP_FORMAT)
}

/// Whether a text holds no slash.
spec fn has_no_slash(text: Seq<char>) -> bool {
    forall|i: int| 0 <= i < text.len() ==> #[trigger] text[i] != '/'
}

proof fn padded_has_no_slash(n: nat, width: nat)
    ensures
        has_no_slash(padded(n, width)),
        padded(n, width).len() > 0,
    decreases n + width,
{
    if !(n < 10 && width <= 1) {
        padded_has_no_slash(
            n / 10,
            if width > 0 {
                (width - 1) as nat
            } else {
                0
            },
        );
    }
}

/// The clips of a failed batch are put into a directory that lies directly in the one for
/// failed batches.
pub proof fn stamped_directory_lies_below(dir: Seq<u8>, t: LocalTime)
    ensures
        paths::components(paths::join(dir, encode_utf8(stamp_text(t)))) == paths::components(
            dir,
        ).push(paths::Component::Normal(encode_utf8(stamp_text(t)))),
{
    let stamp = stamp_text(t);
    let year = t.year as int;
    padded_has_no_slash(
        if year < 0 {
            (-year) as nat
        } else {
            year as nat
        },
        4,
    );
    padded_has_no_slash(t.month as nat, 2);
    padded_has_no_slash(t.day as nat, 2);
    padded_has_no_slash(t.hour as nat, 2);
    padded_has_no_slash(t.minute as nat, 2);
    padded_has_no_slash(t.second as nat, 2);
    let y = year_text(year);
    assert(has_no_slash(y));
    let ym = y + padded(t.month as nat, 2);
    assert(has_no_slash(ym));
    let ymd = ym + padded(t.day as nat, 2);
    assert(has_no_slash(ymd));
    let ymdt = ymd + seq!['T'];
    assert(has_no_slash(ymdt));
    let h = ymdt + padded(t.hour as nat, 2);
    assert(has_no_slash(h));
    let hm = h + padded(t.minute as nat, 2);
    assert(has_no_slash(hm));
    assert(has_no_slash(stamp));
    let bytes = encode_utf8(stamp);
    text::encode_slash(stamp);
    assert(stamp.len() >= 3);
    text::encode_no_shorter(stamp);
    paths::join_appends_component(dir, bytes);
}

/// A padded number is its decimal digits, with zeros before them up to the width and no more.
pub proof fn padded_numbers_read_back(n: nat, width: nat)
    ensures
        ({
            let text = padded(n, width);
            &&& text.len() >= width
            &&& text.len() >= 1
            &&& forall|i: int| 0 <= i < text.len() ==> '0' <= #[trigger] text[i] <= '9'
            &&& clips::digits_value(text) == n
            &&& text.len() > width && text.len() > 1 ==> text[0] != '0'
        }),
    decreases n + width,
{
    let text = padded(n, width);
    if n < 10 && width <= 1 {
        assert(text.drop_last() =~= Seq::<char>::empty());
        assert(clips::digits_value(text.drop_last()) == 0);
        assert(text.last() as int == '0' as int + n);
    } else {
        let less = if width > 0 {
            (width - 1) as nat
        } else {
            0
        };
        let head = padded(n / 10, less);
        padded_numbers_read_back(n / 10, less);
        assert(text.drop_last() =~= head);
        assert(text.last() as int == '0' as int + n % 10);
        assert(clips::digits_value(text) == 10 * clips::digits_value(head) + n % 10);
        assert forall|i: int| 0 <= i < text.len() implies '0' <= #[trigger] text[i] <= '9' by {
            if i < head.len() {
                assert(text[i] == head[i]);
            }
        }
        assert(text[0] == head[0]);
        if text.len() > width && head.len() == 1 {
            assert(width <= 1);
            assert(n >= 10);
            assert(clips::digits_value(head) == n / 10);
            assert(head.drop_last() =~= Seq::<char>::empty());
            assert(clips::digits_value(head.drop_last()) == 0);
            assert(clips::digits_value(head) == head.last() as int - '0' as int);
        }
    }
}

proof fn two_digits(n: nat)
    requires
        n < 100,
    ensures
        padded(n, 2).len() == 2,
        clips::digits_value(padded(n, 2)) == n,
{
    padded_numbers_read_back(n, 2);
    reveal_with_fuel(padded, 3);
}

/// The stamp of a time reads back as the time: behind the year come two digits each for the month
/// and the day, a `T`, and two digits each for the hour, the minute and the second. The year has
/// four digits; one that needs more, or lies before the year 0, has its sign before it.
pub proof fn stamps_read_back(t: LocalTime)
    requires
        t.month < 100,
        t.day < 100,
        t.hour < 100,
        t.minute < 100,
        t.second < 100,
    ensures
        ({
            let text = stamp_text(t);
            let n = text.len() as int;
            let year = text.take(n - 11);
            &&& n >= 15
            &&& clips::digits_value(text.subrange(n - 11, n - 9)) == t.month
            &&& clips::digits_value(text.subrange(n - 9, n - 7)) == t.day
            &&& text[n - 7] == 'T'
            &&& clips::digits_value(text.subrange(n - 6, n - 4)) == t.hour
            &&& clips::digits_value(text.subrange(n - 4, n - 2)) == t.minute
            &&& clips::digits_value(text.subrange(n - 2, n)) == t.second
            &&& 0 <= t.year <= 9999 ==> n == 15 && clips::digits_value(year) == t.year
            &&& t.year > 9999 ==> year[0] == '+' && clips::digits_value(year.skip(1)) == t.year
            &&& t.year < 0 ==> year[0] == '-' && clips::digits_value(year.skip(1)) == -t.year
        }),
{
    let text = stamp_text(t);
    let n = text.len() as int;
    let y = year_text(t.year as int);
    let (mo, d) = (padded(t.month as nat, 2), padded(t.day as nat, 2));
    let (h, mi, s) = (
        padded(t.hour as nat, 2),
        padded(t.minute as nat, 2),
        padded(t.second as nat, 2),
    );
    two_digits(t.month as nat);
    two_digits(t.day as nat);
    two_digits(t.hour as nat);
    two_digits(t.minute as nat);
    two_digits(t.second as nat);
    let size = if t.year < 0 {
        (-t.year) as nat
    } else {
        t.year as nat
    };
    padded_numbers_read_back(size, 4);
    if size <= 9999 {
        reveal_with_fuel(padded, 5);
        assert(padded(size, 4).len() == 4);
    }
    assert(text.take(n - 11) =~= y);
    assert(text.subrange(n - 11, n - 9) =~= mo);
    assert(text.subrange(n - 9, n - 7) =~= d);
    assert(text.subrange(n - 6, n - 4) =~= h);
    assert(text.subrange(n - 4, n - 2) =~= mi);
    assert(text.subrange(n - 2, n) =~= s);
    if t.year < 0 || t.year > 9999 {
        assert(y.skip(1) =~= padded(size, 4));
    }
}

/// There is a time exactly where the calendar and the clock have it: months are 1 to 12, days
/// begin at 1, every month has 28 of them, all but a February have 30, a February has 29 in leap
/// years, and seven months have 31; hours go up to 23, minutes and seconds up to 59.
pub proof fn times_are_those_of_the_calendar(t: LocalTime)
    ensures
        is_time(t) <==> {
            let leap = (t.year as int % 4 == 0 && t.year as int % 100 != 0) || t.year as int % 400
                == 0;
            let long = t.month == 1 || t.month == 3 || t.month == 5 || t.month == 7 || t.month == 8
                || t.month == 10 || t.month == 12;
            &&& -262143 <= t.year <= 262142
            &&& 1 <= t.month <= 12
            &&& 1 <= t.day <= 31
            &&& t.day == 29 && t.month == 2 ==> leap
            &&& t.day == 30 ==> t.month != 2
            &&& t.day == 31 ==> long
            &&& t.hour <= 23
            &&& t.minute <= 59
            &&& t.second <= 59
        },
{
}

} // verus!
