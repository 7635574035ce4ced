//! Situational context: the part of the day, the season, a greeting,
//! notable dates and the operating system's name, from the clock readings
//! and system files the caller supplies.
use vstd::prelude::*;
use crate::text::{chars_of, split_char, split_char_seq, views, starts_with_seq, matches_at, string_from};
use crate::intelligence::data_connector::{trim_char, trim_char_seq};

verus! {

/// The part of the day an hour (0 to 23) falls in.
pub open spec fn period_of(hour: u32) -> Seq<char> {
    if hour <= 5 {
        "late night"@
    } else if hour <= 8 {
        "early morning"@
    } else if hour <= 11 {
        "morning"@
    } else if hour <= 13 {
        "midday"@
    } else if hour <= 16 {
        "afternoon"@
    } else if hour <= 19 {
        "evening"@
    } else if hour <= 23 {
        "night"@
    } else {
        "unknown"@
    }
}

/// The season of a month (1 to 12), northern hemisphere.
pub open spec fn season_of(month: u32) -> Seq<char> {
    if 3 <= month <= 5 {
        "spring"@
    } else if 6 <= month <= 8 {
        "summer"@
    } else if 9 <= month <= 11 {
        "autumn"@
    } else {
        "winter"@
    }
}

/// The greeting for an hour.
pub open spec fn greeting_of(hour: u32) -> Seq<char> {
    if hour <= 5 {
        "You're up late!"@
    } else if hour <= 11 {
        "Good morning"@
    } else if hour <= 16 {
        "Good afternoon"@
    } else {
        "Good evening"@
    }
}

/// The holiday of a date, if it is a notable one.
pub open spec fn holiday_of(month: u32, day: u32) -> Option<Seq<char>> {
    if month == 1 && day == 1 {
        Some("New Year's Day"@)
    } else if month == 2 && day == 14 {
        Some("Valentine's Day"@)
    } else if month == 7 && day == 4 {
        Some("Independence Day"@)
    } else if month == 10 && day == 31 {
        Some("Halloween"@)
    } else if month == 12 && day == 25 {
        Some("Christmas"@)
    } else if month == 12 && day == 31 {
        Some("New Year's Eve"@)
    } else {
        None
    }
}

/// The part of the day an hour falls in.
pub fn day_period(hour: u32) -> (r: &'static str)
    ensures
        r@ == period_of(hour),
{
    if hour <= 5 {
        "late night"
    } else if hour <= 8 {
        "early morning"
    } else if hour <= 11 {
        "morning"
    } else if hour <= 13 {
        "midday"
    } else if hour <= 16 {
        "afternoon"
    } else if hour <= 19 {
        "evening"
    } else if hour <= 23 {
        "night"
    } else {
        "unknown"
    }
}

/// The season of a month.
pub fn season(month: u32) -> (r: &'static str)
    ensures
        r@ == season_of(month),
{
    if 3 <= month && month <= 5 {
        "spring"
    } else if 6 <= month && month <= 8 {
        "summer"
    } else if 9 <= month && month <= 11 {
        "autumn"
    } else {
        "winter"
    }
}

/// The greeting for an hour.
pub fn greeting(hour: u32) -> (r: &'static str)
    ensures
        r@ == greeting_of(hour),
{
    if hour <= 5 {
        "You're up late!"
    } else if hour <= 11 {
        "Good morning"
    } else if hour <= 16 {
        "Good afternoon"
    } else {
        "Good evening"
    }
}

/// Whether a weekday, counted from Monday as 0, falls on the weekend.
pub fn is_weekend(days_from_monday: u32) -> (r: bool)
    ensures
        r == (days_from_monday == 5 || days_from_monday == 6),
{
    days_from_monday == 5 || days_from_monday == 6
}

/// The holiday of a date, if it is a notable one.
pub fn notable_date(month: u32, day: u32) -> (r: Option<&'static str>)
    ensures
        match holiday_of(month, day) {
            Some(h) => r matches Some(s) && s@ == h,
            None => r is None,
        },
{
    if month == 1 && day == 1 {
        Some("New Year's Day")
    } else if month == 2 && day == 14 {
        Some("Valentine's Day")
    } else if month == 7 && day == 4 {
        Some("Independence Day")
    } else if month == 10 && day == 31 {
        Some("Halloween")
    } else if month == 12 && day == 25 {
        Some("Christmas")
    } else if month == 12 && day == 31 {
        Some("New Year's Eve")
    } else {
        None
    }
}

/// `s` with every leading copy of `p` removed.
pub open spec fn strip_prefixes(s: Seq<char>, p: Seq<char>) -> Seq<char>
    decreases s.len(),
{
    if p.len() > 0 && starts_with_seq(s, p) {
        strip_prefixes(s.subrange(p.len() as int, s.len() as int), p)
    } else {
        s
    }
}

/// The lines of a text as `str::lines` reads them, up to a trailing empty
/// piece: split at line feeds, a carriage return before a line feed
/// dropped.
pub open spec fn text_lines(s: Seq<char>) -> Seq<Seq<char>> {
    let ps = split_char_seq(s, '\n');
    Seq::new(
        ps.len(),
        |i: int|
            if i + 1 < ps.len() && ps[i].len() > 0 && ps[i].last() == '\r' {
                ps[i].drop_last()
            } else {
                ps[i]
            },
    )
}

/// The first line, from index `i` on, that starts with `p`.
pub open spec fn first_line_with(ls: Seq<Seq<char>>, p: Seq<char>, i: int) -> Option<Seq<char>>
    decreases ls.len() - i,
{
    if i < 0 || i >= ls.len() {
        None
    } else if starts_with_seq(ls[i], p) {
        Some(ls[i])
    } else {
        first_line_with(ls, p, i + 1)
    }
}

/// The operating system's name from the text of an os-release file: the
/// value of its first PRETTY_NAME line without quotes, else "Linux".
pub open spec fn os_name_of(release: Seq<char>) -> Seq<char> {
    match first_line_with(text_lines(release), "PRETTY_NAME="@, 0) {
        Some(l) => trim_char_seq(strip_prefixes(l, "PRETTY_NAME="@), '"'),
        None => "Linux"@,
    }
}

proof fn lemma_first_line(ls: Seq<Seq<char>>, p: Seq<char>, a: int, j: int)
    requires
        0 <= a <= j <= ls.len(),
        forall|k: int| a <= k < j ==> !starts_with_seq(#[trigger] ls[k], p),
    ensures
        j < ls.len() && starts_with_seq(ls[j], p) ==> first_line_with(ls, p, a) == Some(ls[j]),
        j == ls.len() ==> first_line_with(ls, p, a) is None,
    decreases j - a,
{
    if a < j {
        lemma_first_line(ls, p, a + 1, j);
    }
}

/// The operating system's name from the text of an os-release file (see
/// `os_name_of`).
pub fn os_pretty_name(release: &str) -> (r: String)
    ensures
        r@ == os_name_of(release@),
{
    let cs = chars_of(release);
    let ps = split_char(cs.as_slice(), '\n');
    let ghost pv = views(ps@);
    let ghost ls = text_lines(release@);
    let key = chars_of("PRETTY_NAME=");
    let n = ps.len();
    let mut i: usize = 0;
    while i < n
        invariant
            n == ps@.len(),
            i <= n,
            pv == views(ps@),
            pv == split_char_seq(release@, '\n'),
            ls == text_lines(release@),
            key@ == "PRETTY_NAME="@,
            forall|k: int| 0 <= k < i ==> !starts_with_seq(#[trigger] ls[k], key@),
        decreases n - i,
    {
        assert(pv[i as int] == ps@[i as int]@);
        let piece = ps[i].as_slice();
        let mut line: Vec<char> = crate::text::to_vec(piece);
        if i + 1 < n && line.len() > 0 && line[line.len() - 1] == '\r' {
            line.pop();
        }
        assert(line@ =~= ls[i as int]);
        if matches_at(line.as_slice(), key.as_slice(), 0) {
            proof {
                lemma_first_line(ls, key@, 0, i as int);
            }
            let mut rest: Vec<char> = line;
            while key.len() > 0 && matches_at(rest.as_slice(), key.as_slice(), 0)
                invariant
                    key@ == "PRETTY_NAME="@,
                    strip_prefixes(rest@, key@) == strip_prefixes(ls[i as int], key@),
                decreases rest@.len(),
            {
                let mut next: Vec<char> = Vec::new();
                let mut k: usize = key.len();
                while k < rest.len()
                    invariant
                        key@.len() <= k <= rest@.len(),
                        next@ == rest@.subrange(key@.len() as int, k as int),
                    decreases rest@.len() - k,
                {
                    next.push(rest[k]);
                    assert(rest@.subrange(key@.len() as int, k + 1) =~= rest@.subrange(
                        key@.len() as int,
                        k as int,
                    ).push(rest@[k as int]));
                    k = k + 1;
                }
                rest = next;
            }
            let t = trim_char(rest.as_slice(), '"');
            return string_from(t.as_slice());
        }
        i = i + 1;
    }
    proof {
        lemma_first_line(ls, key@, 0, n as int);
    }
    String::from_str("Linux")
}

} // verus!
