//! HTTP dates in the IMF-fixdate form, `Sun, 06 Nov 1994 08:49:37 GMT`,
//! held as plain calendar values.
use crate::text::same_text;
use vstd::prelude::*;
use vstd::string::*;

verus! {

/// A moment in UTC, as an HTTP date gives it.
#[derive(Clone, Copy, Debug, PartialEq, Eq, Structural)]
pub struct HttpDate {
    pub year: u16,
    /// 1 for January to 12 for December.
    pub month: u8,
    pub day: u8,
    pub hour: u8,
    pub minute: u8,
    /// Up to 60, for a leap second.
    pub second: u8,
}

/// The value of the decimal digit `c`.
pub open spec fn digit_value(c: char) -> int {
    c as int - 48
}

/// Whether `s` holds decimal digits at positions `i` up to `i + n`.
pub open spec fn digits_at(s: Seq<char>, i: int, n: int) -> bool {
    forall|j: int| i <= j < i + n ==> '0' <= #[trigger] s[j] <= '9'
}

/// The two-digit number at position `i`.
pub open spec fn two_digits(s: Seq<char>, i: int) -> int {
    digit_value(s[i]) * 10 + digit_value(s[i + 1])
}

/// The four-digit number at position `i`.
pub open spec fn four_digits(s: Seq<char>, i: int) -> int {
    two_digits(s, i) * 100 + two_digits(s, i + 2)
}

/// Whether `w` is an English day name abbreviation.
pub open spec fn is_day_name(w: Seq<char>) -> bool {
    w == "Mon"@ || w == "Tue"@ || w == "Wed"@ || w == "Thu"@ || w == "Fri"@ || w == "Sat"@ || w
        == "Sun"@
}

/// The number of the month that `m` abbreviates.
pub open spec fn month_number(m: Seq<char>) -> int {
    if m == "Jan"@ {
        1
    } else if m == "Feb"@ {
        2
    } else if m == "Mar"@ {
        3
    } else if m == "Apr"@ {
        4
    } else if m == "May"@ {
        5
    } else if m == "Jun"@ {
        6
    } else if m == "Jul"@ {
        7
    } else if m == "Aug"@ {
        8
    } else if m == "Sep"@ {
        9
    } else if m == "Oct"@ {
        10
    } else if m == "Nov"@ {
        11
    } else if m == "Dec"@ {
        12
    } else {
        0
    }
}

/// Whether `s` has the layout `Www, DD Mon YYYY HH:MM:SS GMT`.
pub open spec fn fixdate_layout(s: Seq<char>) -> bool {
    &&& s.len() == 29
    &&& is_day_name(s.subrange(0, 3))
    &&& s[3] == ','
    &&& s[4] == ' '
    &&& digits_at(s, 5, 2)
    &&& s[7] == ' '
    &&& month_number(s.subrange(8, 11)) != 0
    &&& s[11] == ' '
    &&& digits_at(s, 12, 4)
    &&& s[16] == ' '
    &&& digits_at(s, 17, 2)
    &&& s[19] == ':'
    &&& digits_at(s, 20, 2)
    &&& s[22] == ':'
    &&& digits_at(s, 23, 2)
    &&& s.subrange(25, 29) == " GMT"@
}

/// The date that `s` writes in IMF-fixdate form, if it is one: the day
/// lies in 1 to 31, the hour below 24, the minute below 60, the second
/// at most 60.
pub open spec fn spec_parse_http_date(s: Seq<char>) -> Option<HttpDate> {
    if fixdate_layout(s) && 1 <= two_digits(s, 5) <= 31 && two_digits(s, 17) < 24 && two_digits(s, 20)
        < 60 && two_digits(s, 23) <= 60 {
        Some(
            HttpDate {
                year: four_digits(s, 12) as u16,
                month: month_number(s.subrange(8, 11)) as u8,
                day: two_digits(s, 5) as u8,
                hour: two_digits(s, 17) as u8,
                minute: two_digits(s, 20) as u8,
                second: two_digits(s, 23) as u8,
            },
        )
    } else {
        None
    }
}

/// The two-digit number at `i`, if both characters are digits.
fn two_digits_at(s: &str, i: usize) -> (r: Option<u8>)
    requires
        i < 100,
        i + 1 < s@.len(),
    ensures
        digits_at(s@, i as int, 2) ==> r == Some(two_digits(s@, i as int) as u8) && two_digits(
            s@,
            i as int,
        ) < 100,
        !digits_at(s@, i as int, 2) ==> r is None,
{
    let a = s.get_char(i);
    let b = s.get_char(i + 1);
    if '0' <= a && a <= '9' && '0' <= b && b <= '9' {
        Some(((a as u32 - 48) * 10 + (b as u32 - 48)) as u8)
    } else {
        proof {
            if digits_at(s@, i as int, 2) {
                assert('0' <= s@[i as int] <= '9');
                assert('0' <= s@[i + 1] <= '9');
            }
        }
        None
    }
}

fn day_name(w: &str) -> (r: bool)
    ensures
        r == is_day_name(w@),
{
    proof {
        reveal_strlit("Mon");
        reveal_strlit("Tue");
        reveal_strlit("Wed");
        reveal_strlit("Thu");
        reveal_strlit("Fri");
        reveal_strlit("Sat");
        reveal_strlit("Sun");
    }
    same_text(w, "Mon") || same_text(w, "Tue") || same_text(w, "Wed") || same_text(w, "Thu")
        || same_text(w, "Fri") || same_text(w, "Sat") || same_text(w, "Sun")
}

fn month_of(m: &str) -> (r: u8)
    ensures
        r as int == month_number(m@),
{
    proof {
        reveal_strlit("Jan");
        reveal_strlit("Feb");
        reveal_strlit("Mar");
        reveal_strlit("Apr");
        reveal_strlit("May");
        reveal_strlit("Jun");
        reveal_strlit("Jul");
        reveal_strlit("Aug");
        reveal_strlit("Sep");
        reveal_strlit("Oct");
        reveal_strlit("Nov");
        reveal_strlit("Dec");
    }
    if same_text(m, "Jan") {
        1
    } else if same_text(m, "Feb") {
        2
    } else if same_text(m, "Mar") {
        3
    } else if same_text(m, "Apr") {
        4
    } else if same_text(m, "May") {
        5
    } else if same_text(m, "Jun") {
        6
    } else if same_text(m, "Jul") {
        7
    } else if same_text(m, "Aug") {
        8
    } else if same_text(m, "Sep") {
        9
    } else if same_text(m, "Oct") {
        10
    } else if same_text(m, "Nov") {
        11
    } else if same_text(m, "Dec") {
        12
    } else {
        0
    }
}

/// Reads an HTTP date in IMF-fixdate form.
pub fn parse_http_date(s: &str) -> (r: Option<HttpDate>)
    ensures
        r == spec_parse_http_date(s@),
{
    proof {
        reveal_strlit(" GMT");
    }
    if s.unicode_len() != 29 {
        return None;
    }
    let layout = day_name(s.substring_char(0, 3)) && s.get_char(3) == ',' && s.get_char(4) == ' '
        && s.get_char(7) == ' ' && s.get_char(11) == ' ' && s.get_char(16) == ' ' && s.get_char(19)
        == ':' && s.get_char(22) == ':' && same_text(s.substring_char(25, 29), " GMT");
    let month = month_of(s.substring_char(8, 11));
    let day = two_digits_at(s, 5);
    let y1 = two_digits_at(s, 12);
    let y2 = two_digits_at(s, 14);
    let hour = two_digits_at(s, 17);
    let minute = two_digits_at(s, 20);
    let second = two_digits_at(s, 23);
    proof {
        let t = s@;
        if digits_at(t, 12, 2) && digits_at(t, 14, 2) {
            assert(digits_at(t, 12, 4));
        }
        if digits_at(t, 12, 4) {
            assert(digits_at(t, 12, 2));
            assert(digits_at(t, 14, 2));
        }
    }
    if !layout || month == 0 {
        return None;
    }
    match (day, y1, y2, hour, minute, second) {
        (Some(d), Some(a), Some(b), Some(h), Some(mi), Some(se)) => {
            if 1 <= d && d <= 31 && h < 24 && mi < 60 && se <= 60 {
                Some(
                    HttpDate {
                        year: (a as u16) * 100 + b as u16,
                        month,
                        day: d,
                        hour: h,
                        minute: mi,
                        second: se,
                    },
                )
            } else {
                None
            }
        },
        _ => None,
    }
}

} // verus!
