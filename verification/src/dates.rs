//! Normalizer for French date phrases: a free-text phrase containing a
//! day number, a French month name and a year, in unspecified surrounding
//! text, becomes a calendar date (to be read as UTC midnight). The first
//! token matching the fixed twelve-entry month table determines the
//! month; the token immediately before it is the day and the token
//! immediately after it is the year.

use vstd::prelude::*;

use crate::text::{
    chars_eq, chars_of, parse_u32, spec_parse_u32, spec_tokenize, tokenize, views_of,
};

verus! {

/// A calendar date with no time-of-day significance.
#[derive(Clone, Copy, Debug, PartialEq, Eq, Structural)]
pub struct CalendarDate {
    pub year: u32,
    pub month: u32,
    pub day: u32,
}

/// The phrase does not embed a recognizable `<day> <month-name> <year>`.
#[derive(Clone, Copy, Debug, PartialEq, Eq, Structural)]
pub struct DateFormatError;

/// The month index (1 to 12) named by a token, or 0 when the token is not
/// a French month name.
pub open spec fn spec_month_of(tok: Seq<char>) -> int {
    if tok == "janvier"@ {
        1
    } else if tok == "février"@ {
        2
    } else if tok == "mars"@ {
        3
    } else if tok == "avril"@ {
        4
    } else if tok == "mai"@ {
        5
    } else if tok == "juin"@ {
        6
    } else if tok == "juillet"@ {
        7
    } else if tok == "août"@ {
        8
    } else if tok == "septembre"@ {
        9
    } else if tok == "octobre"@ {
        10
    } else if tok == "novembre"@ {
        11
    } else if tok == "décembre"@ {
        12
    } else {
        0
    }
}

/// The month index named by a token, or 0.
pub fn month_of(tok: &Vec<char>) -> (r: u32)
    ensures
        r as int == spec_month_of(tok@),
{
    if chars_eq(tok, &chars_of("janvier")) {
        1
    } else if chars_eq(tok, &chars_of("février")) {
        2
    } else if chars_eq(tok, &chars_of("mars")) {
        3
    } else if chars_eq(tok, &chars_of("avril")) {
        4
    } else if chars_eq(tok, &chars_of("mai")) {
        5
    } else if chars_eq(tok, &chars_of("juin")) {
        6
    } else if chars_eq(tok, &chars_of("juillet")) {
        7
    } else if chars_eq(tok, &chars_of("août")) {
        8
    } else if chars_eq(tok, &chars_of("septembre")) {
        9
    } else if chars_eq(tok, &chars_of("octobre")) {
        10
    } else if chars_eq(tok, &chars_of("novembre")) {
        11
    } else if chars_eq(tok, &chars_of("décembre")) {
        12
    } else {
        0
    }
}

/// The position of the first month token at or after `k`.
pub open spec fn spec_first_month_from(toks: Seq<Seq<char>>, k: int) -> Option<int>
    decreases toks.len() - k + 1,
{
    if k < 0 || k >= toks.len() {
        None
    } else if spec_month_of(toks[k]) >= 1 {
        Some(k)
    } else {
        spec_first_month_from(toks, k + 1)
    }
}

pub open spec fn spec_first_month(toks: Seq<Seq<char>>) -> Option<int> {
    spec_first_month_from(toks, 0)
}

pub proof fn lemma_first_month_range(toks: Seq<Seq<char>>, k: int, i: int)
    requires
        0 <= k <= i < toks.len(),
        spec_month_of(toks[i]) >= 1,
        forall|j: int| k <= j < i ==> spec_month_of(toks[j]) == 0,
    ensures
        spec_first_month_from(toks, k) == Some(i),
    decreases i - k,
{
    if k < i {
        lemma_first_month_range(toks, k + 1, i);
    }
}

pub proof fn lemma_first_month_none(toks: Seq<Seq<char>>, k: int)
    requires
        0 <= k,
        forall|j: int| k <= j < toks.len() ==> spec_month_of(toks[j]) == 0,
    ensures
        spec_first_month_from(toks, k) is None,
    decreases toks.len() - k + 1,
{
    if k < toks.len() {
        lemma_first_month_none(toks, k + 1);
    }
}

/// A year divisible by four is a leap year, except century years not
/// divisible by four hundred.
pub open spec fn spec_is_leap(y: int) -> bool {
    y % 4 == 0 && (y % 100 != 0 || y % 400 == 0)
}

pub open spec fn spec_days_in_month(y: int, m: int) -> int {
    if m == 2 {
        if spec_is_leap(y) {
            29
        } else {
            28
        }
    } else if m == 4 || m == 6 || m == 9 || m == 11 {
        30
    } else {
        31
    }
}

/// The triple names a real calendar date.
pub open spec fn spec_valid_date(y: int, m: int, d: int) -> bool {
    1 <= m <= 12 && 1 <= d && d <= spec_days_in_month(y, m)
}

pub fn days_in_month(y: u32, m: u32) -> (r: u32)
    requires
        1 <= m <= 12,
    ensures
        r as int == spec_days_in_month(y as int, m as int),
{
    if m == 2 {
        if y % 4 == 0 && (y % 100 != 0 || y % 400 == 0) {
            29
        } else {
            28
        }
    } else if m == 4 || m == 6 || m == 9 || m == 11 {
        30
    } else {
        31
    }
}

/// The date named by a phrase: the first month token fixes the month, its
/// left neighbour the day and its right neighbour the year. The phrase is
/// rejected when no month token occurs, when the month token has no
/// neighbour on either side, when a neighbour is not a decimal number, or
/// when the triple is not a real calendar date.
pub open spec fn spec_parse_date(s: Seq<char>) -> Result<CalendarDate, DateFormatError> {
    let toks = spec_tokenize(s);
    match spec_first_month(toks) {
        None => Err(DateFormatError),
        Some(i) => {
            if i == 0 || i + 1 >= toks.len() {
                Err(DateFormatError)
            } else {
                let m = spec_month_of(toks[i]);
                match (spec_parse_u32(toks[i - 1]), spec_parse_u32(toks[i + 1])) {
                    (Some(d), Some(y)) => {
                        if spec_valid_date(y as int, m, d as int) {
                            Ok(
                                CalendarDate {
                                    year: y,
                                    month: m as u32,
                                    day: d,
                                },
                            )
                        } else {
                            Err(DateFormatError)
                        }
                    },
                    _ => Err(DateFormatError),
                }
            }
        },
    }
}

/// Normalize a French date phrase to a calendar date.
pub fn parse_date(date: &str) -> (r: Result<CalendarDate, DateFormatError>)
    ensures
        r == spec_parse_date(date@),
{
    let cs = chars_of(date);
    let toks = tokenize(&cs);
    let ghost vs = views_of(toks@);
    let mut i: usize = 0;
    let mut month: u32 = 0;
    while i < toks.len()
        invariant_except_break
            month == 0,
            i <= toks@.len(),
            vs == views_of(toks@),
            spec_first_month(vs) == spec_first_month_from(vs, i as int),
        ensures
            i <= toks@.len(),
            vs == views_of(toks@),
            month == 0 ==> i == toks@.len() && spec_first_month(vs) == spec_first_month_from(
                vs,
                i as int,
            ),
            month >= 1 ==> i < toks@.len() && spec_first_month(vs) == Some(i as int) && month
                as int == spec_month_of(vs[i as int]),
        decreases toks@.len() - i,
    {
        proof {
            assert(vs[i as int] == toks@[i as int]@);
        }
        month = month_of(&toks[i]);
        if month != 0 {
            proof {
                assert(spec_first_month_from(vs, i as int) == Some(i as int));
            }
            break;
        }
        proof {
            assert(spec_first_month_from(vs, i as int) == spec_first_month_from(vs, i as int + 1));
        }
        i = i + 1;
    }
    if month == 0 {
        proof {
            assert(spec_first_month_from(vs, vs.len() as int) is None);
        }
        return Err(DateFormatError);
    }
    if i == 0 || i + 1 >= toks.len() {
        return Err(DateFormatError);
    }
    proof {
        assert(vs[i as int - 1] == toks@[i as int - 1]@);
        assert(vs[i as int + 1] == toks@[i as int + 1]@);
    }
    let day = match parse_u32(&toks[i - 1]) {
        Some(d) => d,
        None => {
            return Err(DateFormatError);
        },
    };
    let year = match parse_u32(&toks[i + 1]) {
        Some(y) => y,
        None => {
            return Err(DateFormatError);
        },
    };
    if day < 1 || day > days_in_month(year, month) {
        return Err(DateFormatError);
    }
    Ok(CalendarDate { year, month, day })
}

/// For every phrase whose first month token has numeric neighbours on
/// both sides forming a real calendar date, the normalizer returns
/// exactly that date.
pub proof fn lemma_date_normalizer_valid(s: Seq<char>, i: int, d: u32, y: u32)
    requires
        0 < i,
        i + 1 < spec_tokenize(s).len(),
        spec_month_of(spec_tokenize(s)[i]) >= 1,
        forall|j: int| 0 <= j < i ==> spec_month_of(spec_tokenize(s)[j]) == 0,
        spec_parse_u32(spec_tokenize(s)[i - 1]) == Some(d),
        spec_parse_u32(spec_tokenize(s)[i + 1]) == Some(y),
        spec_valid_date(y as int, spec_month_of(spec_tokenize(s)[i]), d as int),
    ensures
        spec_parse_date(s) == Ok::<CalendarDate, DateFormatError>(
            CalendarDate { year: y, month: spec_month_of(spec_tokenize(s)[i]) as u32, day: d },
        ),
{
    lemma_first_month_range(spec_tokenize(s), 0, i);
}

/// A phrase without any month token is rejected.
pub proof fn lemma_date_normalizer_no_month(s: Seq<char>)
    requires
        forall|j: int|
            0 <= j < spec_tokenize(s).len() ==> spec_month_of(spec_tokenize(s)[j]) == 0,
    ensures
        spec_parse_date(s) == Err::<CalendarDate, DateFormatError>(DateFormatError),
{
    lemma_first_month_none(spec_tokenize(s), 0);
}

/// A phrase whose first month token stands at the edge, or whose
/// neighbour on either side is not a decimal number, is rejected.
pub proof fn lemma_date_normalizer_bad_neighbours(s: Seq<char>, i: int)
    requires
        0 <= i < spec_tokenize(s).len(),
        spec_month_of(spec_tokenize(s)[i]) >= 1,
        forall|j: int| 0 <= j < i ==> spec_month_of(spec_tokenize(s)[j]) == 0,
        i == 0 || i + 1 >= spec_tokenize(s).len() || spec_parse_u32(spec_tokenize(s)[i - 1])
            is None || spec_parse_u32(spec_tokenize(s)[i + 1]) is None,
    ensures
        spec_parse_date(s) == Err::<CalendarDate, DateFormatError>(DateFormatError),
{
    lemma_first_month_range(spec_tokenize(s), 0, i);
}

} // verus!
