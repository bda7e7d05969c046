//! Normalizer for French opening-hour phrases such as
//! `"du lundi au vendredi de 11h30 à 13h30."`, turned into the canonical
//! form `"11:30 - 13:30"`: the recognized day-range prefix is stripped,
//! trailing periods are removed, the text is split on the "to" connector,
//! and each clause is split on the hour/minute separator with minutes
//! defaulting to `"00"` and both fields zero-padded to two digits.

use vstd::prelude::*;

use crate::text::{
    chars_of, join_chars, lemma_rfind_before_bounds, lemma_views_push, rfind, spec_join,
    spec_rfind, spec_split, split_all, string_from_chars, sub_chars, views_of,
};

verus! {

/// The lower-case form of a piece of text. What Unicode case folding
/// returns takes pages to state; the name stands for the result, which is
/// a function of the characters alone.
pub uninterp spec fn lower_of(s: Seq<char>) -> Seq<char>;

/// Relies on `str::to_lowercase`: the lower-case form of the text, a
/// function of the characters alone.
#[verifier::external_body]
fn lowercase(s: &str) -> (r: String)
    ensures
        r@ == lower_of(s@),
{
    s.to_lowercase()
}

/// `s` with every plain blank removed.
pub open spec fn spec_remove_blanks(s: Seq<char>) -> Seq<char>
    decreases s.len(),
{
    if s.len() == 0 {
        Seq::empty()
    } else {
        let rest = spec_remove_blanks(s.drop_last());
        if s.last() == ' ' {
            rest
        } else {
            rest.push(s.last())
        }
    }
}

/// `s` left-padded with `'0'` to at least two characters.
pub open spec fn spec_pad2(s: Seq<char>) -> Seq<char> {
    if s.len() == 0 {
        seq!['0', '0']
    } else if s.len() == 1 {
        seq!['0'] + s
    } else {
        s
    }
}

/// An hour or minute field in canonical form: blanks removed, zero-padded
/// to two digits.
pub open spec fn spec_process_hour(s: Seq<char>) -> Seq<char> {
    spec_pad2(spec_remove_blanks(s))
}

fn remove_blanks(s: &Vec<char>) -> (r: Vec<char>)
    ensures
        r@ == spec_remove_blanks(s@),
{
    let mut r: Vec<char> = Vec::new();
    let mut i: usize = 0;
    while i < s.len()
        invariant
            i <= s@.len(),
            r@ == spec_remove_blanks(s@.take(i as int)),
        decreases s@.len() - i,
    {
        proof {
            assert(s@.take(i as int + 1).drop_last() =~= s@.take(i as int));
            assert(s@.take(i as int + 1).last() == s@[i as int]);
        }
        if s[i] != ' ' {
            r.push(s[i]);
        }
        i = i + 1;
    }
    proof {
        assert(s@.take(s@.len() as int) =~= s@);
    }
    r
}

fn pad2(s: Vec<char>) -> (r: Vec<char>)
    ensures
        r@ == spec_pad2(s@),
{
    if s.len() == 0 {
        let r: Vec<char> = vec!['0', '0'];
        proof {
            assert(r@ =~= seq!['0', '0']);
        }
        r
    } else if s.len() == 1 {
        let mut r: Vec<char> = vec!['0'];
        r.push(s[0]);
        proof {
            assert(r@ =~= seq!['0'] + s@);
        }
        r
    } else {
        s
    }
}

fn process_hour_chars(s: &Vec<char>) -> (r: Vec<char>)
    ensures
        r@ == spec_process_hour(s@),
{
    pad2(remove_blanks(s))
}

/// An hour or minute field in canonical form: blanks removed, zero-padded
/// to two digits.
pub fn process_hour(hour: &str) -> (r: String)
    ensures
        r@ == spec_process_hour(hour@),
{
    let cs = chars_of(hour);
    let out = process_hour_chars(&cs);
    string_from_chars(&out)
}

/// The position just after the last occurrence of `pat` in `s`, or `0`
/// when `pat` does not occur.
pub open spec fn spec_prefix_end(s: Seq<char>, pat: Seq<char>) -> int {
    match spec_rfind(s, pat) {
        Some(i) => i + pat.len(),
        None => 0,
    }
}

/// The suffix of `s` after the last occurrence of a recognized day-range
/// prefix phrase; all of `s` when none occurs. The recognized phrases all
/// end in `"de "`, so the cut is made after whichever phrase reaches
/// furthest into the text.
pub open spec fn spec_after_day_prefix(s: Seq<char>) -> Seq<char> {
    let e1 = spec_prefix_end(s, "du lundi au vendredi de "@);
    let e2 = spec_prefix_end(s, "du lundi au jeudi de "@);
    let e3 = spec_prefix_end(s, "de "@);
    let e12 = if e1 >= e2 {
        e1
    } else {
        e2
    };
    if e12 >= e3 {
        s.skip(e12)
    } else {
        s.skip(e3)
    }
}

fn prefix_end(s: &Vec<char>, pat: &Vec<char>) -> (r: usize)
    requires
        pat@.len() >= 1,
    ensures
        r as int == spec_prefix_end(s@, pat@),
        r <= s@.len(),
{
    let n = s.len();
    match rfind(s, pat) {
        Some(i) => {
            proof {
                lemma_rfind_before_bounds(s@, pat@, s@.len() - pat@.len() + 1);
                assert(i + pat@.len() <= n);
            }
            i + pat.len()
        },
        None => 0,
    }
}

fn after_day_prefix(s: &Vec<char>) -> (r: Vec<char>)
    ensures
        r@ == spec_after_day_prefix(s@),
{
    let p1 = chars_of("du lundi au vendredi de ");
    let p2 = chars_of("du lundi au jeudi de ");
    let p3 = chars_of("de ");
    proof {
        reveal_strlit("du lundi au vendredi de ");
        reveal_strlit("du lundi au jeudi de ");
        reveal_strlit("de ");
    }
    let e1 = prefix_end(s, &p1);
    let e2 = prefix_end(s, &p2);
    let e3 = prefix_end(s, &p3);
    let e12 = if e1 >= e2 {
        e1
    } else {
        e2
    };
    let e = if e12 >= e3 {
        e12
    } else {
        e3
    };
    let r = sub_chars(s, e, s.len());
    proof {
        assert(s@.subrange(e as int, s@.len() as int) =~= s@.skip(e as int));
    }
    r
}

/// `s` with every trailing period removed.
pub open spec fn spec_strip_trailing_dots(s: Seq<char>) -> Seq<char>
    decreases s.len(),
{
    if s.len() > 0 && s.last() == '.' {
        spec_strip_trailing_dots(s.drop_last())
    } else {
        s
    }
}

fn strip_trailing_dots(s: &Vec<char>) -> (r: Vec<char>)
    ensures
        r@ == spec_strip_trailing_dots(s@),
{
    let mut e: usize = s.len();
    proof {
        assert(s@.take(s@.len() as int) =~= s@);
    }
    while e > 0 && s[e - 1] == '.'
        invariant
            e <= s@.len(),
            spec_strip_trailing_dots(s@) == spec_strip_trailing_dots(s@.take(e as int)),
        decreases e,
    {
        proof {
            assert(s@.take(e as int).drop_last() =~= s@.take(e as int - 1));
            assert(s@.take(e as int).last() == s@[e as int - 1]);
        }
        e = e - 1;
    }
    let r = sub_chars(s, 0, e);
    proof {
        assert(s@.take(e as int) =~= s@.subrange(0, e as int));
        if e > 0 {
            assert(s@.take(e as int).last() == s@[e as int - 1]);
        }
        assert(spec_strip_trailing_dots(s@.take(e as int)) == s@.take(e as int));
    }
    r
}

/// One clause of an hour phrase in canonical `HH:MM` form: the clause is
/// split on the hour/minute separator letter; absent or empty minutes
/// default to `"00"`; a clause with more than one separator is unusable
/// and becomes `"00:00"`.
pub open spec fn spec_clause(c: Seq<char>) -> Seq<char> {
    let parts = spec_split(c, "h"@);
    if parts.len() == 2 {
        let m = if parts[1].len() == 0 {
            seq!['0', '0']
        } else {
            parts[1]
        };
        spec_process_hour(parts[0]) + seq![':'] + spec_process_hour(m)
    } else if parts.len() == 1 {
        spec_process_hour(parts[0]) + seq![':'] + seq!['0', '0']
    } else {
        seq!['0', '0', ':', '0', '0']
    }
}

fn clause_chars(c: &Vec<char>) -> (r: Vec<char>)
    ensures
        r@ == spec_clause(c@),
{
    let hsep = chars_of("h");
    proof {
        reveal_strlit("h");
    }
    let parts = split_all(c, &hsep);
    proof {
        assert(views_of(parts@) == spec_split(c@, "h"@));
    }
    if parts.len() == 2 {
        let mut r = process_hour_chars(&parts[0]);
        r.push(':');
        let m = if parts[1].len() == 0 {
            let zz: Vec<char> = vec!['0', '0'];
            zz
        } else {
            sub_chars(&parts[1], 0, parts[1].len())
        };
        proof {
            if parts@[1]@.len() == 0 {
                assert(m@ =~= seq!['0', '0']);
            } else {
                assert(m@ =~= parts@[1]@);
            }
        }
        let mm = process_hour_chars(&m);
        let mut out = r;
        let mut i: usize = 0;
        proof {
            assert(out@ =~= spec_process_hour(parts@[0]@) + seq![':']);
        }
        while i < mm.len()
            invariant
                i <= mm@.len(),
                out@ == spec_process_hour(parts@[0]@) + seq![':'] + mm@.take(i as int),
            decreases mm@.len() - i,
        {
            out.push(mm[i]);
            proof {
                assert(spec_process_hour(parts@[0]@) + seq![':'] + mm@.take(i as int + 1) =~= (
                spec_process_hour(parts@[0]@) + seq![':'] + mm@.take(i as int)).push(
                    mm@[i as int],
                ));
            }
            i = i + 1;
        }
        proof {
            assert(mm@.take(mm@.len() as int) =~= mm@);
        }
        out
    } else if parts.len() == 1 {
        let mut r = process_hour_chars(&parts[0]);
        r.push(':');
        r.push('0');
        r.push('0');
        proof {
            assert(r@ =~= spec_process_hour(parts@[0]@) + seq![':'] + seq!['0', '0']);
        }
        r
    } else {
        let r: Vec<char> = vec!['0', '0', ':', '0', '0'];
        proof {
            assert(r@ =~= seq!['0', '0', ':', '0', '0']);
        }
        r
    }
}

/// The canonical form of a whole lower-case hour phrase.
pub open spec fn spec_parse_hours(low: Seq<char>) -> Seq<char> {
    let t = spec_strip_trailing_dots(spec_after_day_prefix(low));
    spec_join(spec_split(t, " à "@).map_values(|c: Seq<char>| spec_clause(c)), " - "@)
}

/// Normalize an hour phrase that is already in lower case.
pub fn normalize_hours_text(s: &str) -> (r: String)
    ensures
        r@ == spec_parse_hours(s@),
{
    let cs = chars_of(s);
    let stripped = after_day_prefix(&cs);
    let trimmed = strip_trailing_dots(&stripped);
    let asep = chars_of(" à ");
    proof {
        reveal_strlit(" à ");
    }
    let clauses = split_all(&trimmed, &asep);
    let ghost target = spec_split(trimmed@, " à "@).map_values(|c: Seq<char>| spec_clause(c));
    let mut outs: Vec<Vec<char>> = Vec::new();
    let mut i: usize = 0;
    while i < clauses.len()
        invariant
            i <= clauses@.len(),
            views_of(clauses@) == spec_split(trimmed@, " à "@),
            target == spec_split(trimmed@, " à "@).map_values(|c: Seq<char>| spec_clause(c)),
            views_of(outs@) == target.take(i as int),
        decreases clauses@.len() - i,
    {
        let piece = clause_chars(&clauses[i]);
        let ghost prev_outs = outs@;
        outs.push(piece);
        proof {
            lemma_views_push(prev_outs, outs@.last());
            assert(target.take(i as int + 1) =~= target.take(i as int).push(target[i as int]));
            assert(views_of(clauses@)[i as int] == clauses@[i as int]@);
            assert(target[i as int] == spec_clause(views_of(clauses@)[i as int]));
            assert(views_of(outs@) =~= target.take(i as int + 1));
        }
        i = i + 1;
    }
    proof {
        assert(target.take(clauses@.len() as int) =~= target);
    }
    let dashsep = chars_of(" - ");
    let joined = join_chars(&outs, &dashsep);
    string_from_chars(&joined)
}

/// Normalize a raw hour phrase: lower-case it, then bring it to canonical
/// `"HH:MM - HH:MM"` form.
pub fn parse_hours(raw_hour: &str) -> (r: String)
    ensures
        r@ == spec_parse_hours(lower_of(raw_hour@)),
{
    let low = lowercase(raw_hour);
    normalize_hours_text(low.as_str())
}

/// The exception table for venues whose upstream hour phrase is known to
/// be wrong at the source: the one affected venue is mapped to a
/// known-correct phrase. This documents a source-data defect, not a
/// general rule.
pub open spec fn spec_hours_override(url: Seq<char>) -> Option<Seq<char>> {
    if url == "https://www.crous-montpellier.fr/restaurant/resto-u-triolet/"@ {
        Some("du lundi au vendredi de 11h30 à 13h30."@)
    } else {
        None
    }
}

/// The hour phrase actually used for a venue: the override when the table
/// names the venue, the scraped text otherwise.
pub open spec fn spec_effective_hours_text(url: Seq<char>, text: Seq<char>) -> Seq<char> {
    match spec_hours_override(url) {
        Some(t) => t,
        None => text,
    }
}

pub fn hours_override(url: &str) -> (r: Option<String>)
    ensures
        (match r {
            Some(t) => Some(t@),
            None => None::<Seq<char>>,
        }) == spec_hours_override(url@),
{
    let key = chars_of("https://www.crous-montpellier.fr/restaurant/resto-u-triolet/");
    let us = chars_of(url);
    if crate::text::chars_eq(&us, &key) {
        let phrase = chars_of("du lundi au vendredi de 11h30 à 13h30.");
        Some(string_from_chars(&phrase))
    } else {
        None
    }
}

/// The normalized opening hours recorded for a venue, given the raw text
/// block scraped from its page: the exception table is consulted first,
/// then the phrase is normalized.
pub fn hours_from_text(url: &str, text: &str) -> (r: String)
    ensures
        r@ == spec_parse_hours(lower_of(spec_effective_hours_text(url@, text@))),
{
    match hours_override(url) {
        Some(t) => parse_hours(t.as_str()),
        None => parse_hours(text),
    }
}

} // verus!
